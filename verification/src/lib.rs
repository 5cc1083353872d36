//! A Citation Style Language (CSL) processing library.
//!
//! The crate models CSL styles as a typed element tree, classifies numeric
//! variable values, merges locale inheritance chains, renders citation
//! clusters through a small evaluator, and tracks input revisions so that
//! an embedder learns exactly which clusters an edit changed.

pub mod strutil;
pub mod style;
pub mod numeric;
pub mod assoc;
pub mod names;
pub mod locale;
pub mod reference;
pub mod output;
pub mod cite;
pub mod eval;
pub mod engine;
pub mod disamb;

use vstd::prelude::*;

verus! {

} // verus!
