//! Cites and the cite context: what the evaluator reads about one cite.

use vstd::prelude::*;
use crate::numeric::{spec_is_numeric, spec_page_first, NumericModel, NumericValue};
use crate::output::OutputFormat;
use crate::reference::Reference;
use crate::style::{AnyVariable, LocatorType, NameVariable, NumberVariable, Position, Style};
use crate::names::Name;

verus! {

/// One citation of a record, with its optional locator and affixes.
#[derive(Debug)]
pub struct Cite {
    pub id: u32,
    pub ref_id: String,
    pub locator: Option<NumericValue>,
    pub locator_type: Option<LocatorType>,
    pub prefix: Option<String>,
    pub suffix: Option<String>,
}

impl Cite {
    /// A cite of the record, with nothing else set.
    pub fn basic(id: u32, ref_id: &str) -> (r: Cite)
        ensures
            r.id == id,
            r.ref_id@ == ref_id@,
            r.locator is None,
            r.locator_type is None,
            r.prefix is None,
            r.suffix is None,
    {
        Cite {
            id,
            ref_id: ref_id.to_owned(),
            locator: None,
            locator_type: None,
            prefix: None,
            suffix: None,
        }
    }

    /// An exact copy.
    pub fn duplicate(&self) -> (r: Cite)
        ensures
            r == *self,
    {
        Cite {
            id: self.id,
            ref_id: self.ref_id.clone(),
            locator: match &self.locator {
                Some(v) => Some(v.duplicate()),
                None => None,
            },
            locator_type: self.locator_type,
            prefix: match &self.prefix {
                Some(p) => Some(p.clone()),
                None => None,
            },
            suffix: match &self.suffix {
                Some(s) => Some(s.clone()),
                None => None,
            },
        }
    }
}

/// The number a cite context gives a number variable: the locator comes
/// from the cite, page-first is computed from the page, the rest come from
/// the record.
pub open spec fn spec_get_number(r: &Reference, c: &Cite, var: NumberVariable) -> Option<
    NumericModel,
> {
    match var {
        NumberVariable::Locator => match c.locator {
            Some(v) => Some(v@),
            None => None,
        },
        NumberVariable::PageFirst => if r.number_map().contains_key(NumberVariable::Page) {
            spec_page_first(r.number_map()[NumberVariable::Page])
        } else {
            None
        },
        _ => if r.number_map().contains_key(var) {
            Some(r.number_map()[var])
        } else {
            None
        },
    }
}

/// Whether a variable is numeric in this context: only number variables
/// can be, and only when their value classifies as numeric.
pub open spec fn spec_ctx_is_numeric(r: &Reference, c: &Cite, var: AnyVariable) -> bool {
    match var {
        AnyVariable::Number(nv) => match spec_get_number(r, c, nv) {
            Some(m) => spec_is_numeric(m),
            None => false,
        },
        _ => false,
    }
}

/// Whether the context holds a variable: the dummy name never, the locator
/// exactly when the cite carries one, page-first exactly when the page is
/// numeric, everything else when the record holds it.
pub open spec fn spec_ctx_has_variable(r: &Reference, c: &Cite, var: AnyVariable) -> bool {
    match var {
        AnyVariable::Name(NameVariable::Dummy) => false,
        AnyVariable::Number(NumberVariable::Locator) => c.locator is Some,
        AnyVariable::Number(NumberVariable::PageFirst) => spec_ctx_is_numeric(r, c, var),
        _ => r.spec_has_variable(var),
    }
}

/// What the evaluator reads about one cite: the style, the record, the
/// cite, the output format, the derived position, and the cite's number.
#[derive(Clone)]
pub struct CiteContext<'c> {
    pub style: &'c Style,
    pub reference: &'c Reference,
    pub cite: &'c Cite,
    pub format: OutputFormat,
    pub position: Position,
    pub citation_number: u32,
}

/// The evaluated cites of one cluster.
pub struct Cluster<'c> {
    pub cites: Vec<CiteContext<'c>>,
}

impl<'c> CiteContext<'c> {
    /// Whether this context holds the variable.
    pub fn has_variable(&self, var: &AnyVariable) -> (r: bool)
        ensures
            r == spec_ctx_has_variable(self.reference, self.cite, *var),
    {
        match *var {
            AnyVariable::Name(NameVariable::Dummy) => false,
            AnyVariable::Number(NumberVariable::Locator) => self.cite.locator.is_some(),
            AnyVariable::Number(NumberVariable::PageFirst) => self.is_numeric(var),
            _ => self.reference.has_variable(var),
        }
    }

    /// Whether the variable is numeric here.  Only number variables can
    /// be; a version string, for one, stays a literal.
    pub fn is_numeric(&self, var: &AnyVariable) -> (r: bool)
        ensures
            r == spec_ctx_is_numeric(self.reference, self.cite, *var),
    {
        match var {
            AnyVariable::Number(num) => match self.get_number(num) {
                Some(v) => v.is_numeric(),
                None => false,
            },
            _ => false,
        }
    }

    /// The number this context gives a number variable.
    pub fn get_number(&self, var: &NumberVariable) -> (r: Option<NumericValue>)
        ensures
            match r {
                Some(v) => spec_get_number(self.reference, self.cite, *var) == Some(v@),
                None => spec_get_number(self.reference, self.cite, *var) is None,
            },
    {
        match var {
            NumberVariable::Locator => match &self.cite.locator {
                Some(v) => Some(v.duplicate()),
                None => None,
            },
            NumberVariable::PageFirst => match self.reference.number_get(NumberVariable::Page) {
                Some(pp) => pp.page_first(),
                None => None,
            },
            _ => match self.reference.number_get(*var) {
                Some(v) => Some(v.duplicate()),
                None => None,
            },
        }
    }

    /// The names of a name variable; the dummy variable has none.
    pub fn get_name<'a>(&'a self, var: &NameVariable) -> (r: Option<&'a Vec<Name>>)
        ensures
            match r {
                Some(v) => self.reference.name_map().contains_key(*var) && *var
                    != NameVariable::Dummy && self.reference.name_map()[*var] == v@,
                None => *var == NameVariable::Dummy || !self.reference.name_map().contains_key(
                    *var,
                ),
            },
    {
        match var {
            NameVariable::Dummy => None,
            _ => self.reference.name_get(*var),
        }
    }
}

} // verus!
