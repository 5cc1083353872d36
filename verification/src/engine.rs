//! The incremental engine: typed input slots with revision tracking, a
//! per-cluster output cache, and an update summary naming exactly the
//! clusters whose rendered output an edit changed.

use vstd::prelude::*;
use crate::cite::Cite;
use crate::eval::{sp_eval_cite, EvalCtx, EVAL_FUEL};
use crate::locale::{
    concat_terms, first_lang, first_limit_day_ordinals, first_punctuation, merged_from_chain,
    spec_lang_chain, term_pairs, Lang, Locale, LocaleOptions,
};
use crate::names::{spec_name_family, Name};
use crate::numeric::NumericValue;
use crate::output::{sp_affix, sp_wrap, OutputFormat};
use crate::reference::Reference;
use crate::strutil::{str_eq, string_eq, opt_string_eq};
use crate::style::{Position, Style};

verus! {

// ---------------------------------------------------------------------------
// Value equality, by view: the early-cutoff test
// ---------------------------------------------------------------------------

/// Whether two language tags are the same, by characters.
pub open spec fn sp_eqv_lang_opt(a: Option<Lang>, b: Option<Lang>) -> bool {
    match (a, b) {
        (Some(x), Some(y)) => x@ == y@,
        (None, None) => true,
        _ => false,
    }
}

fn eq_lang_opt(a: &Option<Lang>, b: &Option<Lang>) -> (r: bool)
    ensures
        r == sp_eqv_lang_opt(*a, *b),
{
    match (a, b) {
        (Some(x), Some(y)) => string_eq(&x.0, &y.0),
        (None, None) => true,
        _ => false,
    }
}

/// Whether two locales are the same: tag, options, and term pairs.
pub open spec fn sp_eqv_locale(a: Locale, b: Locale) -> bool {
    &&& sp_eqv_lang_opt(a.lang, b.lang)
    &&& a.options_node == b.options_node
    &&& term_pairs(a.terms@) == term_pairs(b.terms@)
}

fn eq_locale(a: &Locale, b: &Locale) -> (r: bool)
    ensures
        r == sp_eqv_locale(*a, *b),
{
    if !eq_lang_opt(&a.lang, &b.lang) {
        return false;
    }
    if a.options_node.limit_day_ordinals_to_day_1 != b.options_node.limit_day_ordinals_to_day_1 {
        return false;
    }
    if a.options_node.punctuation_in_quote != b.options_node.punctuation_in_quote {
        return false;
    }
    let n = a.terms.len();
    if n != b.terms.len() {
        proof {
            assert(term_pairs(a.terms@).len() != term_pairs(b.terms@).len());
        }
        return false;
    }
    let mut i: usize = 0;
    while i < n
        invariant
            0 <= i <= n,
            n == a.terms@.len(),
            n == b.terms@.len(),
            forall|j: int|
                0 <= j < i ==> #[trigger] term_pairs(a.terms@)[j] == term_pairs(b.terms@)[j],
        decreases n - i,
    {
        if !string_eq(&a.terms[i].0, &b.terms[i].0) || !string_eq(&a.terms[i].1, &b.terms[i].1) {
            proof {
                assert(term_pairs(a.terms@)[i as int].0 == a.terms@[i as int].0@);
            }
            return false;
        }
        i = i + 1;
    }
    proof {
        assert(term_pairs(a.terms@) =~= term_pairs(b.terms@));
    }
    true
}

/// Whether two numeric values are the same, by view.
fn eq_numeric(a: &NumericValue, b: &NumericValue) -> (r: bool)
    ensures
        r == (a@ == b@),
{
    match (a, b) {
        (NumericValue::Number(x), NumericValue::Number(y)) => x == y,
        (NumericValue::Range(x1, x2), NumericValue::Range(y1, y2)) => x1 == y1 && x2 == y2,
        (NumericValue::Affixed(x), NumericValue::Affixed(y)) => string_eq(x, y),
        (NumericValue::Literal(x), NumericValue::Literal(y)) => string_eq(x, y),
        _ => false,
    }
}

/// Whether two input names are the same, by the characters of each part.
pub open spec fn sp_eqv_name(a: Name, b: Name) -> bool {
    match (a, b) {
        (Name::Literal { literal: x }, Name::Literal { literal: y }) => x@ == y@,
        (Name::Person(p), Name::Person(q)) => {
            &&& match (p.family, q.family) {
                (Some(x), Some(y)) => x@ == y@,
                (None, None) => true,
                _ => false,
            }
            &&& match (p.given, q.given) {
                (Some(x), Some(y)) => x@ == y@,
                (None, None) => true,
                _ => false,
            }
            &&& match (p.non_dropping_particle, q.non_dropping_particle) {
                (Some(x), Some(y)) => x@ == y@,
                (None, None) => true,
                _ => false,
            }
            &&& match (p.dropping_particle, q.dropping_particle) {
                (Some(x), Some(y)) => x@ == y@,
                (None, None) => true,
                _ => false,
            }
            &&& match (p.suffix, q.suffix) {
                (Some(x), Some(y)) => x@ == y@,
                (None, None) => true,
                _ => false,
            }
        },
        _ => false,
    }
}

fn eq_name(a: &Name, b: &Name) -> (r: bool)
    ensures
        r == sp_eqv_name(*a, *b),
{
    match (a, b) {
        (Name::Literal { literal: x }, Name::Literal { literal: y }) => string_eq(x, y),
        (Name::Person(p), Name::Person(q)) => opt_string_eq(&p.family, &q.family)
            && opt_string_eq(&p.given, &q.given) && opt_string_eq(
            &p.non_dropping_particle,
            &q.non_dropping_particle,
        ) && opt_string_eq(&p.dropping_particle, &q.dropping_particle) && opt_string_eq(
            &p.suffix,
            &q.suffix,
        ),
        _ => false,
    }
}

/// Whether two name lists are the same, pairwise.
pub open spec fn sp_eqv_names(a: Seq<Name>, b: Seq<Name>) -> bool {
    a.len() == b.len() && forall|i: int| 0 <= i < a.len() ==> sp_eqv_name(#[trigger] a[i], b[i])
}

fn eq_names(a: &Vec<Name>, b: &Vec<Name>) -> (r: bool)
    ensures
        r == sp_eqv_names(a@, b@),
{
    let n = a.len();
    if n != b.len() {
        return false;
    }
    let mut i: usize = 0;
    while i < n
        invariant
            0 <= i <= n,
            n == a@.len(),
            n == b@.len(),
            forall|j: int| 0 <= j < i ==> sp_eqv_name(#[trigger] a@[j], b@[j]),
        decreases n - i,
    {
        if !eq_name(&a[i], &b[i]) {
            return false;
        }
        i = i + 1;
    }
    true
}

/// Whether two records carry the same data, by view, namespace by
/// namespace.
pub open spec fn sp_eqv_reference(a: Reference, b: Reference) -> bool {
    &&& a.id@ == b.id@
    &&& a.csl_type == b.csl_type
    &&& sp_eqv_lang_opt(a.language, b.language)
    &&& crate::reference::ord_pairs(a.ordinary@) == crate::reference::ord_pairs(b.ordinary@)
    &&& crate::reference::num_pairs(a.number@) == crate::reference::num_pairs(b.number@)
    &&& a.name@.len() == b.name@.len()
    &&& forall|i: int|
        0 <= i < a.name@.len() ==> (#[trigger] a.name@[i]).0 == b.name@[i].0 && sp_eqv_names(
            a.name@[i].1@,
            b.name@[i].1@,
        )
    &&& a.date@ == b.date@
}

fn eq_reference(a: &Reference, b: &Reference) -> (r: bool)
    ensures
        r == sp_eqv_reference(*a, *b),
{
    if !string_eq(&a.id, &b.id) {
        return false;
    }
    if a.csl_type != b.csl_type {
        return false;
    }
    if !eq_lang_opt(&a.language, &b.language) {
        return false;
    }
    let n = a.ordinary.len();
    if n != b.ordinary.len() {
        proof {
            assert(crate::reference::ord_pairs(a.ordinary@).len() != crate::reference::ord_pairs(
                b.ordinary@,
            ).len());
        }
        return false;
    }
    let mut i: usize = 0;
    while i < n
        invariant
            0 <= i <= n,
            n == a.ordinary@.len(),
            n == b.ordinary@.len(),
            forall|j: int|
                0 <= j < i ==> #[trigger] crate::reference::ord_pairs(a.ordinary@)[j]
                    == crate::reference::ord_pairs(b.ordinary@)[j],
        decreases n - i,
    {
        if a.ordinary[i].0 != b.ordinary[i].0 || !string_eq(&a.ordinary[i].1, &b.ordinary[i].1) {
            proof {
                assert(crate::reference::ord_pairs(a.ordinary@)[i as int].1 == a.ordinary@[
                    i as int].1@);
            }
            return false;
        }
        i = i + 1;
    }
    proof {
        assert(crate::reference::ord_pairs(a.ordinary@) =~= crate::reference::ord_pairs(
            b.ordinary@,
        ));
    }
    let n = a.number.len();
    if n != b.number.len() {
        proof {
            assert(crate::reference::num_pairs(a.number@).len() != crate::reference::num_pairs(
                b.number@,
            ).len());
        }
        return false;
    }
    let mut i: usize = 0;
    while i < n
        invariant
            0 <= i <= n,
            n == a.number@.len(),
            n == b.number@.len(),
            forall|j: int|
                0 <= j < i ==> #[trigger] crate::reference::num_pairs(a.number@)[j]
                    == crate::reference::num_pairs(b.number@)[j],
        decreases n - i,
    {
        if a.number[i].0 != b.number[i].0 || !eq_numeric(&a.number[i].1, &b.number[i].1) {
            proof {
                assert(crate::reference::num_pairs(a.number@)[i as int].1 == a.number@[
                    i as int].1@);
            }
            return false;
        }
        i = i + 1;
    }
    proof {
        assert(crate::reference::num_pairs(a.number@) =~= crate::reference::num_pairs(b.number@));
    }
    let n = a.name.len();
    if n != b.name.len() {
        return false;
    }
    let mut i: usize = 0;
    while i < n
        invariant
            0 <= i <= n,
            n == a.name@.len(),
            n == b.name@.len(),
            forall|j: int|
                0 <= j < i ==> (#[trigger] a.name@[j]).0 == b.name@[j].0 && sp_eqv_names(
                    a.name@[j].1@,
                    b.name@[j].1@,
                ),
        decreases n - i,
    {
        if a.name[i].0 != b.name[i].0 || !eq_names(&a.name[i].1, &b.name[i].1) {
            return false;
        }
        i = i + 1;
    }
    let n = a.date.len();
    if n != b.date.len() {
        return false;
    }
    let mut i: usize = 0;
    while i < n
        invariant
            0 <= i <= n,
            n == a.date@.len(),
            n == b.date@.len(),
            forall|j: int| 0 <= j < i ==> #[trigger] a.date@[j] == b.date@[j],
        decreases n - i,
    {
        if a.date[i].0 != b.date[i].0 || a.date[i].1 != b.date[i].1 {
            return false;
        }
        i = i + 1;
    }
    proof {
        assert(a.date@ =~= b.date@);
    }
    true
}

/// Whether two record sets are the same, pairwise by view.
fn refs_all_eqv(a: &Vec<Reference>, b: &Vec<Reference>) -> (r: bool)
    ensures
        r == (a@.len() == b@.len() && (forall|i: int|
            0 <= i < b@.len() ==> sp_eqv_reference(#[trigger] a@[i], b@[i]))),
{
    let n = a.len();
    if n != b.len() {
        return false;
    }
    let mut i: usize = 0;
    while i < n
        invariant
            0 <= i <= n,
            n == a@.len(),
            n == b@.len(),
            forall|j: int| 0 <= j < i ==> sp_eqv_reference(#[trigger] a@[j], b@[j]),
        decreases n - i,
    {
        if !eq_reference(&a[i], &b[i]) {
            return false;
        }
        i = i + 1;
    }
    true
}

/// Whether two cites are the same, by view.
pub open spec fn sp_eqv_cite(a: Cite, b: Cite) -> bool {
    &&& a.id == b.id
    &&& a.ref_id@ == b.ref_id@
    &&& match (a.locator, b.locator) {
        (Some(x), Some(y)) => x@ == y@,
        (None, None) => true,
        _ => false,
    }
    &&& a.locator_type == b.locator_type
    &&& match (a.prefix, b.prefix) {
        (Some(x), Some(y)) => x@ == y@,
        (None, None) => true,
        _ => false,
    }
    &&& match (a.suffix, b.suffix) {
        (Some(x), Some(y)) => x@ == y@,
        (None, None) => true,
        _ => false,
    }
}

fn eq_cite(a: &Cite, b: &Cite) -> (r: bool)
    ensures
        r == sp_eqv_cite(*a, *b),
{
    if a.id != b.id || !string_eq(&a.ref_id, &b.ref_id) {
        return false;
    }
    let loc_eq = match (&a.locator, &b.locator) {
        (Some(x), Some(y)) => eq_numeric(x, y),
        (None, None) => true,
        _ => false,
    };
    if !loc_eq {
        return false;
    }
    if a.locator_type != b.locator_type {
        return false;
    }
    opt_string_eq(&a.prefix, &b.prefix) && opt_string_eq(&a.suffix, &b.suffix)
}

// ---------------------------------------------------------------------------
// Input slots and lookups
// ---------------------------------------------------------------------------

/// One cluster input: its id, its cites in order, and its note number.
#[derive(Debug)]
pub struct ClusterInput {
    pub id: u32,
    pub cite_ids: Vec<u32>,
    pub note_number: u32,
}

/// The first record with the given id.
pub open spec fn sp_find_ref(refs: Seq<Reference>, id: Seq<char>) -> Option<Reference>
    decreases refs.len(),
{
    if refs.len() == 0 {
        None
    } else if refs.first().id@ == id {
        Some(refs.first())
    } else {
        sp_find_ref(refs.drop_first(), id)
    }
}

/// The first cite with the given id.
pub open spec fn sp_find_cite(cites: Seq<Cite>, id: u32) -> Option<Cite>
    decreases cites.len(),
{
    if cites.len() == 0 {
        None
    } else if cites.first().id == id {
        Some(cites.first())
    } else {
        sp_find_cite(cites.drop_first(), id)
    }
}

/// The index of the first cluster with the given id.
pub open spec fn sp_find_cluster(clusters: Seq<ClusterInput>, id: u32) -> Option<int>
    decreases clusters.len(),
{
    if clusters.len() == 0 {
        None
    } else if clusters.first().id == id {
        Some(0)
    } else {
        match sp_find_cluster(clusters.drop_first(), id) {
            Some(k) => Some(k + 1),
            None => None,
        }
    }
}

/// The note number cluster `k` holds after the first `p` id-and-note
/// pairs of the flat mapping list are applied: the last pair naming the
/// cluster wins, and a cluster no pair names keeps its own.
pub open spec fn sp_renote(clusters: Seq<ClusterInput>, m: Seq<u32>, p: int, k: int) -> u32
    decreases p,
{
    if p <= 0 {
        clusters[k].note_number
    } else if sp_find_cluster(clusters, m[2 * (p - 1)]) == Some(k) {
        m[2 * (p - 1) + 1]
    } else {
        sp_renote(clusters, m, p - 1, k)
    }
}

proof fn lemma_find_cluster_same_ids(a: Seq<ClusterInput>, b: Seq<ClusterInput>, id: u32)
    requires
        a.len() == b.len(),
        forall|k: int| 0 <= k < a.len() ==> (#[trigger] a[k]).id == b[k].id,
    ensures
        sp_find_cluster(a, id) == sp_find_cluster(b, id),
    decreases a.len(),
{
    if a.len() > 0 {
        assert(forall|k: int|
            0 <= k < a.drop_first().len() ==> (#[trigger] a.drop_first()[k]) == a[k + 1]);
        assert(forall|k: int|
            0 <= k < b.drop_first().len() ==> (#[trigger] b.drop_first()[k]) == b[k + 1]);
        lemma_find_cluster_same_ids(a.drop_first(), b.drop_first(), id);
    }
}

fn find_ref_from<'r>(refs: &'r Vec<Reference>, i: usize, id: &str) -> (r: Option<&'r Reference>)
    requires
        i <= refs@.len(),
    ensures
        match r {
            Some(v) => sp_find_ref(refs@.skip(i as int), id@) == Some(*v),
            None => sp_find_ref(refs@.skip(i as int), id@) is None,
        },
    decreases refs@.len() - i,
{
    if i == refs.len() {
        proof {
            assert(refs@.skip(i as int) =~= Seq::<Reference>::empty());
        }
        return None;
    }
    proof {
        assert(refs@.skip(i as int).first() == refs@[i as int]);
        assert(refs@.skip(i as int).drop_first() =~= refs@.skip(i + 1));
    }
    if str_eq(refs[i].id.as_str(), id) {
        Some(&refs[i])
    } else {
        find_ref_from(refs, i + 1, id)
    }
}

fn find_cite_from<'r>(cites: &'r Vec<Cite>, i: usize, id: u32) -> (r: Option<&'r Cite>)
    requires
        i <= cites@.len(),
    ensures
        match r {
            Some(v) => sp_find_cite(cites@.skip(i as int), id) == Some(*v),
            None => sp_find_cite(cites@.skip(i as int), id) is None,
        },
    decreases cites@.len() - i,
{
    if i == cites.len() {
        proof {
            assert(cites@.skip(i as int) =~= Seq::<Cite>::empty());
        }
        return None;
    }
    proof {
        assert(cites@.skip(i as int).first() == cites@[i as int]);
        assert(cites@.skip(i as int).drop_first() =~= cites@.skip(i + 1));
    }
    if cites[i].id == id {
        Some(&cites[i])
    } else {
        find_cite_from(cites, i + 1, id)
    }
}

fn find_cluster_from(clusters: &Vec<ClusterInput>, i: usize, id: u32) -> (r: Option<usize>)
    requires
        i <= clusters@.len(),
    ensures
        match r {
            Some(k) => i <= k < clusters@.len() && sp_find_cluster(
                clusters@.skip(i as int),
                id,
            ) == Some(k - i),
            None => sp_find_cluster(clusters@.skip(i as int), id) is None,
        },
    decreases clusters@.len() - i,
{
    if i == clusters.len() {
        proof {
            assert(clusters@.skip(i as int) =~= Seq::<ClusterInput>::empty());
        }
        return None;
    }
    proof {
        assert(clusters@.skip(i as int).first() == clusters@[i as int]);
        assert(clusters@.skip(i as int).drop_first() =~= clusters@.skip(i + 1));
    }
    if clusters[i].id == id {
        Some(i)
    } else {
        find_cluster_from(clusters, i + 1, id)
    }
}

// ---------------------------------------------------------------------------
// Positions
// ---------------------------------------------------------------------------

/// Clusters this many notes back or closer count as near.
pub const NEAR_NOTE_DISTANCE: u32 = 5;

/// The id of the last cite of the nearest earlier nonempty cluster.
pub open spec fn sp_last_cite_before(clusters: Seq<ClusterInput>, ci: int) -> Option<u32>
    decreases ci,
{
    if ci <= 0 {
        None
    } else if clusters[ci - 1].cite_ids@.len() > 0 {
        Some(clusters[ci - 1].cite_ids@.last())
    } else {
        sp_last_cite_before(clusters, ci - 1)
    }
}

/// The id of the cite immediately before the given one, across clusters.
pub open spec fn sp_prev_cite_id(clusters: Seq<ClusterInput>, ci: int, j: int) -> Option<u32> {
    if j > 0 {
        Some(clusters[ci].cite_ids@[j - 1])
    } else {
        sp_last_cite_before(clusters, ci)
    }
}

/// The record a cite id cites, by id characters.
pub open spec fn sp_ref_of(cites: Seq<Cite>, id: u32) -> Option<Seq<char>> {
    match sp_find_cite(cites, id) {
        Some(c) => Some(c.ref_id@),
        None => None,
    }
}

/// Whether the record is cited anywhere before the given spot, scanning
/// clusters in document order.
pub open spec fn sp_cited_earlier(
    clusters: Seq<ClusterInput>,
    cites: Seq<Cite>,
    ci: int,
    j: int,
    refv: Seq<char>,
) -> bool {
    exists|a: int, b: int|
        0 <= a < clusters.len() && 0 <= b < clusters[a].cite_ids@.len() && (a < ci
            || (a == ci && b < j)) && sp_ref_of(cites, #[trigger] clusters[a].cite_ids@[b])
            == Some(refv)
}

/// Whether the record is cited in an earlier cluster within the near-note
/// distance.
pub open spec fn sp_near_earlier(
    clusters: Seq<ClusterInput>,
    cites: Seq<Cite>,
    ci: int,
    j: int,
    refv: Seq<char>,
) -> bool {
    exists|a: int, b: int|
        0 <= a < clusters.len() && 0 <= b < clusters[a].cite_ids@.len() && (a < ci
            || (a == ci && b < j)) && sp_ref_of(cites, #[trigger] clusters[a].cite_ids@[b])
            == Some(refv) && clusters[ci].note_number as int - clusters[a].note_number as int
            <= NEAR_NOTE_DISTANCE as int
}

/// A cite's derived position: ibid after an immediately preceding cite of
/// the same record, with-locator when the cite carries one; subsequent, or
/// near-note within the note distance, after any earlier cite of it; first
/// otherwise.
pub open spec fn sp_position(
    clusters: Seq<ClusterInput>,
    cites: Seq<Cite>,
    ci: int,
    j: int,
) -> Position {
    match sp_find_cite(cites, clusters[ci].cite_ids@[j]) {
        None => Position::First,
        Some(c) => {
            let refv = c.ref_id@;
            let prev_same = match sp_prev_cite_id(clusters, ci, j) {
                Some(pid) => sp_ref_of(cites, pid) == Some(refv),
                None => false,
            };
            if prev_same {
                if c.locator is Some {
                    Position::IbidWithLocator
                } else {
                    Position::Ibid
                }
            } else if sp_cited_earlier(clusters, cites, ci, j, refv) {
                if sp_near_earlier(clusters, cites, ci, j, refv) {
                    Position::NearNote
                } else {
                    Position::Subsequent
                }
            } else {
                Position::First
            }
        },
    }
}

fn last_cite_before(clusters: &Vec<ClusterInput>, ci: usize) -> (r: Option<u32>)
    requires
        ci <= clusters@.len(),
    ensures
        r == sp_last_cite_before(clusters@, ci as int),
    decreases ci,
{
    if ci == 0 {
        return None;
    }
    let n = clusters[ci - 1].cite_ids.len();
    if n > 0 {
        Some(clusters[ci - 1].cite_ids[n - 1])
    } else {
        last_cite_before(clusters, ci - 1)
    }
}

fn ref_of(cites: &Vec<Cite>, id: u32) -> (r: Option<&String>)
    ensures
        match r {
            Some(v) => sp_ref_of(cites@, id) == Some(v@),
            None => sp_ref_of(cites@, id) is None,
        },
{
    proof {
        assert(cites@.skip(0) =~= cites@);
    }
    match find_cite_from(cites, 0, id) {
        Some(c) => Some(&c.ref_id),
        None => None,
    }
}

fn cited_earlier(
    clusters: &Vec<ClusterInput>,
    cites: &Vec<Cite>,
    ci: usize,
    j: usize,
    refv: &str,
    near_only: bool,
) -> (r: bool)
    requires
        ci < clusters@.len(),
    ensures
        !near_only ==> r == sp_cited_earlier(clusters@, cites@, ci as int, j as int, refv@),
        near_only ==> r == sp_near_earlier(clusters@, cites@, ci as int, j as int, refv@),
{
    let mut a: usize = 0;
    while a < clusters.len()
        invariant
            0 <= a <= clusters@.len(),
            ci < clusters@.len(),
            forall|x: int, y: int|
                0 <= x < a && 0 <= y < clusters@[x].cite_ids@.len() && (x < ci || (x
                    == ci && y < j)) ==> !(sp_ref_of(
                    cites@,
                    #[trigger] clusters@[x].cite_ids@[y],
                ) == Some(refv@) && (!near_only || clusters@[ci as int].note_number as int
                    - clusters@[x].note_number as int <= NEAR_NOTE_DISTANCE as int)),
        decreases clusters@.len() - a,
    {
        let limit: usize = if a < ci {
            clusters[a].cite_ids.len()
        } else if a == ci {
            if j < clusters[a].cite_ids.len() {
                j
            } else {
                clusters[a].cite_ids.len()
            }
        } else {
            0
        };
        let mut b: usize = 0;
        while b < limit
            invariant
                0 <= b <= limit,
                a < clusters@.len(),
                ci < clusters@.len(),
                limit <= clusters@[a as int].cite_ids@.len(),
                a < ci ==> limit == clusters@[a as int].cite_ids@.len(),
                a == ci ==> limit <= j,
                a > ci ==> limit == 0,
                forall|x: int, y: int|
                    0 <= x < a && 0 <= y < clusters@[x].cite_ids@.len() && (x < ci
                        || (x == ci && y < j)) ==> !(sp_ref_of(
                        cites@,
                        #[trigger] clusters@[x].cite_ids@[y],
                    ) == Some(refv@) && (!near_only || clusters@[ci as int].note_number as int
                        - clusters@[x].note_number as int <= NEAR_NOTE_DISTANCE as int)),
                forall|y: int|
                    0 <= y < b ==> !(sp_ref_of(
                        cites@,
                        (#[trigger] clusters@[a as int].cite_ids@[y]),
                    ) == Some(refv@) && (!near_only || clusters@[ci as int].note_number as int
                        - clusters@[a as int].note_number as int <= NEAR_NOTE_DISTANCE as int)),
            decreases limit - b,
        {
            let id = clusters[a].cite_ids[b];
            let hit = match ref_of(cites, id) {
                Some(rv) => str_eq(rv.as_str(), refv),
                None => false,
            };
            let near_ok = if near_only {
                let cur = clusters[ci].note_number;
                let prev = clusters[a].note_number;
                cur <= prev || cur - prev <= NEAR_NOTE_DISTANCE
            } else {
                true
            };
            if hit && near_ok {
                return true;
            }
            b = b + 1;
        }
        a = a + 1;
    }
    false
}

// ---------------------------------------------------------------------------
// Year suffixes
// ---------------------------------------------------------------------------

/// The family names of a record's authors, by characters.
pub open spec fn sp_families(r: Reference) -> Seq<Seq<char>> {
    if r.name_map().contains_key(crate::style::NameVariable::Author) {
        r.name_map()[crate::style::NameVariable::Author].map_values(|n: Name| spec_name_family(n))
    } else {
        Seq::empty()
    }
}

/// The issued year of a record, when it has one.
pub open spec fn sp_year_of(r: Reference) -> Option<int> {
    if r.date_map().contains_key(crate::style::DateVariable::Issued) {
        Some(r.date_map()[crate::style::DateVariable::Issued].year as int)
    } else {
        None
    }
}

/// Whether two records collide for year-suffix purposes: same author
/// families and same issued year.
pub open spec fn sp_key_eq(a: Reference, b: Reference) -> bool {
    sp_families(a) == sp_families(b) && sp_year_of(a) == sp_year_of(b)
}

/// How many earlier-stored records share the record's key.
pub open spec fn sp_key_rank(refs: Seq<Reference>, upto: int, target: Reference) -> int
    decreases upto,
{
    if upto <= 0 {
        0
    } else {
        sp_key_rank(refs, upto - 1, target) + if sp_key_eq(refs[upto - 1], target) {
            1int
        } else {
            0int
        }
    }
}

/// Whether some other stored record shares the record's key.
pub open spec fn sp_key_ambiguous(refs: Seq<Reference>, i: int) -> bool {
    exists|k: int| 0 <= k < refs.len() && k != i && sp_key_eq(#[trigger] refs[k], refs[i])
}

/// The index of the first stored record with the given id.
pub open spec fn sp_ref_index(refs: Seq<Reference>, id: Seq<char>) -> Option<int>
    decreases refs.len(),
{
    if refs.len() == 0 {
        None
    } else if refs.first().id@ == id {
        Some(0)
    } else {
        match sp_ref_index(refs.drop_first(), id) {
            Some(k) => Some(k + 1),
            None => None,
        }
    }
}

/// The year suffix a record earns: when the style disambiguates by year
/// suffix and another stored record shares its author-year key, the count
/// of earlier-stored records with that key; nothing otherwise.
pub open spec fn sp_suffix_for(flag: bool, refs: Seq<Reference>, refv: Seq<char>) -> Option<u32> {
    if !flag {
        None
    } else {
        match sp_ref_index(refs, refv) {
            None => None,
            Some(i) => if sp_key_ambiguous(refs, i) {
                Some(sp_key_rank(refs, i, refs[i]) as u32)
            } else {
                None
            },
        }
    }
}

// ---------------------------------------------------------------------------
// Name disambiguation over the whole document
// ---------------------------------------------------------------------------

/// The author name pairs a cite resolves to, by characters; empty when
/// the cite, its record or its author list is missing.
pub open spec fn sp_cite_pairs(refs: Seq<Reference>, cites: Seq<Cite>, id: u32) -> Seq<
    (Seq<char>, Seq<char>),
> {
    match sp_find_cite(cites, id) {
        None => Seq::empty(),
        Some(c) => match sp_find_ref(refs, c.ref_id@) {
            None => Seq::empty(),
            Some(r) => if r.name_map().contains_key(crate::style::NameVariable::Author) {
                crate::disamb::sp_pairs(r.name_map()[crate::style::NameVariable::Author])
            } else {
                Seq::empty()
            },
        },
    }
}

/// Every cite's author pairs, the clusters flattened in order.
pub open spec fn sp_doc_pairs(
    refs: Seq<Reference>,
    cites: Seq<Cite>,
    clusters: Seq<ClusterInput>,
) -> Seq<Seq<(Seq<char>, Seq<char>)>>
    decreases clusters.len(),
{
    if clusters.len() == 0 {
        Seq::empty()
    } else {
        sp_doc_pairs(refs, cites, clusters.drop_last()) + clusters.last().cite_ids@.map_values(
            |id: u32| sp_cite_pairs(refs, cites, id),
        )
    }
}

/// How many cites the clusters before `ci` hold.
pub open spec fn sp_cites_before(clusters: Seq<ClusterInput>, ci: int) -> int
    decreases ci,
{
    if ci <= 0 {
        0
    } else {
        sp_cites_before(clusters, ci - 1) + clusters[ci - 1].cite_ids@.len()
    }
}

/// Whether the name pass runs: the counts must fit their machine bounds.
pub open spec fn sp_doc_small(pl: Seq<Seq<(Seq<char>, Seq<char>)>>) -> bool {
    pl.len() < 1000000 && (forall|i: int| 0 <= i < pl.len() ==> (#[trigger] pl[i]).len() < 1000000)
}

/// The shown name count of every cite: the add-names fixed point grown
/// from one shown name, or the whole lists when the style adds none.
pub open spec fn sp_shown_counts(add_names: bool, pl: Seq<Seq<(Seq<char>, Seq<char>)>>) -> Seq<
    u32,
> {
    if add_names {
        crate::disamb::sp_fix_v(
            pl.map_values(|p: Seq<(Seq<char>, Seq<char>)>| crate::disamb::sp_pair_fams(p)),
            Seq::new(pl.len(), |i: int| 1u32),
            1000000000000nat,
        )
    } else {
        Seq::new(pl.len(), |i: int| pl[i].len() as u32)
    }
}

proof fn lemma_cites_before_mono(clusters: Seq<ClusterInput>, a: int, b: int)
    requires
        0 <= a <= b <= clusters.len(),
    ensures
        sp_cites_before(clusters, a) <= sp_cites_before(clusters, b),
    decreases b,
{
    if a < b {
        lemma_cites_before_mono(clusters, a, b - 1);
    }
}

proof fn lemma_cites_before_drop_last(clusters: Seq<ClusterInput>, ci: int)
    requires
        0 <= ci < clusters.len(),
    ensures
        sp_cites_before(clusters.drop_last(), ci) == sp_cites_before(clusters, ci),
    decreases ci,
{
    if ci > 0 {
        lemma_cites_before_drop_last(clusters, ci - 1);
        assert(clusters.drop_last()[ci - 1] == clusters[ci - 1]);
    }
}

proof fn lemma_doc_pairs_len(refs: Seq<Reference>, cites: Seq<Cite>, clusters: Seq<ClusterInput>)
    ensures
        sp_doc_pairs(refs, cites, clusters).len() == sp_cites_before(
            clusters,
            clusters.len() as int,
        ),
    decreases clusters.len(),
{
    if clusters.len() > 0 {
        lemma_doc_pairs_len(refs, cites, clusters.drop_last());
        lemma_cites_before_drop_last(clusters, clusters.len() - 1);
        assert(clusters.last() == clusters[clusters.len() - 1]);
        assert(sp_doc_pairs(refs, cites, clusters).len() == sp_doc_pairs(
            refs,
            cites,
            clusters.drop_last(),
        ).len() + clusters.last().cite_ids@.len());
        assert(sp_cites_before(clusters, clusters.len() as int) == sp_cites_before(
            clusters,
            clusters.len() - 1,
        ) + clusters[clusters.len() - 1].cite_ids@.len());
        assert(clusters.drop_last().len() as int == clusters.len() - 1);
    }
}

proof fn lemma_doc_pairs_index(
    refs: Seq<Reference>,
    cites: Seq<Cite>,
    clusters: Seq<ClusterInput>,
    ci: int,
    j: int,
)
    requires
        0 <= ci < clusters.len(),
        0 <= j < clusters[ci].cite_ids@.len(),
    ensures
        ({
            let pl = sp_doc_pairs(refs, cites, clusters);
            let g = sp_cites_before(clusters, ci) + j;
            &&& 0 <= g < pl.len()
            &&& pl[g] == sp_cite_pairs(refs, cites, clusters[ci].cite_ids@[j])
        }),
    decreases clusters.len(),
{
    let pl = sp_doc_pairs(refs, cites, clusters);
    let prev = sp_doc_pairs(refs, cites, clusters.drop_last());
    let tail = clusters.last().cite_ids@.map_values(|id: u32| sp_cite_pairs(refs, cites, id));
    lemma_doc_pairs_len(refs, cites, clusters.drop_last());
    if ci == clusters.len() - 1 {
        if ci > 0 {
            lemma_cites_before_drop_last(clusters, ci);
        }
        assert(sp_cites_before(clusters, ci) == prev.len());
        assert(clusters.last() == clusters[ci]);
        assert(pl[prev.len() + j] == tail[j]);
        assert(tail[j] == sp_cite_pairs(refs, cites, clusters[ci].cite_ids@[j]));
    } else {
        assert(clusters.drop_last()[ci] == clusters[ci]);
        lemma_doc_pairs_index(refs, cites, clusters.drop_last(), ci, j);
        lemma_cites_before_drop_last(clusters, ci);
        let g = sp_cites_before(clusters, ci) + j;
        assert(pl[g] == prev[g]);
    }
}

fn families_eq(a: &Vec<Name>, b: &Vec<Name>) -> (r: bool)
    ensures
        r == (a@.map_values(|n: Name| spec_name_family(n)) == b@.map_values(
            |n: Name| spec_name_family(n),
        )),
{
    let n = a.len();
    if n != b.len() {
        proof {
            assert(a@.map_values(|n: Name| spec_name_family(n)).len() != b@.map_values(
                |n: Name| spec_name_family(n),
            ).len());
        }
        return false;
    }
    let mut i: usize = 0;
    while i < n
        invariant
            0 <= i <= n,
            n == a@.len(),
            n == b@.len(),
            forall|j: int|
                0 <= j < i ==> spec_name_family(#[trigger] a@[j]) == spec_name_family(b@[j]),
        decreases n - i,
    {
        if !str_eq(a[i].family_str(), b[i].family_str()) {
            proof {
                assert(a@.map_values(|n: Name| spec_name_family(n))[i as int] == spec_name_family(
                    a@[i as int],
                ));
                assert(b@.map_values(|n: Name| spec_name_family(n))[i as int] == spec_name_family(
                    b@[i as int],
                ));
            }
            return false;
        }
        i = i + 1;
    }
    proof {
        assert(a@.map_values(|n: Name| spec_name_family(n)) =~= b@.map_values(
            |n: Name| spec_name_family(n),
        ));
    }
    true
}

fn key_eq(a: &Reference, b: &Reference) -> (r: bool)
    ensures
        r == sp_key_eq(*a, *b),
{
    let fam_eq = match (
        a.name_get(crate::style::NameVariable::Author),
        b.name_get(crate::style::NameVariable::Author),
    ) {
        (Some(x), Some(y)) => families_eq(x, y),
        (None, None) => true,
        (Some(x), None) => {
            if x.len() == 0 {
                proof {
                    assert(sp_families(*a) =~= Seq::<Seq<char>>::empty());
                    assert(sp_families(*b) =~= Seq::<Seq<char>>::empty());
                }
                true
            } else {
                proof {
                    assert(sp_families(*a).len() > 0);
                }
                false
            }
        },
        (None, Some(y)) => {
            if y.len() == 0 {
                proof {
                    assert(sp_families(*a) =~= Seq::<Seq<char>>::empty());
                    assert(sp_families(*b) =~= Seq::<Seq<char>>::empty());
                }
                true
            } else {
                proof {
                    assert(sp_families(*b).len() > 0);
                }
                false
            }
        },
    };
    if !fam_eq {
        return false;
    }
    match (
        a.date_get(crate::style::DateVariable::Issued),
        b.date_get(crate::style::DateVariable::Issued),
    ) {
        (Some(x), Some(y)) => x.year == y.year,
        (None, None) => true,
        _ => false,
    }
}

/// The year suffix a record earns under the style's flag.
fn suffix_for(flag: bool, refs: &Vec<Reference>, refv: &str) -> (r: Option<u32>)
    requires
        refs@.len() < 4294967295,
    ensures
        r == sp_suffix_for(flag, refs@, refv@),
{
    if !flag {
        return None;
    }
    let n = refs.len();
    let mut idx: Option<usize> = None;
    let mut i: usize = 0;
    proof {
        assert(refs@.skip(0) =~= refs@);
    }
    while i < n
        invariant
            0 <= i <= n,
            n == refs@.len(),
            match idx {
                Some(k) => k < i && sp_ref_index(refs@, refv@) == Some(k as int),
                None => sp_ref_index(refs@, refv@) == (match sp_ref_index(
                    refs@.skip(i as int),
                    refv@,
                ) {
                    Some(k) => Some(k + i),
                    None => None::<int>,
                }),
            },
        decreases n - i,
    {
        match idx {
            Some(_) => {},
            None => {
                proof {
                    assert(refs@.skip(i as int).first() == refs@[i as int]);
                    assert(refs@.skip(i as int).drop_first() =~= refs@.skip(i + 1));
                }
                if str_eq(refs[i].id.as_str(), refv) {
                    idx = Some(i);
                }
            },
        }
        i = i + 1;
    }
    let i = match idx {
        Some(k) => k,
        None => {
            proof {
                assert(refs@.skip(n as int) =~= Seq::<Reference>::empty());
            }
            return None;
        },
    };
    let mut ambiguous = false;
    let mut rank: u32 = 0;
    let mut k: usize = 0;
    while k < n
        invariant
            0 <= k <= n,
            n == refs@.len(),
            i < n,
            sp_ref_index(refs@, refv@) == Some(i as int),
            n < 4294967295,
            ambiguous == exists|x: int|
                0 <= x < k && x != i && sp_key_eq(#[trigger] refs@[x], refs@[i as int]),
            rank == sp_key_rank(refs@, if k < i + 1 {
                k as int
            } else {
                i as int
            }, refs@[i as int]),
            rank <= k,
        decreases n - k,
    {
        let same = key_eq(&refs[k], &refs[i]);
        if k != i && same {
            ambiguous = true;
        }
        if k < i && same {
            rank = rank + 1;
        }
        k = k + 1;
    }
    if ambiguous {
        Some(rank)
    } else {
        None
    }
}

// ---------------------------------------------------------------------------
// Stored locales and the merged locale
// ---------------------------------------------------------------------------

/// The first stored locale under the given tag.
pub open spec fn sp_lookup_locale(locales: Seq<(Lang, Locale)>, tag: Seq<char>) -> Option<Locale>
    decreases locales.len(),
{
    if locales.len() == 0 {
        None
    } else if locales.first().0@ == tag {
        Some(locales.first().1)
    } else {
        sp_lookup_locale(locales.drop_first(), tag)
    }
}

/// The locales found along a chain of tags, present ones only, highest
/// precedence first.
pub open spec fn sp_gather(locales: Seq<(Lang, Locale)>, chain: Seq<Seq<char>>) -> Seq<Locale>
    decreases chain.len(),
{
    if chain.len() == 0 {
        Seq::empty()
    } else {
        match sp_lookup_locale(locales, chain.first()) {
            Some(l) => seq![l] + sp_gather(locales, chain.drop_first()),
            None => sp_gather(locales, chain.drop_first()),
        }
    }
}

/// Two locale chains that agree field-by-field merge to the same result.
proof fn lemma_locale_seq_cong(a: Seq<Locale>, b: Seq<Locale>)
    requires
        a.len() == b.len(),
        forall|i: int|
            0 <= i < a.len() ==> (#[trigger] a[i]).terms@ == b[i].terms@ && a[i].lang == b[i].lang
                && a[i].options_node == b[i].options_node,
    ensures
        concat_terms(a) == concat_terms(b),
        first_lang(a) == first_lang(b),
        first_punctuation(a) == first_punctuation(b),
        first_limit_day_ordinals(a) == first_limit_day_ordinals(b),
    decreases a.len(),
{
    if a.len() > 0 {
        assert(forall|i: int|
            0 <= i < a.drop_first().len() ==> #[trigger] a.drop_first()[i] == a[i + 1]);
        assert(forall|i: int|
            0 <= i < b.drop_first().len() ==> #[trigger] b.drop_first()[i] == b[i + 1]);
        lemma_locale_seq_cong(a.drop_first(), b.drop_first());
    }
}

impl Locale {
    /// A copy carrying the same tag, options and terms.
    pub fn duplicate(&self) -> (r: Locale)
        ensures
            r.lang == self.lang,
            r.options_node == self.options_node,
            r.terms@ == self.terms@,
    {
        let mut terms: Vec<(String, String)> = Vec::new();
        let mut i: usize = 0;
        let n = self.terms.len();
        while i < n
            invariant
                0 <= i <= n,
                n == self.terms@.len(),
                terms@ == self.terms@.subrange(0, i as int),
            decreases n - i,
        {
            terms.push((self.terms[i].0.clone(), self.terms[i].1.clone()));
            proof {
                assert(terms@ =~= self.terms@.subrange(0, i + 1));
            }
            i = i + 1;
        }
        proof {
            assert(terms@ =~= self.terms@);
        }
        Locale {
            lang: match &self.lang {
                Some(l) => Some(l.duplicate()),
                None => None,
            },
            options_node: self.options_node,
            terms,
        }
    }
}

// ---------------------------------------------------------------------------
// The processor
// ---------------------------------------------------------------------------

/// One queued change notice: a cluster whose output changed.
#[derive(Debug, Clone, Copy, PartialEq, Eq, Structural)]
pub enum DocUpdate {
    Cluster(u32),
}

/// What a round of computation changed: the affected cluster ids, in
/// document order.
#[derive(Debug)]
pub struct UpdateSummary {
    pub clusters: Vec<u32>,
}

/// A cached cluster output, valid while the revision stands.
#[derive(Debug)]
pub struct ClusterCache {
    pub id: u32,
    pub text: String,
    pub rev: u64,
}

/// The first cache entry for a cluster id.
pub open spec fn sp_find_entry(cache: Seq<ClusterCache>, id: u32) -> Option<ClusterCache>
    decreases cache.len(),
{
    if cache.len() == 0 {
        None
    } else if cache.first().id == id {
        Some(cache.first())
    } else {
        sp_find_entry(cache.drop_first(), id)
    }
}

/// A cluster given to the engine: its cites carried in full.
#[derive(Debug)]
pub struct InputCluster {
    pub id: u32,
    pub cites: Vec<Cite>,
    pub note_number: u32,
}

/// The incremental processor: typed inputs, a revision counter, a
/// per-cluster output cache, and the queued change notices.
pub struct Processor {
    pub style: Style,
    pub merged: Locale,
    pub locales: Vec<(Lang, Locale)>,
    pub refs: Vec<Reference>,
    pub cites: Vec<Cite>,
    pub clusters: Vec<ClusterInput>,
    pub format: OutputFormat,
    pub save_updates: bool,
    pub revision: u64,
    pub cache: Vec<ClusterCache>,
    pub queue: Vec<DocUpdate>,
}

/// The one cite's rendered text, as a function of the inputs alone.
pub open spec fn sp_cite_text_of(
    style: Style,
    merged: Locale,
    refs: Seq<Reference>,
    cites: Seq<Cite>,
    clusters: Seq<ClusterInput>,
    format: OutputFormat,
    ci: int,
    j: int,
) -> Seq<char> {
    let id = clusters[ci].cite_ids@[j];
    match sp_find_cite(cites, id) {
        None => Seq::empty(),
        Some(c) => match sp_find_ref(refs, c.ref_id@) {
            None => Seq::empty(),
            Some(r) => {
                let pl = sp_doc_pairs(refs, cites, clusters);
                let active = (style.citation.disambiguate_add_names
                    || style.citation.disambiguate_add_givenname) && sp_doc_small(pl);
                let g = sp_cites_before(clusters, ci) + j;
                let counts = sp_shown_counts(style.citation.disambiguate_add_names, pl);
                let amb = active && crate::disamb::sp_gn_collides(pl, counts, g);
                sp_eval_cite(
                    EvalCtx {
                        style: &style,
                        locale: &merged,
                        reference: &r,
                        cite: &c,
                        position: sp_position(clusters, cites, ci, j),
                        format: format,
                        disamb: amb,
                        year_suffix: sp_suffix_for(
                            style.citation.disambiguate_add_year_suffix,
                            refs,
                            c.ref_id@,
                        ),
                        name_boost: if active && style.citation.disambiguate_add_names {
                            Some(counts[g])
                        } else {
                            None
                        },
                        expand_given: amb && style.citation.disambiguate_add_givenname,
                    },
                    EVAL_FUEL as nat,
                )
            },
        },
    }
}

/// A cluster's cites from `j` on, the nonempty renderings joined with the
/// layout delimiter, as a function of the inputs alone.
pub open spec fn sp_join_cites_of(
    style: Style,
    merged: Locale,
    refs: Seq<Reference>,
    cites: Seq<Cite>,
    clusters: Seq<ClusterInput>,
    format: OutputFormat,
    ci: int,
    j: int,
) -> Seq<char>
    decreases clusters[ci].cite_ids@.len() - j,
{
    if j < 0 || j >= clusters[ci].cite_ids@.len() {
        Seq::empty()
    } else {
        let t = sp_cite_text_of(style, merged, refs, cites, clusters, format, ci, j);
        let rest = sp_join_cites_of(style, merged, refs, cites, clusters, format, ci, j + 1);
        if t.len() == 0 {
            rest
        } else if rest.len() == 0 {
            t
        } else {
            t + style.citation.layout.delimiter.0@ + rest
        }
    }
}

impl Processor {
    /// The merged-locale field matches the stored inputs.
    pub open spec fn merged_ok(&self) -> bool {
        let g = sp_gather(self.locales@, spec_lang_chain(self.style.default_locale@));
        &&& self.merged.terms@ == concat_terms(g)
        &&& self.merged.lang == first_lang(g)
        &&& self.merged.options_node.punctuation_in_quote == first_punctuation(g)
        &&& self.merged.options_node.limit_day_ordinals_to_day_1 == first_limit_day_ordinals(g)
    }

    /// The one cite's rendered text, from the current inputs.
    pub open spec fn sp_cite_text(&self, ci: int, j: int) -> Seq<char> {
        sp_cite_text_of(
            self.style,
            self.merged,
            self.refs@,
            self.cites@,
            self.clusters@,
            self.format,
            ci,
            j,
        )
    }

    /// The cluster's cites from `j` on, the nonempty renderings joined
    /// with the layout delimiter.
    pub open spec fn sp_join_cites(&self, ci: int, j: int) -> Seq<char> {
        sp_join_cites_of(
            self.style,
            self.merged,
            self.refs@,
            self.cites@,
            self.clusters@,
            self.format,
            ci,
            j,
        )
    }

    /// A cluster's rendered output: its cites joined under the layout
    /// delimiter, dressed in the layout formatting and affixes.  An empty
    /// cluster renders as the empty output.
    pub open spec fn sp_built_cluster(&self, ci: int) -> Seq<char> {
        sp_affix(
            self.style.citation.layout.affixes,
            sp_wrap(self.format, self.style.citation.layout.formatting, self.sp_join_cites(ci, 0)),
        )
    }

    /// Every valid cache entry holds the output the current inputs give.
    pub open spec fn cache_ok(&self) -> bool {
        forall|k: int|
            0 <= k < self.cache@.len() && (#[trigger] self.cache@[k]).rev == self.revision
                ==> match sp_find_cluster(self.clusters@, self.cache@[k].id) {
                Some(ci) => self.cache@[k].text@ == self.sp_built_cluster(ci),
                None => true,
            }
    }

    /// The processor's invariant.
    pub open spec fn wf(&self) -> bool {
        &&& self.refs@.len() < 4294967295
        &&& self.merged_ok()
        &&& self.cache_ok()
        &&& forall|k: int|
            0 <= k < self.cache@.len() ==> (#[trigger] self.cache@[k]).rev <= self.revision
    }

    /// Whether the cluster ids are pairwise distinct.
    pub open spec fn distinct_cluster_ids(&self) -> bool {
        forall|k1: int, k2: int|
            0 <= k1 < k2 < self.clusters@.len() ==> (#[trigger] self.clusters@[k1]).id != (
            #[trigger] self.clusters@[k2]).id
    }
}

// ---------------------------------------------------------------------------
// Cache upkeep
// ---------------------------------------------------------------------------

proof fn lemma_find_entry_head(cache: Seq<ClusterCache>, id: u32, i: int)
    requires
        0 <= i < cache.len(),
        cache[i].id == id,
        forall|j: int| 0 <= j < i ==> (#[trigger] cache[j]).id != id,
    ensures
        sp_find_entry(cache, id) == Some(cache[i]),
    decreases i,
{
    if i > 0 {
        assert(forall|j: int|
            0 <= j < cache.drop_first().len() ==> #[trigger] cache.drop_first()[j] == cache[j
                + 1]);
        lemma_find_entry_head(cache.drop_first(), id, i - 1);
    }
}

proof fn lemma_find_entry_absent(cache: Seq<ClusterCache>, id: u32)
    requires
        forall|j: int| 0 <= j < cache.len() ==> (#[trigger] cache[j]).id != id,
    ensures
        sp_find_entry(cache, id) is None,
    decreases cache.len(),
{
    if cache.len() > 0 {
        assert(forall|j: int|
            0 <= j < cache.drop_first().len() ==> #[trigger] cache.drop_first()[j] == cache[j
                + 1]);
        lemma_find_entry_absent(cache.drop_first(), id);
    }
}

proof fn lemma_find_entry_update(cache: Seq<ClusterCache>, i: int, e: ClusterCache, id2: u32)
    requires
        0 <= i < cache.len(),
        cache[i].id == e.id,
        id2 != e.id,
    ensures
        sp_find_entry(cache.update(i, e), id2) == sp_find_entry(cache, id2),
    decreases i,
{
    let u = cache.update(i, e);
    if i == 0 {
        assert(u.first().id == e.id);
        assert(cache.first().id == e.id);
        assert(u.drop_first() =~= cache.drop_first());
    } else {
        assert(u.first() == cache.first());
        assert(u.drop_first() =~= cache.drop_first().update(i - 1, e));
        lemma_find_entry_update(cache.drop_first(), i - 1, e, id2);
    }
}

proof fn lemma_find_entry_push(cache: Seq<ClusterCache>, e: ClusterCache, id2: u32)
    requires
        id2 != e.id,
    ensures
        sp_find_entry(cache.push(e), id2) == sp_find_entry(cache, id2),
    decreases cache.len(),
{
    let u = cache.push(e);
    if cache.len() == 0 {
        assert(u.first() == e);
        assert(u.drop_first() =~= Seq::<ClusterCache>::empty());
    } else {
        assert(u.first() == cache.first());
        assert(u.drop_first() =~= cache.drop_first().push(e));
        lemma_find_entry_push(cache.drop_first(), e, id2);
    }
}

/// Puts an entry in the cache: the first entry with the same id is
/// replaced, else the entry is appended.
fn upsert_entry(cache: &mut Vec<ClusterCache>, e: ClusterCache) -> (replaced: bool)
    ensures
        sp_find_entry(final(cache)@, e.id) == Some(e),
        forall|id2: u32|
            id2 != e.id ==> sp_find_entry(final(cache)@, id2) == sp_find_entry(old(cache)@, id2),
        final(cache)@.len() <= old(cache)@.len() + 1,
        forall|k: int|
            0 <= k < final(cache)@.len() ==> #[trigger] final(cache)@[k] == e || old(
                cache,
            )@.contains(final(cache)@[k]),
{
    let ghost target = e;
    let n = cache.len();
    let mut i: usize = 0;
    while i < n
        invariant
            0 <= i <= n,
            n == cache@.len(),
            cache@ == old(cache)@,
            forall|j: int| 0 <= j < i ==> (#[trigger] cache@[j]).id != target.id,
            e == target,
        decreases n - i,
    {
        if cache[i].id == e.id {
            let ghost oldc = cache@;
            let ghost ii = i as int;
            cache.set(i, e);
            proof {
                assert(cache@ =~= oldc.update(ii, target));
                lemma_find_entry_head(cache@, target.id, ii);
                assert forall|id2: u32| id2 != target.id implies sp_find_entry(cache@, id2)
                    == sp_find_entry(oldc, id2) by {
                    lemma_find_entry_update(oldc, ii, target, id2);
                }
            }
            return true;
        }
        i = i + 1;
    }
    let ghost oldc = cache@;
    cache.push(e);
    proof {
        assert(cache@ =~= oldc.push(target));
        lemma_find_entry_head(cache@, target.id, oldc.len() as int);
        assert forall|id2: u32| id2 != target.id implies sp_find_entry(cache@, id2)
            == sp_find_entry(oldc, id2) by {
            lemma_find_entry_push(oldc, target, id2);
        }
    }
    false
}

proof fn lemma_find_cite_head(cites: Seq<Cite>, id: u32, i: int)
    requires
        0 <= i < cites.len(),
        cites[i].id == id,
        forall|j: int| 0 <= j < i ==> (#[trigger] cites[j]).id != id,
    ensures
        sp_find_cite(cites, id) == Some(cites[i]),
    decreases i,
{
    if i > 0 {
        assert(forall|j: int|
            0 <= j < cites.drop_first().len() ==> #[trigger] cites.drop_first()[j] == cites[j
                + 1]);
        lemma_find_cite_head(cites.drop_first(), id, i - 1);
    }
}

proof fn lemma_find_cite_update(cites: Seq<Cite>, i: int, c: Cite, id2: u32)
    requires
        0 <= i < cites.len(),
        cites[i].id == c.id,
        id2 != c.id,
    ensures
        sp_find_cite(cites.update(i, c), id2) == sp_find_cite(cites, id2),
    decreases i,
{
    let u = cites.update(i, c);
    if i == 0 {
        assert(u.drop_first() =~= cites.drop_first());
    } else {
        assert(u.first() == cites.first());
        assert(u.drop_first() =~= cites.drop_first().update(i - 1, c));
        lemma_find_cite_update(cites.drop_first(), i - 1, c, id2);
    }
}

proof fn lemma_find_cite_push(cites: Seq<Cite>, c: Cite, id2: u32)
    requires
        id2 != c.id,
    ensures
        sp_find_cite(cites.push(c), id2) == sp_find_cite(cites, id2),
    decreases cites.len(),
{
    let u = cites.push(c);
    if cites.len() == 0 {
        assert(u.first() == c);
        assert(u.drop_first() =~= Seq::<Cite>::empty());
    } else {
        assert(u.first() == cites.first());
        assert(u.drop_first() =~= cites.drop_first().push(c));
        lemma_find_cite_push(cites.drop_first(), c, id2);
    }
}

/// The last cite in the sequence with the given id, if any.
pub open spec fn sp_last_cite(s: Seq<Cite>, id: u32) -> Option<Cite>
    decreases s.len(),
{
    if s.len() == 0 {
        None
    } else if s.last().id == id {
        Some(s.last())
    } else {
        sp_last_cite(s.drop_last(), id)
    }
}

/// All the cites of a cluster list, flattened in order.
pub open spec fn sp_all_cites(input: Seq<InputCluster>) -> Seq<Cite>
    decreases input.len(),
{
    if input.len() == 0 {
        Seq::empty()
    } else {
        sp_all_cites(input.drop_last()) + input.last().cites@
    }
}

proof fn lemma_last_cite_concat(a: Seq<Cite>, b: Seq<Cite>, id: u32)
    ensures
        sp_last_cite(a + b, id) == match sp_last_cite(b, id) {
            Some(c) => Some(c),
            None => sp_last_cite(a, id),
        },
    decreases b.len(),
{
    if b.len() == 0 {
        assert(a + b =~= a);
    } else {
        assert((a + b).last() == b.last());
        assert((a + b).drop_last() =~= a + b.drop_last());
        if b.last().id != id {
            lemma_last_cite_concat(a, b.drop_last(), id);
        }
    }
}

/// Stores a cite: the first slot with the same id is replaced, else the
/// cite is appended.
fn upsert_cite(cites: &mut Vec<Cite>, c: Cite)
    ensures
        sp_find_cite(final(cites)@, c.id) == Some(c),
        forall|id2: u32|
            id2 != c.id ==> sp_find_cite(final(cites)@, id2) == sp_find_cite(old(cites)@, id2),
{
    let ghost target = c;
    let n = cites.len();
    let mut i: usize = 0;
    while i < n
        invariant
            0 <= i <= n,
            n == cites@.len(),
            cites@ == old(cites)@,
            forall|j: int| 0 <= j < i ==> (#[trigger] cites@[j]).id != target.id,
            c == target,
        decreases n - i,
    {
        if cites[i].id == c.id {
            let ghost oldc = cites@;
            let ghost ii = i as int;
            cites.set(i, c);
            proof {
                assert(cites@ =~= oldc.update(ii, target));
                lemma_find_cite_head(cites@, target.id, ii);
                assert forall|id2: u32| id2 != target.id implies sp_find_cite(cites@, id2)
                    == sp_find_cite(oldc, id2) by {
                    lemma_find_cite_update(oldc, ii, target, id2);
                }
            }
            return ;
        }
        i = i + 1;
    }
    let ghost oldc = cites@;
    cites.push(c);
    proof {
        assert(cites@ =~= oldc.push(target));
        lemma_find_cite_head(cites@, target.id, oldc.len() as int);
        assert forall|id2: u32| id2 != target.id implies sp_find_cite(cites@, id2)
            == sp_find_cite(oldc, id2) by {
            lemma_find_cite_push(oldc, target, id2);
        }
    }
}

// ---------------------------------------------------------------------------
// Building clusters
// ---------------------------------------------------------------------------

fn lookup_locale_from<'a>(locales: &'a Vec<(Lang, Locale)>, i: usize, tag: &str) -> (r: Option<
    &'a Locale,
>)
    requires
        i <= locales@.len(),
    ensures
        match r {
            Some(l) => sp_lookup_locale(locales@.skip(i as int), tag@) == Some(*l),
            None => sp_lookup_locale(locales@.skip(i as int), tag@) is None,
        },
    decreases locales@.len() - i,
{
    if i == locales.len() {
        proof {
            assert(locales@.skip(i as int) =~= Seq::<(Lang, Locale)>::empty());
        }
        return None;
    }
    proof {
        assert(locales@.skip(i as int).first() == locales@[i as int]);
        assert(locales@.skip(i as int).drop_first() =~= locales@.skip(i + 1));
    }
    if str_eq(locales[i].0.0.as_str(), tag) {
        Some(&locales[i].1)
    } else {
        lookup_locale_from(locales, i + 1, tag)
    }
}

fn gather_from(locales: &Vec<(Lang, Locale)>, chain: &Vec<Lang>, i: usize) -> (r: Vec<Locale>)
    requires
        i <= chain@.len(),
    ensures
        ({
            let g = sp_gather(locales@, chain@.map_values(|l: Lang| l@).skip(i as int));
            &&& r@.len() == g.len()
            &&& forall|k: int|
                0 <= k < g.len() ==> (#[trigger] r@[k]).terms@ == g[k].terms@ && r@[k].lang == g[
                    k].lang && r@[k].options_node == g[k].options_node
        }),
    decreases chain@.len() - i,
{
    let ghost tags = chain@.map_values(|l: Lang| l@);
    if i == chain.len() {
        proof {
            assert(tags.skip(i as int) =~= Seq::<Seq<char>>::empty());
        }
        return Vec::new();
    }
    proof {
        assert(tags.skip(i as int).first() == tags[i as int]);
        assert(tags[i as int] == chain@[i as int]@);
        assert(tags.skip(i as int).drop_first() =~= tags.skip(i + 1));
    }
    let mut rest = gather_from(locales, chain, i + 1);
    proof {
        assert(locales@.skip(0) =~= locales@);
    }
    match lookup_locale_from(locales, 0, chain[i].0.as_str()) {
        Some(l) => {
            let mut out: Vec<Locale> = Vec::new();
            out.push(l.duplicate());
            out.append(&mut rest);
            proof {
                let g = sp_gather(locales@, tags.skip(i as int));
                assert(g =~= seq![
                    sp_lookup_locale(locales@, tags[i as int])->Some_0,
                ] + sp_gather(locales@, tags.skip(i + 1)));
            }
            out
        },
        None => rest,
    }
}

/// Merges the stored locales along a tag's fallback chain.
pub fn merged_of(locales: &Vec<(Lang, Locale)>, lang: &Lang) -> (r: Locale)
    ensures
        ({
            let g = sp_gather(locales@, spec_lang_chain(lang@));
            &&& r.terms@ == concat_terms(g)
            &&& r.lang == first_lang(g)
            &&& r.options_node.punctuation_in_quote == first_punctuation(g)
            &&& r.options_node.limit_day_ordinals_to_day_1 == first_limit_day_ordinals(g)
        }),
{
    let chain = lang.chain();
    let gathered = gather_from(locales, &chain, 0);
    let m = merged_from_chain(&gathered);
    proof {
        let tags = chain@.map_values(|l: Lang| l@);
        assert(tags.skip(0) =~= tags);
        let g = sp_gather(locales@, spec_lang_chain(lang@));
        lemma_locale_seq_cong(gathered@, g);
    }
    m
}

/// The whole length of every name list, as the shown counts of a style
/// that adds no names.
fn full_lengths(lists: &Vec<Vec<Name>>) -> (r: Vec<u32>)
    requires
        forall|i: int| 0 <= i < lists@.len() ==> (#[trigger] lists@[i])@.len() < 1000000,
    ensures
        r@.len() == lists@.len(),
        forall|i: int| 0 <= i < lists@.len() ==> #[trigger] r@[i] == lists@[i]@.len() as u32,
{
    let n = lists.len();
    let mut r: Vec<u32> = Vec::new();
    let mut i: usize = 0;
    while i < n
        invariant
            0 <= i <= n,
            n == lists@.len(),
            r@.len() == i,
            forall|k: int| 0 <= k < lists@.len() ==> (#[trigger] lists@[k])@.len() < 1000000,
            forall|k: int| 0 <= k < i ==> #[trigger] r@[k] == lists@[k]@.len() as u32,
        decreases n - i,
    {
        r.push(lists[i].len() as u32);
        i = i + 1;
    }
    r
}

impl Processor {
    /// A cite's derived position.
    pub fn position_of(&self, ci: usize, j: usize) -> (r: Position)
        requires
            ci < self.clusters@.len(),
            j < self.clusters@[ci as int].cite_ids@.len(),
        ensures
            r == sp_position(self.clusters@, self.cites@, ci as int, j as int),
    {
        let id = self.clusters[ci].cite_ids[j];
        proof {
            assert(self.cites@.skip(0) =~= self.cites@);
        }
        match find_cite_from(&self.cites, 0, id) {
            None => Position::First,
            Some(c) => {
                let refv = c.ref_id.as_str();
                let prev: Option<u32> = if j > 0 {
                    Some(self.clusters[ci].cite_ids[j - 1])
                } else {
                    last_cite_before(&self.clusters, ci)
                };
                let prev_same = match prev {
                    Some(pid) => match ref_of(&self.cites, pid) {
                        Some(rv) => str_eq(rv.as_str(), refv),
                        None => false,
                    },
                    None => false,
                };
                if prev_same {
                    if c.locator.is_some() {
                        Position::IbidWithLocator
                    } else {
                        Position::Ibid
                    }
                } else if cited_earlier(&self.clusters, &self.cites, ci, j, refv, false) {
                    if cited_earlier(&self.clusters, &self.cites, ci, j, refv, true) {
                        Position::NearNote
                    } else {
                        Position::Subsequent
                    }
                } else {
                    Position::First
                }
            },
        }
    }

    /// Builds every cite's author name list, clusters flattened in order,
    /// and reports whether the document fits the name pass's bounds.
    fn doc_name_lists(&self) -> (out: (Vec<Vec<Name>>, bool))
        ensures
            crate::disamb::sp_pairs_all(out.0@) == sp_doc_pairs(
                self.refs@,
                self.cites@,
                self.clusters@,
            ),
            out.0@.len() == sp_doc_pairs(self.refs@, self.cites@, self.clusters@).len(),
            out.1 == sp_doc_small(sp_doc_pairs(self.refs@, self.cites@, self.clusters@)),
    {
        let mut lists: Vec<Vec<Name>> = Vec::new();
        let mut small = true;
        let nc = self.clusters.len();
        let mut ci: usize = 0;
        proof {
            assert(self.clusters@.subrange(0, 0) =~= Seq::<ClusterInput>::empty());
            assert(crate::disamb::sp_pairs_all(lists@) =~= sp_doc_pairs(
                self.refs@,
                self.cites@,
                self.clusters@.subrange(0, 0),
            ));
        }
        while ci < nc
            invariant
                0 <= ci <= nc,
                nc == self.clusters@.len(),
                crate::disamb::sp_pairs_all(lists@) == sp_doc_pairs(
                    self.refs@,
                    self.cites@,
                    self.clusters@.subrange(0, ci as int),
                ),
                small == (forall|x: int|
                    0 <= x < lists@.len() ==> (#[trigger] lists@[x])@.len() < 1000000),
            decreases nc - ci,
        {
            let nj = self.clusters[ci].cite_ids.len();
            let mut j: usize = 0;
            proof {
                assert(self.clusters@[ci as int].cite_ids@.subrange(0, 0) =~= Seq::<u32>::empty());
                assert(crate::disamb::sp_pairs_all(lists@) =~= sp_doc_pairs(
                    self.refs@,
                    self.cites@,
                    self.clusters@.subrange(0, ci as int),
                ) + self.clusters@[ci as int].cite_ids@.subrange(0, 0).map_values(
                    |id: u32| sp_cite_pairs(self.refs@, self.cites@, id),
                ));
            }
            while j < nj
                invariant
                    0 <= j <= nj,
                    ci < nc,
                    nc == self.clusters@.len(),
                    nj == self.clusters@[ci as int].cite_ids@.len(),
                    crate::disamb::sp_pairs_all(lists@) == sp_doc_pairs(
                        self.refs@,
                        self.cites@,
                        self.clusters@.subrange(0, ci as int),
                    ) + self.clusters@[ci as int].cite_ids@.subrange(0, j as int).map_values(
                        |id: u32| sp_cite_pairs(self.refs@, self.cites@, id),
                    ),
                    small == (forall|x: int|
                        0 <= x < lists@.len() ==> (#[trigger] lists@[x])@.len() < 1000000),
                decreases nj - j,
            {
                let id = self.clusters[ci].cite_ids[j];
                let mut one: Vec<Name> = Vec::new();
                proof {
                    assert(self.cites@.skip(0) =~= self.cites@);
                    assert(self.refs@.skip(0) =~= self.refs@);
                }
                match find_cite_from(&self.cites, 0, id) {
                    None => {},
                    Some(c) => {
                        match find_ref_from(&self.refs, 0, c.ref_id.as_str()) {
                            None => {},
                            Some(r) => {
                                match r.name_get(crate::style::NameVariable::Author) {
                                    None => {},
                                    Some(names) => {
                                        let nn = names.len();
                                        let mut k: usize = 0;
                                        while k < nn
                                            invariant
                                                0 <= k <= nn,
                                                nn == names@.len(),
                                                one@ == names@.subrange(0, k as int),
                                            decreases nn - k,
                                        {
                                            one.push(names[k].duplicate());
                                            proof {
                                                assert(one@ =~= names@.subrange(0, k + 1));
                                            }
                                            k = k + 1;
                                        }
                                        proof {
                                            assert(one@ =~= names@);
                                        }
                                    },
                                }
                            },
                        }
                    },
                }
                proof {
                    assert(crate::disamb::sp_pairs(one@) =~= sp_cite_pairs(
                        self.refs@,
                        self.cites@,
                        id,
                    ));
                }
                let ghost oldl = lists@;
                let ghost onev = one@;
                small = small && one.len() < 1000000;
                lists.push(one);
                proof {
                    assert(lists@.len() == oldl.len() + 1);
                    assert(forall|x: int| 0 <= x < oldl.len() ==> lists@[x] == #[trigger] oldl[x]);
                    assert(lists@[oldl.len() as int]@ == onev);
                    assert(crate::disamb::sp_pairs_all(lists@) =~= crate::disamb::sp_pairs_all(
                        oldl,
                    ).push(crate::disamb::sp_pairs(lists@[lists@.len() - 1]@)));
                    assert(self.clusters@[ci as int].cite_ids@.subrange(0, j + 1).drop_last()
                        =~= self.clusters@[ci as int].cite_ids@.subrange(0, j as int));
                    assert(crate::disamb::sp_pairs_all(lists@) =~= sp_doc_pairs(
                        self.refs@,
                        self.cites@,
                        self.clusters@.subrange(0, ci as int),
                    ) + self.clusters@[ci as int].cite_ids@.subrange(0, j + 1).map_values(
                        |id: u32| sp_cite_pairs(self.refs@, self.cites@, id),
                    ));
                }
                j = j + 1;
            }
            proof {
                let sub1 = self.clusters@.subrange(0, ci + 1);
                assert(sub1.drop_last() =~= self.clusters@.subrange(0, ci as int));
                assert(sub1.last() == self.clusters@[ci as int]);
                assert(self.clusters@[ci as int].cite_ids@.subrange(0, nj as int)
                    =~= self.clusters@[ci as int].cite_ids@);
                assert(crate::disamb::sp_pairs_all(lists@) =~= sp_doc_pairs(
                    self.refs@,
                    self.cites@,
                    sub1,
                ));
            }
            ci = ci + 1;
        }
        let fits = lists.len() < 1000000;
        proof {
            assert(self.clusters@.subrange(0, nc as int) =~= self.clusters@);
            let pl = sp_doc_pairs(self.refs@, self.cites@, self.clusters@);
            assert(pl.len() == lists@.len());
            assert forall|x: int| 0 <= x < lists@.len() implies ((#[trigger] lists@[x])@.len()
                < 1000000 <==> (#[trigger] pl[x]).len() < 1000000) by {
                assert(pl[x] == crate::disamb::sp_pairs(lists@[x]@));
                assert(pl[x].len() == lists@[x]@.len());
            }
            if small && fits {
                assert(pl.len() < 1000000);
                assert forall|x: int| 0 <= x < pl.len() implies (#[trigger] pl[x]).len()
                    < 1000000 by {
                    assert(lists@[x]@.len() < 1000000);
                }
                assert(sp_doc_small(pl));
            } else if !fits {
                assert(!sp_doc_small(pl));
            } else {
                let x = choose|x: int|
                    0 <= x < lists@.len() && !((#[trigger] lists@[x])@.len() < 1000000);
                assert(pl[x].len() >= 1000000);
                assert(!sp_doc_small(pl));
            }
            assert((small && fits) == sp_doc_small(pl));
        }
        (lists, small && fits)
    }

    /// The flat index of one cite among all the document's cites.
    fn flat_index(&self, ci: usize, j: usize) -> (g: usize)
        requires
            ci < self.clusters@.len(),
            j < self.clusters@[ci as int].cite_ids@.len(),
            sp_cites_before(self.clusters@, self.clusters@.len() as int) < 1000000,
        ensures
            g as int == sp_cites_before(self.clusters@, ci as int) + j,
    {
        let mut acc: usize = 0;
        let mut k: usize = 0;
        while k < ci
            invariant
                0 <= k <= ci,
                ci < self.clusters@.len(),
                acc as int == sp_cites_before(self.clusters@, k as int),
                sp_cites_before(self.clusters@, self.clusters@.len() as int) < 1000000,
            decreases ci - k,
        {
            proof {
                lemma_cites_before_mono(self.clusters@, k + 1, self.clusters@.len() as int);
            }
            acc = acc + self.clusters[k].cite_ids.len();
            k = k + 1;
        }
        proof {
            lemma_cites_before_mono(self.clusters@, ci as int + 1, self.clusters@.len() as int);
        }
        acc + j
    }

    fn cite_text(&self, ci: usize, j: usize) -> (r: String)
        requires
            self.refs@.len() < 4294967295,
            ci < self.clusters@.len(),
            j < self.clusters@[ci as int].cite_ids@.len(),
        ensures
            r@ == self.sp_cite_text(ci as int, j as int),
    {
        let id = self.clusters[ci].cite_ids[j];
        proof {
            assert(self.cites@.skip(0) =~= self.cites@);
            assert(self.refs@.skip(0) =~= self.refs@);
        }
        match find_cite_from(&self.cites, 0, id) {
            None => String::new(),
            Some(c) => {
                match find_ref_from(&self.refs, 0, c.ref_id.as_str()) {
                    None => String::new(),
                    Some(r) => {
                        let pos = self.position_of(ci, j);
                        let ys = suffix_for(
                            self.style.citation.disambiguate_add_year_suffix,
                            &self.refs,
                            c.ref_id.as_str(),
                        );
                        let ghost pl = sp_doc_pairs(self.refs@, self.cites@, self.clusters@);
                        let ghost counts_spec = sp_shown_counts(
                            self.style.citation.disambiguate_add_names,
                            pl,
                        );
                        let mut disamb = false;
                        let mut boost: Option<u32> = None;
                        let mut expand_given = false;
                        if self.style.citation.disambiguate_add_names
                            || self.style.citation.disambiguate_add_givenname {
                            let built = self.doc_name_lists();
                            let lists = built.0;
                            let small = built.1;
                            if small {
                                proof {
                                    lemma_doc_pairs_len(self.refs@, self.cites@, self.clusters@);
                                    lemma_doc_pairs_index(
                                        self.refs@,
                                        self.cites@,
                                        self.clusters@,
                                        ci as int,
                                        j as int,
                                    );
                                    assert forall|x: int|
                                        0 <= x < lists@.len() implies (#[trigger] lists@[
                                    x])@.len() < 1000000 by {
                                        assert(pl[x] == crate::disamb::sp_pairs(lists@[x]@));
                                        assert(pl[x].len() == lists@[x]@.len());
                                    }
                                }
                                let g = self.flat_index(ci, j);
                                let counts: Vec<u32>;
                                if self.style.citation.disambiguate_add_names {
                                    let rr = crate::disamb::add_names(&lists, 1);
                                    counts = rr.0;
                                    proof {
                                        let fams = pl.map_values(
                                            |p: Seq<(Seq<char>, Seq<char>)>|
                                                crate::disamb::sp_pair_fams(p),
                                        );
                                        assert forall|x: int|
                                            0 <= x < pl.len() implies #[trigger] fams[x]
                                            == crate::disamb::sp_fams_all(lists@)[x] by {
                                            assert(pl[x] == crate::disamb::sp_pairs(lists@[x]@));
                                            assert(crate::disamb::sp_pair_fams(
                                                crate::disamb::sp_pairs(lists@[x]@),
                                            ) =~= crate::disamb::sp_fams(lists@[x]@));
                                        }
                                        assert(fams =~= crate::disamb::sp_fams_all(lists@));
                                        assert(Seq::new(lists@.len(), |i: int| 1u32) =~= Seq::new(
                                            pl.len(),
                                            |i: int| 1u32,
                                        ));
                                        assert(counts@ == counts_spec);
                                    }
                                } else {
                                    counts = full_lengths(&lists);
                                    proof {
                                        assert forall|x: int|
                                            0 <= x < pl.len() implies #[trigger] counts@[x]
                                            == pl[x].len() as u32 by {
                                            assert(pl[x] == crate::disamb::sp_pairs(lists@[x]@));
                                            assert(pl[x].len() == lists@[x]@.len());
                                        }
                                        assert(counts@ =~= Seq::new(
                                            pl.len(),
                                            |i: int| pl[i].len() as u32,
                                        ));
                                        assert(counts@ == counts_spec);
                                    }
                                }
                                let a = crate::disamb::gn_collides(&lists, &counts, g);
                                disamb = a;
                                if self.style.citation.disambiguate_add_names {
                                    boost = Some(counts[g]);
                                }
                                expand_given = a
                                    && self.style.citation.disambiguate_add_givenname;
                            }
                        }
                        let ctx = EvalCtx {
                            style: &self.style,
                            locale: &self.merged,
                            reference: r,
                            cite: c,
                            position: pos,
                            format: self.format,
                            disamb,
                            year_suffix: ys,
                            name_boost: boost,
                            expand_given,
                        };
                        ctx.eval_cite()
                    },
                }
            },
        }
    }

    fn join_cites_from(&self, ci: usize, j: usize) -> (r: String)
        requires
            self.refs@.len() < 4294967295,
            ci < self.clusters@.len(),
            j <= self.clusters@[ci as int].cite_ids@.len(),
        ensures
            r@ == self.sp_join_cites(ci as int, j as int),
        decreases self.clusters@[ci as int].cite_ids@.len() - j,
    {
        if j == self.clusters[ci].cite_ids.len() {
            return String::new();
        }
        let t = self.cite_text(ci, j);
        let rest = self.join_cites_from(ci, j + 1);
        if t.as_str().is_empty() {
            rest
        } else if rest.as_str().is_empty() {
            t
        } else {
            t.concat(self.style.citation.layout.delimiter.0.as_str()).concat(rest.as_str())
        }
    }

    /// Renders one cluster from the current inputs.
    pub fn build_cluster(&self, ci: usize) -> (r: String)
        requires
            self.refs@.len() < 4294967295,
            ci < self.clusters@.len(),
        ensures
            r@ == self.sp_built_cluster(ci as int),
    {
        let body = self.join_cites_from(ci, 0);
        let w = self.format.wrap(&self.style.citation.layout.formatting, body);
        crate::output::apply_affixes(&self.style.citation.layout.affixes, w)
    }

    /// A fresh processor over one style, with no records, cites, clusters
    /// or stored locales.
    pub fn new(style: Style, format: OutputFormat, save_updates: bool) -> (r: Processor)
        ensures
            r.wf(),
            r.style == style,
            r.format == format,
            r.save_updates == save_updates,
            r.locales@.len() == 0,
            r.refs@.len() == 0,
            r.cites@.len() == 0,
            r.clusters@.len() == 0,
            r.cache@.len() == 0,
            r.queue@.len() == 0,
            r.revision == 0,
    {
        let locales: Vec<(Lang, Locale)> = Vec::new();
        let merged = merged_of(&locales, &style.default_locale);
        Processor {
            style,
            merged,
            locales,
            refs: Vec::new(),
            cites: Vec::new(),
            clusters: Vec::new(),
            format,
            save_updates,
            revision: 0,
            cache: Vec::new(),
            queue: Vec::new(),
        }
    }

    /// Replaces the style.  Every cached output becomes stale.
    pub fn set_style(&mut self, style: Style)
        requires
            old(self).wf(),
            old(self).revision < 18446744073709551615u64,
        ensures
            final(self).wf(),
            final(self).style == style,
            final(self).revision == old(self).revision + 1,
            final(self).locales@ == old(self).locales@,
            final(self).refs@ == old(self).refs@,
            final(self).cites@ == old(self).cites@,
            final(self).clusters@ == old(self).clusters@,
            final(self).format == old(self).format,
            final(self).save_updates == old(self).save_updates,
            final(self).cache@ == old(self).cache@,
            final(self).queue@ == old(self).queue@,
    {
        self.style = style;
        self.revision = self.revision + 1;
        self.merged = merged_of(&self.locales, &self.style.default_locale);
    }

}

proof fn lemma_lookup_locale_head(locales: Seq<(Lang, Locale)>, tag: Seq<char>, i: int)
    requires
        0 <= i < locales.len(),
        locales[i].0@ == tag,
        forall|j: int| 0 <= j < i ==> (#[trigger] locales[j]).0@ != tag,
    ensures
        sp_lookup_locale(locales, tag) == Some(locales[i].1),
    decreases i,
{
    if i > 0 {
        assert(forall|j: int|
            0 <= j < locales.drop_first().len() ==> #[trigger] locales.drop_first()[j] == locales[
                j + 1]);
        lemma_lookup_locale_head(locales.drop_first(), tag, i - 1);
    }
}

proof fn lemma_lookup_locale_absent(locales: Seq<(Lang, Locale)>, tag: Seq<char>)
    requires
        forall|j: int| 0 <= j < locales.len() ==> (#[trigger] locales[j]).0@ != tag,
    ensures
        sp_lookup_locale(locales, tag) is None,
    decreases locales.len(),
{
    if locales.len() > 0 {
        assert(forall|j: int|
            0 <= j < locales.drop_first().len() ==> #[trigger] locales.drop_first()[j] == locales[
                j + 1]);
        lemma_lookup_locale_absent(locales.drop_first(), tag);
    }
}

proof fn lemma_lookup_locale_update(
    locales: Seq<(Lang, Locale)>,
    i: int,
    p: (Lang, Locale),
    tag2: Seq<char>,
)
    requires
        0 <= i < locales.len(),
        locales[i].0@ == p.0@,
        tag2 != p.0@,
    ensures
        sp_lookup_locale(locales.update(i, p), tag2) == sp_lookup_locale(locales, tag2),
    decreases i,
{
    let u = locales.update(i, p);
    if i == 0 {
        assert(u.drop_first() =~= locales.drop_first());
    } else {
        assert(u.first() == locales.first());
        assert(u.drop_first() =~= locales.drop_first().update(i - 1, p));
        lemma_lookup_locale_update(locales.drop_first(), i - 1, p, tag2);
    }
}

proof fn lemma_lookup_locale_push(locales: Seq<(Lang, Locale)>, p: (Lang, Locale), tag2: Seq<char>)
    requires
        tag2 != p.0@,
    ensures
        sp_lookup_locale(locales.push(p), tag2) == sp_lookup_locale(locales, tag2),
    decreases locales.len(),
{
    let u = locales.push(p);
    reveal_with_fuel(sp_lookup_locale, 3);
    if locales.len() == 0 {
        assert(u.first() == p);
        assert(u.first().0@ != tag2);
        assert(u.drop_first() =~= Seq::<(Lang, Locale)>::empty());
    } else {
        assert(u.first() == locales.first());
        assert(u.drop_first() =~= locales.drop_first().push(p));
        lemma_lookup_locale_push(locales.drop_first(), p, tag2);
    }
}

/// Stores one locale under its tag: the first pair with the same tag is
/// replaced, else the pair is appended.  Storing a locale equal to the
/// stored one, by view, changes nothing.
fn upsert_locale(locales: &mut Vec<(Lang, Locale)>, pair: (Lang, Locale)) -> (changed: bool)
    ensures
        match sp_lookup_locale(final(locales)@, pair.0@) {
            Some(l) => sp_eqv_locale(l, pair.1),
            None => false,
        },
        changed ==> sp_lookup_locale(final(locales)@, pair.0@) == Some(pair.1),
        !changed ==> *final(locales) == *old(locales) && (match sp_lookup_locale(
            old(locales)@,
            pair.0@,
        ) {
            Some(l) => sp_eqv_locale(l, pair.1),
            None => false,
        }),
        (match sp_lookup_locale(old(locales)@, pair.0@) {
            Some(l) => sp_eqv_locale(l, pair.1),
            None => false,
        }) ==> !changed,
        forall|tag: Seq<char>|
            tag != pair.0@ ==> #[trigger] sp_lookup_locale(final(locales)@, tag)
                == sp_lookup_locale(old(locales)@, tag),
{
    let ghost target = pair;
    let n = locales.len();
    let mut i: usize = 0;
    while i < n
        invariant
            0 <= i <= n,
            n == locales@.len(),
            *locales == *old(locales),
            forall|j: int| 0 <= j < i ==> (#[trigger] locales@[j]).0@ != target.0@,
            pair == target,
        decreases n - i,
    {
        if str_eq(locales[i].0.0.as_str(), pair.0.0.as_str()) {
            proof {
                lemma_lookup_locale_head(locales@, target.0@, i as int);
            }
            if eq_locale(&locales[i].1, &pair.1) {
                return false;
            }
            let ghost oldc = locales@;
            let ghost ii = i as int;
            locales.set(i, pair);
            proof {
                assert(locales@ =~= oldc.update(ii, target));
                lemma_lookup_locale_head(locales@, target.0@, ii);
                assert forall|tag: Seq<char>|
                    tag != target.0@ implies #[trigger] sp_lookup_locale(locales@, tag)
                    == sp_lookup_locale(oldc, tag) by {
                    lemma_lookup_locale_update(oldc, ii, target, tag);
                }
            }
            return true;
        }
        i = i + 1;
    }
    let ghost oldc = locales@;
    proof {
        lemma_lookup_locale_absent(oldc, target.0@);
    }
    locales.push(pair);
    proof {
        assert(locales@ =~= oldc.push(target));
        lemma_lookup_locale_head(locales@, target.0@, oldc.len() as int);
        assert forall|tag: Seq<char>|
            tag != target.0@ implies #[trigger] sp_lookup_locale(locales@, tag)
            == sp_lookup_locale(oldc, tag) by {
            lemma_lookup_locale_push(oldc, target, tag);
        }
    }
    true
}

/// Whether some listed tag has exactly these characters.
fn lang_listed(v: &Vec<Lang>, s: &str) -> (r: bool)
    ensures
        r == exists|k: int| 0 <= k < v@.len() && (#[trigger] v@[k])@ == s@,
{
    let n = v.len();
    let mut i: usize = 0;
    while i < n
        invariant
            0 <= i <= n,
            n == v@.len(),
            forall|k: int| 0 <= k < i ==> (#[trigger] v@[k])@ != s@,
        decreases n - i,
    {
        if crate::strutil::str_eq(v[i].0.as_str(), s) {
            return true;
        }
        i = i + 1;
    }
    false
}

impl Processor {
    /// Stores locales, each under its tag, replacing what the tag held.
    /// Writing only locales that equal the stored ones, by view, leaves
    /// the processor untouched.
    pub fn store_locales(&mut self, list: Vec<(Lang, Locale)>)
        requires
            old(self).wf(),
            old(self).revision < 18446744073709551615u64,
        ensures
            final(self).wf(),
            final(self).style == old(self).style,
            final(self).refs@ == old(self).refs@,
            final(self).cites@ == old(self).cites@,
            final(self).clusters@ == old(self).clusters@,
            final(self).format == old(self).format,
            final(self).save_updates == old(self).save_updates,
            final(self).queue@ == old(self).queue@,
            final(self).cache@ == old(self).cache@,
            (forall|i: int|
                0 <= i < list@.len() ==> match sp_lookup_locale(
                    old(self).locales@,
                    (#[trigger] list@[i]).0@,
                ) {
                    Some(l) => sp_eqv_locale(l, list@[i].1),
                    None => false,
                }) ==> *final(self) == *old(self),
            forall|i: int|
                0 <= i < list@.len() && (forall|m: int|
                    i < m < list@.len() ==> (#[trigger] list@[m]).0@ != list@[i].0@)
                    ==> match sp_lookup_locale(final(self).locales@, (#[trigger] list@[i]).0@) {
                    Some(l) => sp_eqv_locale(l, list@[i].1),
                    None => false,
                },
            forall|tag: Seq<char>|
                #![trigger sp_lookup_locale(final(self).locales@, tag)]
                (forall|i: int| 0 <= i < list@.len() ==> (#[trigger] list@[i]).0@ != tag)
                    ==> sp_lookup_locale(final(self).locales@, tag) == sp_lookup_locale(
                    old(self).locales@,
                    tag,
                ),
    {
        let ghost olds = *self;
        let ghost olist = list@;
        let mut changed = false;
        let mut i: usize = 0;
        let n = list.len();
        while i < n
            invariant
                0 <= i <= n,
                n == list@.len(),
                list@ == olist,
                self.style == olds.style,
                self.merged == olds.merged,
                self.refs@ == olds.refs@,
                self.cites@ == olds.cites@,
                self.clusters@ == olds.clusters@,
                self.format == olds.format,
                self.save_updates == olds.save_updates,
                self.revision == olds.revision,
                self.cache@ == olds.cache@,
                self.queue@ == olds.queue@,
                olds.wf(),
                !changed ==> *self == olds,
                changed ==> exists|k: int|
                    0 <= k < i && !(match sp_lookup_locale(
                        olds.locales@,
                        (#[trigger] olist[k]).0@,
                    ) {
                        Some(l) => sp_eqv_locale(l, olist[k].1),
                        None => false,
                    }),
                forall|k: int|
                    0 <= k < i && (forall|m: int|
                        k < m < i ==> (#[trigger] olist[m]).0@ != olist[k].0@)
                        ==> match sp_lookup_locale(self.locales@, (#[trigger] olist[k]).0@) {
                        Some(l) => sp_eqv_locale(l, olist[k].1),
                        None => false,
                    },
                forall|tag: Seq<char>|
                    #![trigger sp_lookup_locale(self.locales@, tag)]
                    (forall|k: int| 0 <= k < i ==> (#[trigger] olist[k]).0@ != tag)
                        ==> sp_lookup_locale(self.locales@, tag) == sp_lookup_locale(
                        olds.locales@,
                        tag,
                    ),
            decreases n - i,
        {
            let pair = (list[i].0.duplicate(), list[i].1.duplicate());
            proof {
                assert(pair.0@ == olist[i as int].0@);
                assert(forall|l: Locale|
                    sp_eqv_locale(l, pair.1) == sp_eqv_locale(l, olist[i as int].1));
            }
            let ghost before = self.locales@;
            let c = upsert_locale(&mut self.locales, pair);
            changed = changed || c;
            proof {
                assert forall|k: int|
                    0 <= k < i + 1 && (forall|m: int|
                        k < m < i + 1 ==> (#[trigger] olist[m]).0@ != olist[k].0@)
                    implies match sp_lookup_locale(self.locales@, (#[trigger] olist[k]).0@) {
                    Some(l) => sp_eqv_locale(l, olist[k].1),
                    None => false,
                } by {
                    if k == i {
                    } else {
                        assert(olist[i as int].0@ != olist[k].0@);
                        assert(sp_lookup_locale(self.locales@, olist[k].0@) == sp_lookup_locale(
                            before,
                            olist[k].0@,
                        ));
                    }
                }
                assert forall|tag: Seq<char>|
                    #![trigger sp_lookup_locale(self.locales@, tag)]
                    (forall|k: int| 0 <= k < i + 1 ==> (#[trigger] olist[k]).0@ != tag)
                    implies sp_lookup_locale(self.locales@, tag) == sp_lookup_locale(
                    olds.locales@,
                    tag,
                ) by {
                    assert(olist[i as int].0@ != tag);
                    assert(sp_lookup_locale(self.locales@, tag) == sp_lookup_locale(before, tag));
                    assert(sp_lookup_locale(before, tag) == sp_lookup_locale(olds.locales@, tag));
                }
            }
            i = i + 1;
        }
        if changed {
            self.revision = self.revision + 1;
            self.merged = merged_of(&self.locales, &self.style.default_locale);
        }
    }

    /// Replaces the whole record set.  A set equal to the stored one, by
    /// view, leaves the processor untouched.
    pub fn set_references(&mut self, refs: Vec<Reference>)
        requires
            old(self).wf(),
            old(self).revision < 18446744073709551615u64,
            refs@.len() < 4294967295,
        ensures
            final(self).wf(),
            final(self).style == old(self).style,
            final(self).merged == old(self).merged,
            final(self).locales@ == old(self).locales@,
            final(self).cites@ == old(self).cites@,
            final(self).clusters@ == old(self).clusters@,
            final(self).format == old(self).format,
            final(self).save_updates == old(self).save_updates,
            final(self).queue@ == old(self).queue@,
            final(self).cache@ == old(self).cache@,
            (old(self).refs@.len() == refs@.len() && (forall|i: int|
                0 <= i < refs@.len() ==> sp_eqv_reference(
                    #[trigger] old(self).refs@[i],
                    refs@[i],
                ))) ==> *final(self) == *old(self),
            !(old(self).refs@.len() == refs@.len() && (forall|i: int|
                0 <= i < refs@.len() ==> sp_eqv_reference(
                    #[trigger] old(self).refs@[i],
                    refs@[i],
                ))) ==> final(self).refs@ == refs@ && final(self).revision == old(self).revision
                + 1,
    {
        if refs_all_eqv(&self.refs, &refs) {
            return ;
        }
        self.refs = refs;
        self.revision = self.revision + 1;
    }

    /// Inserts or replaces one record, keyed by its id.  A record equal to
    /// the stored one, by view, leaves the processor untouched.
    pub fn insert_reference(&mut self, r: Reference)
        requires
            old(self).wf(),
            old(self).revision < 18446744073709551615u64,
            old(self).refs@.len() + 1 < 4294967295,
        ensures
            final(self).wf(),
            final(self).style == old(self).style,
            final(self).merged == old(self).merged,
            final(self).locales@ == old(self).locales@,
            final(self).cites@ == old(self).cites@,
            final(self).clusters@ == old(self).clusters@,
            final(self).format == old(self).format,
            final(self).save_updates == old(self).save_updates,
            final(self).queue@ == old(self).queue@,
            final(self).cache@ == old(self).cache@,
            match sp_ref_index(old(self).refs@, r.id@) {
                Some(j) => (sp_eqv_reference(old(self).refs@[j], r) ==> *final(self)
                    == *old(self)) && (!sp_eqv_reference(old(self).refs@[j], r)
                    ==> final(self).refs@ == old(self).refs@.update(j, r)
                        && final(self).revision == old(self).revision + 1),
                None => final(self).refs@ == old(self).refs@.push(r) && final(self).revision
                    == old(self).revision + 1,
            },
    {
        let n = self.refs.len();
        let mut i: usize = 0;
        proof {
            assert(self.refs@.skip(0) =~= self.refs@);
        }
        while i < n
            invariant
                0 <= i <= n,
                n == self.refs@.len(),
                *self == *old(self),
                old(self).wf(),
                old(self).revision < 18446744073709551615u64,
                old(self).refs@.len() + 1 < 4294967295,
                sp_ref_index(self.refs@, r.id@) == (match sp_ref_index(
                    self.refs@.skip(i as int),
                    r.id@,
                ) {
                    Some(k) => Some(k + i),
                    None => None::<int>,
                }),
                forall|j: int| 0 <= j < i ==> (#[trigger] self.refs@[j]).id@ != r.id@,
            decreases n - i,
        {
            proof {
                assert(self.refs@.skip(i as int).first() == self.refs@[i as int]);
                assert(self.refs@.skip(i as int).drop_first() =~= self.refs@.skip(i + 1));
            }
            if str_eq(self.refs[i].id.as_str(), r.id.as_str()) {
                if eq_reference(&self.refs[i], &r) {
                    return ;
                }
                self.refs.set(i, r);
                self.revision = self.revision + 1;
                return ;
            }
            i = i + 1;
        }
        proof {
            assert(self.refs@.skip(n as int) =~= Seq::<Reference>::empty());
        }
        self.refs.push(r);
        self.revision = self.revision + 1;
    }

    /// Removes a cluster from the document; an absent id changes nothing.
    pub fn remove_cluster(&mut self, id: u32)
        requires
            old(self).wf(),
            old(self).revision < 18446744073709551615u64,
        ensures
            final(self).wf(),
            final(self).style == old(self).style,
            final(self).merged == old(self).merged,
            final(self).locales@ == old(self).locales@,
            final(self).refs@ == old(self).refs@,
            final(self).cites@ == old(self).cites@,
            final(self).format == old(self).format,
            final(self).save_updates == old(self).save_updates,
            final(self).queue@ == old(self).queue@,
            final(self).cache@ == old(self).cache@,
            match sp_find_cluster(old(self).clusters@, id) {
                Some(ci) => final(self).clusters@ == old(self).clusters@.remove(ci)
                    && final(self).revision == old(self).revision + 1,
                None => *final(self) == *old(self),
            },
    {
        proof {
            assert(self.clusters@.skip(0) =~= self.clusters@);
        }
        match find_cluster_from(&self.clusters, 0, id) {
            Some(ci) => {
                self.clusters.remove(ci);
                self.revision = self.revision + 1;
            },
            None => {},
        }
    }

    /// The stored cite with the given id.
    pub fn get_cite(&self, id: u32) -> (r: Option<Cite>)
        ensures
            match r {
                Some(c) => sp_find_cite(self.cites@, id) == Some(c),
                None => sp_find_cite(self.cites@, id) is None,
            },
    {
        proof {
            assert(self.cites@.skip(0) =~= self.cites@);
        }
        match find_cite_from(&self.cites, 0, id) {
            Some(c) => Some(c.duplicate()),
            None => None,
        }
    }

    /// The stored record with the given id.
    pub fn get_reference<'a>(&'a self, id: &str) -> (r: Option<&'a Reference>)
        ensures
            match r {
                Some(v) => sp_find_ref(self.refs@, id@) == Some(*v),
                None => sp_find_ref(self.refs@, id@) is None,
            },
    {
        proof {
            assert(self.refs@.skip(0) =~= self.refs@);
        }
        find_ref_from(&self.refs, 0, id)
    }

    /// The stored style.
    pub fn get_style<'a>(&'a self) -> (r: &'a Style)
        ensures
            *r == self.style,
    {
        &self.style
    }

    /// Whether a locale is stored under the tag.
    pub fn has_cached_locale(&self, lang: &Lang) -> (r: bool)
        ensures
            r == (sp_lookup_locale(self.locales@, lang@) is Some),
    {
        proof {
            assert(self.locales@.skip(0) =~= self.locales@);
        }
        lookup_locale_from(&self.locales, 0, lang.0.as_str()).is_some()
    }

    /// The rendered output of a cluster; an absent id has none.
    pub fn get_cluster(&self, id: u32) -> (r: Option<String>)
        requires
            self.wf(),
        ensures
            match r {
                Some(t) => {
                    &&& sp_find_cluster(self.clusters@, id) is Some
                    &&& t@ == self.sp_built_cluster(sp_find_cluster(self.clusters@, id)->Some_0)
                },
                None => sp_find_cluster(self.clusters@, id) is None,
            },
    {
        proof {
            assert(self.clusters@.skip(0) =~= self.clusters@);
        }
        match find_cluster_from(&self.clusters, 0, id) {
            Some(ci) => Some(self.build_cluster(ci)),
            None => None,
        }
    }

    /// The merged locale of a tag, from the stored locales.
    pub fn merged_locale(&self, lang: &Lang) -> (r: Locale)
        ensures
            ({
                let g = sp_gather(self.locales@, spec_lang_chain(lang@));
                &&& r.terms@ == concat_terms(g)
                &&& r.lang == first_lang(g)
                &&& r.options_node.punctuation_in_quote == first_punctuation(g)
                &&& r.options_node.limit_day_ordinals_to_day_1 == first_limit_day_ordinals(g)
            }),
    {
        merged_of(&self.locales, lang)
    }

    /// The merged locale of the style's default tag.
    pub fn default_locale(&self) -> (r: Locale)
        ensures
            ({
                let g = sp_gather(
                    self.locales@,
                    spec_lang_chain(self.style.default_locale@),
                );
                &&& r.terms@ == concat_terms(g)
                &&& r.lang == first_lang(g)
                &&& r.options_node.punctuation_in_quote == first_punctuation(g)
                &&& r.options_node.limit_day_ordinals_to_day_1 == first_limit_day_ordinals(g)
            }),
    {
        merged_of(&self.locales, &self.style.default_locale)
    }

    /// Whether the entry for a cluster id is fresh at this revision.
    pub open spec fn entry_fresh(&self, id: u32) -> bool {
        match sp_find_entry(self.cache@, id) {
            Some(e) => e.rev == self.revision,
            None => false,
        }
    }

    /// Whether every cluster has a fresh cached output.
    pub open spec fn cache_complete(&self) -> bool {
        forall|ci: int|
            0 <= ci < self.clusters@.len() ==> self.entry_fresh(
                (#[trigger] self.clusters@[ci]).id,
            )
    }

    /// Whether recomputing the cluster would change its published output:
    /// it has no entry, or a stale entry with different text.  Only the
    /// first cluster under an id counts.
    pub open spec fn sp_cluster_changed(&self, ci: int) -> bool {
        &&& sp_find_cluster(self.clusters@, self.clusters@[ci].id) == Some(ci)
        &&& match sp_find_entry(self.cache@, self.clusters@[ci].id) {
            None => true,
            Some(e) => e.rev != self.revision && e.text@ != self.sp_built_cluster(ci),
        }
    }

    /// The change notices a full round of computation would append, for
    /// the first `ci` clusters.
    pub open spec fn sp_changed_prefix(&self, ci: int) -> Seq<DocUpdate>
        decreases ci,
    {
        if ci <= 0 {
            Seq::empty()
        } else {
            self.sp_changed_prefix(ci - 1) + if self.sp_cluster_changed(ci - 1) {
                seq![DocUpdate::Cluster(self.clusters@[ci - 1].id)]
            } else {
                Seq::empty()
            }
        }
    }

    /// The fully concrete options of a tag's merged locale.
    pub fn locale_options(&self, lang: &Lang) -> (r: LocaleOptions)
        ensures
            ({
                let g = sp_gather(self.locales@, spec_lang_chain(lang@));
                &&& r.punctuation_in_quote == (first_punctuation(g) == Some(true))
                &&& r.limit_day_ordinals_to_day_1 == (first_limit_day_ordinals(g) == Some(
                    true,
                ))
            }),
    {
        let m = self.merged_locale(lang);
        LocaleOptions::from_merged(&m.options_node)
    }
}

/// Law: a cluster's output is a function of the style, merged locale,
/// records, cites, clusters and output format alone.  Two processors that
/// agree on those inputs render every cluster byte-identically, whatever
/// their caches, queues or revision counters hold.
pub proof fn lemma_built_cluster_deterministic(a: &Processor, b: &Processor, ci: int)
    requires
        a.style == b.style,
        a.merged == b.merged,
        a.refs@ == b.refs@,
        a.cites@ == b.cites@,
        a.clusters@ == b.clusters@,
        a.format == b.format,
    ensures
        a.sp_built_cluster(ci) == b.sp_built_cluster(ci),
{
}

/// Law: the output reads the merged locale only through its term
/// dictionary.  Two processors that agree on the style, records, cites,
/// clusters and format, and whose merged locales carry the same terms,
/// render every cluster byte-identically — so a processor rebuilt from the
/// same inputs, whose recomputed merged locale is another value with the
/// same view, publishes the same bytes.
pub proof fn lemma_built_cluster_view_deterministic(a: &Processor, b: &Processor, ci: int)
    requires
        a.style == b.style,
        crate::locale::terms_map_of(a.merged.terms@) == crate::locale::terms_map_of(
            b.merged.terms@,
        ),
        a.refs@ == b.refs@,
        a.cites@ == b.cites@,
        a.clusters@ == b.clusters@,
        a.format == b.format,
    ensures
        a.sp_built_cluster(ci) == b.sp_built_cluster(ci),
{
    lemma_join_cites_view(a, b, ci, 0);
}

proof fn lemma_join_cites_view(a: &Processor, b: &Processor, ci: int, j: int)
    requires
        a.style == b.style,
        crate::locale::terms_map_of(a.merged.terms@) == crate::locale::terms_map_of(
            b.merged.terms@,
        ),
        a.refs@ == b.refs@,
        a.cites@ == b.cites@,
        a.clusters@ == b.clusters@,
        a.format == b.format,
    ensures
        a.sp_join_cites(ci, j) == b.sp_join_cites(ci, j),
    decreases a.clusters@[ci].cite_ids@.len() - j,
{
    if !(j < 0 || j >= a.clusters@[ci].cite_ids@.len()) {
        lemma_cite_text_view(a, b, ci, j);
        lemma_join_cites_view(a, b, ci, j + 1);
    }
}

proof fn lemma_cite_text_view(a: &Processor, b: &Processor, ci: int, j: int)
    requires
        a.style == b.style,
        crate::locale::terms_map_of(a.merged.terms@) == crate::locale::terms_map_of(
            b.merged.terms@,
        ),
        a.refs@ == b.refs@,
        a.cites@ == b.cites@,
        a.clusters@ == b.clusters@,
        a.format == b.format,
    ensures
        a.sp_cite_text(ci, j) == b.sp_cite_text(ci, j),
{
    let id = a.clusters@[ci].cite_ids@[j];
    match sp_find_cite(a.cites@, id) {
        None => {},
        Some(c) => match sp_find_ref(a.refs@, c.ref_id@) {
            None => {},
            Some(r) => {
                let pl = sp_doc_pairs(a.refs@, a.cites@, a.clusters@);
                let active = (a.style.citation.disambiguate_add_names
                    || a.style.citation.disambiguate_add_givenname) && sp_doc_small(pl);
                let g = sp_cites_before(a.clusters@, ci) + j;
                let counts = sp_shown_counts(a.style.citation.disambiguate_add_names, pl);
                let amb = active && crate::disamb::sp_gn_collides(pl, counts, g);
                let ctx1 = EvalCtx {
                    style: &a.style,
                    locale: &a.merged,
                    reference: &r,
                    cite: &c,
                    position: sp_position(a.clusters@, a.cites@, ci, j),
                    format: a.format,
                    disamb: amb,
                    year_suffix: sp_suffix_for(
                        a.style.citation.disambiguate_add_year_suffix,
                        a.refs@,
                        c.ref_id@,
                    ),
                    name_boost: if active && a.style.citation.disambiguate_add_names {
                        Some(counts[g])
                    } else {
                        None
                    },
                    expand_given: amb && a.style.citation.disambiguate_add_givenname,
                };
                let ctx2 = EvalCtx { locale: &b.merged, ..ctx1 };
                assert(crate::eval::sp_ctx_same_view(ctx1, ctx2));
                crate::eval::lemma_eval_cite_same_view(ctx1, ctx2, EVAL_FUEL as nat);
            },
        },
    }
}

/// Law: the published output is a function of the stored inputs alone.
/// Two well-formed processors holding the same style, stored locales,
/// records, cites and clusters — however many mutations led each there —
/// render every cluster byte-identically: each one's merged locale
/// satisfies the same pinned view, so the view law above applies.
pub proof fn lemma_same_inputs_same_output(a: &Processor, b: &Processor, ci: int)
    requires
        a.wf(),
        b.wf(),
        a.style == b.style,
        a.locales@ == b.locales@,
        a.refs@ == b.refs@,
        a.cites@ == b.cites@,
        a.clusters@ == b.clusters@,
        a.format == b.format,
    ensures
        a.sp_built_cluster(ci) == b.sp_built_cluster(ci),
{
    assert(a.merged.terms@ == b.merged.terms@);
    lemma_built_cluster_view_deterministic(a, b, ci);
}

/// Law: when every cluster already has a fresh cached output, a round of
/// computation changes nothing and reports nothing.
pub proof fn lemma_complete_means_no_changes(p: &Processor, ci: int)
    requires
        p.cache_complete(),
        0 <= ci <= p.clusters@.len(),
    ensures
        p.sp_changed_prefix(ci) == Seq::<DocUpdate>::empty(),
    decreases ci,
{
    if ci > 0 {
        lemma_complete_means_no_changes(p, ci - 1);
        assert(p.entry_fresh(p.clusters@[ci - 1].id));
        assert(!p.sp_cluster_changed(ci - 1));
        assert(p.sp_changed_prefix(ci) =~= Seq::<DocUpdate>::empty());
    }
}

proof fn lemma_find_cluster_props(clusters: Seq<ClusterInput>, id: u32)
    ensures
        match sp_find_cluster(clusters, id) {
            Some(k) => 0 <= k < clusters.len() && clusters[k].id == id && (forall|j: int|
                0 <= j < k ==> (#[trigger] clusters[j]).id != id),
            None => forall|j: int| 0 <= j < clusters.len() ==> (#[trigger] clusters[j]).id != id,
        },
    decreases clusters.len(),
{
    if clusters.len() > 0 {
        assert(forall|j: int|
            0 <= j < clusters.drop_first().len() ==> #[trigger] clusters.drop_first()[j]
                == clusters[j + 1]);
        lemma_find_cluster_props(clusters.drop_first(), id);
        if clusters.first().id != id {
            match sp_find_cluster(clusters.drop_first(), id) {
                Some(k) => {
                    assert(clusters[k + 1].id == id);
                    assert forall|j: int| 0 <= j < k + 1 implies (#[trigger] clusters[j]).id
                        != id by {
                        if j >= 1 {
                            assert(clusters[j] == clusters.drop_first()[j - 1]);
                        }
                    }
                },
                None => {
                    assert forall|j: int|
                        0 <= j < clusters.len() implies (#[trigger] clusters[j]).id != id by {
                        if j >= 1 {
                            assert(clusters[j] == clusters.drop_first()[j - 1]);
                        }
                    }
                },
            }
        }
    }
}

fn find_entry_from<'a>(cache: &'a Vec<ClusterCache>, i: usize, id: u32) -> (r: Option<
    &'a ClusterCache,
>)
    requires
        i <= cache@.len(),
    ensures
        match r {
            Some(e) => sp_find_entry(cache@.skip(i as int), id) == Some(*e),
            None => sp_find_entry(cache@.skip(i as int), id) is None,
        },
    decreases cache@.len() - i,
{
    if i == cache.len() {
        proof {
            assert(cache@.skip(i as int) =~= Seq::<ClusterCache>::empty());
        }
        return None;
    }
    proof {
        assert(cache@.skip(i as int).first() == cache@[i as int]);
        assert(cache@.skip(i as int).drop_first() =~= cache@.skip(i + 1));
    }
    if cache[i].id == id {
        Some(&cache[i])
    } else {
        find_entry_from(cache, i + 1, id)
    }
}

impl Processor {
    /// Brings every cluster's cached output up to date.  Clusters whose
    /// published output this changes are queued as change notices, when
    /// the processor was asked to save updates.  A processor whose cache
    /// is already complete is left untouched.
    pub fn compute(&mut self)
        requires
            old(self).wf(),
        ensures
            final(self).wf(),
            final(self).style == old(self).style,
            final(self).merged == old(self).merged,
            final(self).locales@ == old(self).locales@,
            final(self).refs@ == old(self).refs@,
            final(self).cites@ == old(self).cites@,
            final(self).clusters@ == old(self).clusters@,
            final(self).format == old(self).format,
            final(self).save_updates == old(self).save_updates,
            final(self).revision == old(self).revision,
            final(self).cache_complete(),
            old(self).cache_complete() ==> *final(self) == *old(self),
            !old(self).save_updates ==> final(self).queue@ == old(self).queue@,
            old(self).save_updates && old(self).distinct_cluster_ids() ==> final(self).queue@
                == old(self).queue@ + old(self).sp_changed_prefix(
                old(self).clusters@.len() as int,
            ),
    {
        let ghost olds = *old(self);
        let n = self.clusters.len();
        let mut ci: usize = 0;
        while ci < n
            invariant
                0 <= ci <= n,
                n == self.clusters@.len(),
                olds.wf(),
                self.style == olds.style,
                self.merged == olds.merged,
                self.locales@ == olds.locales@,
                self.refs@ == olds.refs@,
                self.cites@ == olds.cites@,
                self.clusters@ == olds.clusters@,
                self.format == olds.format,
                self.save_updates == olds.save_updates,
                self.revision == olds.revision,
                self.wf(),
                forall|k: int| 0 <= k < ci ==> self.entry_fresh((#[trigger] self.clusters@[k]).id),
                olds.cache_complete() ==> *self == olds,
                !olds.save_updates ==> self.queue@ == olds.queue@,
                olds.save_updates && olds.distinct_cluster_ids() ==> self.queue@ == olds.queue@
                    + olds.sp_changed_prefix(ci as int),
                olds.distinct_cluster_ids() ==> (forall|k: int|
                    ci <= k < n ==> sp_find_entry(
                        self.cache@,
                        (#[trigger] self.clusters@[k]).id,
                    ) == sp_find_entry(olds.cache@, self.clusters@[k].id)),
            decreases n - ci,
        {
            let id = self.clusters[ci].id;
            proof {
                assert(self.clusters@.skip(0) =~= self.clusters@);
                assert(self.cache@.skip(0) =~= self.cache@);
            }
            let is_first = match find_cluster_from(&self.clusters, 0, id) {
                Some(k) => k == ci,
                None => false,
            };
            if is_first {
                let mut fresh = false;
                match find_entry_from(&self.cache, 0, id) {
                    Some(e) => {
                        if e.rev == self.revision {
                            fresh = true;
                        }
                    },
                    None => {},
                }
                if !fresh {
                    let text = self.build_cluster(ci);
                    let changed = match find_entry_from(&self.cache, 0, id) {
                        Some(e) => !string_eq(&e.text, &text),
                        None => true,
                    };
                    if changed && self.save_updates {
                        self.queue.push(DocUpdate::Cluster(id));
                    }
                    let rev = self.revision;
                    let ghost pre = *self;
                    upsert_entry(&mut self.cache, ClusterCache { id, text, rev });
                    proof {
                        lemma_find_cluster_props(self.clusters@, id);
                        assert forall|k: int|
                            0 <= k < self.cache@.len() && (#[trigger] self.cache@[k]).rev
                                == self.revision implies match sp_find_cluster(
                            self.clusters@,
                            self.cache@[k].id,
                        ) {
                            Some(cj) => self.cache@[k].text@ == self.sp_built_cluster(cj),
                            None => true,
                        } by {
                            if self.cache@[k].id == id && self.cache@[k].text@ == text@
                                && self.cache@[k].rev == rev {
                            } else {
                                assert(pre.cache@.contains(self.cache@[k]));
                                let kk = choose|kk: int|
                                    0 <= kk < pre.cache@.len() && pre.cache@[kk] == self.cache@[
                                        k];
                                assert(pre.cache_ok());
                            }
                        }
                        assert(self.cache_ok());
                        assert forall|k: int|
                            0 <= k < self.cache@.len() implies (#[trigger] self.cache@[k]).rev
                            <= self.revision by {
                            if self.cache@[k].rev == rev {
                            } else {
                                assert(pre.cache@.contains(self.cache@[k]));
                                let kk = choose|kk: int|
                                    0 <= kk < pre.cache@.len() && pre.cache@[kk] == self.cache@[
                                        k];
                            }
                        }
                    }
                }
            }
            proof {
                lemma_find_cluster_props(self.clusters@, id);
                assert forall|k: int| 0 <= k < ci + 1 implies self.entry_fresh(
                    (#[trigger] self.clusters@[k]).id,
                ) by {
                    assert(0 <= k);
                }
            }
            proof {
                assert(olds.sp_changed_prefix(ci + 1) == olds.sp_changed_prefix(ci as int)
                    + if olds.sp_cluster_changed(ci as int) {
                    seq![DocUpdate::Cluster(olds.clusters@[ci as int].id)]
                } else {
                    Seq::<DocUpdate>::empty()
                });
                if !olds.sp_cluster_changed(ci as int) {
                    assert(olds.sp_changed_prefix(ci + 1) =~= olds.sp_changed_prefix(ci as int));
                }
            }
            ci = ci + 1;
        }
    }

    /// Computes, then hands back the queued change notices as a summary,
    /// draining the queue.  A processor not saving updates reports nothing
    /// and stays untouched.  A processor whose outputs are all fresh and
    /// whose queue was drained — as after writes that only restated the
    /// stored inputs — reports an empty summary.
    pub fn batched_updates(&mut self) -> (r: UpdateSummary)
        requires
            old(self).wf(),
        ensures
            final(self).wf(),
            final(self).style == old(self).style,
            final(self).locales@ == old(self).locales@,
            final(self).refs@ == old(self).refs@,
            final(self).cites@ == old(self).cites@,
            final(self).clusters@ == old(self).clusters@,
            final(self).revision == old(self).revision,
            !old(self).save_updates ==> *final(self) == *old(self) && r.clusters@
                == Seq::<u32>::empty(),
            old(self).save_updates ==> final(self).queue@ == Seq::<DocUpdate>::empty()
                && final(self).cache_complete(),
            old(self).cache_complete() && old(self).queue@ == Seq::<DocUpdate>::empty()
                ==> r.clusters@ == Seq::<u32>::empty(),
            old(self).save_updates && old(self).distinct_cluster_ids() ==> r.clusters@.len() == (
            old(self).queue@ + old(self).sp_changed_prefix(old(self).clusters@.len() as int)).len()
                && (forall|k: int|
                0 <= k < r.clusters@.len() ==> DocUpdate::Cluster(#[trigger] r.clusters@[k]) == (
                old(self).queue@ + old(self).sp_changed_prefix(
                    old(self).clusters@.len() as int,
                ))[k]),
    {
        if !self.save_updates {
            return UpdateSummary { clusters: Vec::new() };
        }
        self.compute();
        let mut ids: Vec<u32> = Vec::new();
        let qn = self.queue.len();
        let mut i: usize = 0;
        while i < qn
            invariant
                0 <= i <= qn,
                qn == self.queue@.len(),
                ids@.len() == i,
                forall|k: int|
                    0 <= k < i ==> DocUpdate::Cluster(#[trigger] ids@[k]) == self.queue@[k],
            decreases qn - i,
        {
            let DocUpdate::Cluster(id) = self.queue[i];
            ids.push(id);
            i = i + 1;
        }
        proof {
            if ids@.len() == 0 {
                assert(ids@ =~= Seq::<u32>::empty());
            }
        }
        self.queue = Vec::new();
        UpdateSummary { clusters: ids }
    }

    /// Stores the cites of an input cluster and returns their ids.
    fn absorb_cites(&mut self, cluster: &InputCluster) -> (ids: Vec<u32>)
        ensures
            ids@ == cluster.cites@.map_values(|c: Cite| c.id),
            forall|id: u32|
                #![trigger sp_find_cite(final(self).cites@, id)]
                sp_find_cite(final(self).cites@, id) == (match sp_last_cite(
                    cluster.cites@,
                    id,
                ) {
                    Some(c) => Some(c),
                    None => sp_find_cite(old(self).cites@, id),
                }),
            forall|j: int|
                0 <= j < cluster.cites@.len() ==> sp_find_cite(
                    final(self).cites@,
                    (#[trigger] cluster.cites@[j]).id,
                ) is Some,
            final(self).style == old(self).style,
            final(self).merged == old(self).merged,
            final(self).locales@ == old(self).locales@,
            final(self).refs@ == old(self).refs@,
            final(self).clusters@ == old(self).clusters@,
            final(self).format == old(self).format,
            final(self).save_updates == old(self).save_updates,
            final(self).revision == old(self).revision,
            final(self).cache@ == old(self).cache@,
            final(self).queue@ == old(self).queue@,
    {
        let n = cluster.cites.len();
        let mut ids: Vec<u32> = Vec::new();
        let mut j: usize = 0;
        proof {
            assert(cluster.cites@.subrange(0, 0) =~= Seq::<Cite>::empty());
        }
        while j < n
            invariant
                0 <= j <= n,
                n == cluster.cites@.len(),
                ids@ == cluster.cites@.subrange(0, j as int).map_values(|c: Cite| c.id),
                forall|id: u32|
                    #![trigger sp_find_cite(self.cites@, id)]
                    sp_find_cite(self.cites@, id) == (match sp_last_cite(
                        cluster.cites@.subrange(0, j as int),
                        id,
                    ) {
                        Some(c) => Some(c),
                        None => sp_find_cite(old(self).cites@, id),
                    }),
                forall|k: int|
                    0 <= k < j ==> sp_find_cite(
                        self.cites@,
                        (#[trigger] cluster.cites@[k]).id,
                    ) is Some,
                self.style == old(self).style,
                self.merged == old(self).merged,
                self.locales@ == old(self).locales@,
                self.refs@ == old(self).refs@,
                self.clusters@ == old(self).clusters@,
                self.format == old(self).format,
                self.save_updates == old(self).save_updates,
                self.revision == old(self).revision,
                self.cache@ == old(self).cache@,
                self.queue@ == old(self).queue@,
            decreases n - j,
        {
            let c = cluster.cites[j].duplicate();
            ids.push(c.id);
            let ghost mid = self.cites@;
            upsert_cite(&mut self.cites, c);
            proof {
                assert(ids@ =~= cluster.cites@.subrange(0, j + 1).map_values(
                    |c: Cite| c.id,
                ));
                let sub1 = cluster.cites@.subrange(0, j + 1);
                assert(sub1.drop_last() =~= cluster.cites@.subrange(0, j as int));
                assert(sub1.last() == cluster.cites@[j as int]);
                assert forall|id: u32|
                    #![trigger sp_find_cite(self.cites@, id)]
                    sp_find_cite(self.cites@, id) == (match sp_last_cite(sub1, id) {
                    Some(cc) => Some(cc),
                    None => sp_find_cite(old(self).cites@, id),
                }) by {
                    if id == c.id {
                        assert(sp_last_cite(sub1, id) == Some(cluster.cites@[j as int]));
                        assert(sp_find_cite(self.cites@, id) == Some(c));
                    } else {
                        assert(sp_last_cite(sub1, id) == sp_last_cite(sub1.drop_last(), id));
                        assert(sp_find_cite(self.cites@, id) == sp_find_cite(mid, id));
                    }
                }
            }
            j = j + 1;
        }
        proof {
            assert(cluster.cites@.subrange(0, n as int) =~= cluster.cites@);
        }
        ids
    }

    /// Loads the whole document: the clusters in order, their cites stored
    /// by id.
    pub fn init_clusters(&mut self, input: Vec<InputCluster>)
        requires
            old(self).wf(),
            old(self).revision < 18446744073709551615u64,
        ensures
            final(self).wf(),
            final(self).style == old(self).style,
            final(self).merged == old(self).merged,
            final(self).locales@ == old(self).locales@,
            final(self).refs@ == old(self).refs@,
            final(self).format == old(self).format,
            final(self).save_updates == old(self).save_updates,
            final(self).revision == old(self).revision + 1,
            final(self).queue@ == old(self).queue@,
            final(self).cache@ == old(self).cache@,
            forall|id: u32|
                #![trigger sp_find_cite(final(self).cites@, id)]
                sp_find_cite(final(self).cites@, id) == (match sp_last_cite(
                    sp_all_cites(input@),
                    id,
                ) {
                    Some(c) => Some(c),
                    None => sp_find_cite(old(self).cites@, id),
                }),
            final(self).clusters@.len() == input@.len(),
            forall|i: int|
                0 <= i < input@.len() ==> (#[trigger] final(self).clusters@[i]).id == input@[i].id
                    && final(self).clusters@[i].note_number == input@[i].note_number && final(self).clusters@[i].cite_ids@ == input@[i].cites@.map_values(|c: Cite| c.id),
    {
        let n = input.len();
        let mut rows: Vec<ClusterInput> = Vec::new();
        let mut i: usize = 0;
        proof {
            assert(input@.subrange(0, 0) =~= Seq::<InputCluster>::empty());
        }
        while i < n
            invariant
                0 <= i <= n,
                n == input@.len(),
                forall|id: u32|
                    #![trigger sp_find_cite(self.cites@, id)]
                    sp_find_cite(self.cites@, id) == (match sp_last_cite(
                        sp_all_cites(input@.subrange(0, i as int)),
                        id,
                    ) {
                        Some(c) => Some(c),
                        None => sp_find_cite(old(self).cites@, id),
                    }),
                rows@.len() == i,
                forall|k: int|
                    0 <= k < i ==> (#[trigger] rows@[k]).id == input@[k].id && rows@[
                        k].note_number == input@[k].note_number && rows@[k].cite_ids@ == input@[
                        k].cites@.map_values(|c: Cite| c.id),
                self.style == old(self).style,
                self.merged == old(self).merged,
                self.locales@ == old(self).locales@,
                self.refs@ == old(self).refs@,
                self.clusters@ == old(self).clusters@,
                self.format == old(self).format,
                self.save_updates == old(self).save_updates,
                self.revision == old(self).revision,
                self.cache@ == old(self).cache@,
                self.queue@ == old(self).queue@,
                old(self).wf(),
                old(self).revision < 18446744073709551615u64,
            decreases n - i,
        {
            let ghost mid = self.cites@;
            let ids = self.absorb_cites(&input[i]);
            rows.push(ClusterInput { id: input[i].id, cite_ids: ids, note_number: input[i].note_number });
            proof {
                let sub1 = input@.subrange(0, i + 1);
                assert(sub1.drop_last() =~= input@.subrange(0, i as int));
                assert(sub1.last() == input@[i as int]);
                assert(sp_all_cites(sub1) == sp_all_cites(input@.subrange(0, i as int))
                    + input@[i as int].cites@);
                assert forall|id: u32|
                    #![trigger sp_find_cite(self.cites@, id)]
                    sp_find_cite(self.cites@, id) == (match sp_last_cite(
                    sp_all_cites(sub1),
                    id,
                ) {
                    Some(c) => Some(c),
                    None => sp_find_cite(old(self).cites@, id),
                }) by {
                    lemma_last_cite_concat(
                        sp_all_cites(input@.subrange(0, i as int)),
                        input@[i as int].cites@,
                        id,
                    );
                    assert(sp_find_cite(mid, id) == (match sp_last_cite(
                        sp_all_cites(input@.subrange(0, i as int)),
                        id,
                    ) {
                        Some(c) => Some(c),
                        None => sp_find_cite(old(self).cites@, id),
                    }));
                }
            }
            i = i + 1;
        }
        proof {
            assert(input@.subrange(0, n as int) =~= input@);
        }
        self.clusters = rows;
        self.revision = self.revision + 1;
    }

    /// Replaces one cluster's content, or appends the cluster when its id
    /// is new.
    pub fn replace_cluster(&mut self, cluster: InputCluster)
        requires
            old(self).wf(),
            old(self).revision < 18446744073709551615u64,
        ensures
            final(self).wf(),
            final(self).style == old(self).style,
            final(self).merged == old(self).merged,
            final(self).locales@ == old(self).locales@,
            final(self).refs@ == old(self).refs@,
            final(self).format == old(self).format,
            final(self).save_updates == old(self).save_updates,
            final(self).revision == old(self).revision + 1,
            final(self).queue@ == old(self).queue@,
            final(self).cache@ == old(self).cache@,
            forall|id: u32|
                #![trigger sp_find_cite(final(self).cites@, id)]
                sp_find_cite(final(self).cites@, id) == (match sp_last_cite(
                    cluster.cites@,
                    id,
                ) {
                    Some(c) => Some(c),
                    None => sp_find_cite(old(self).cites@, id),
                }),
            match sp_find_cluster(old(self).clusters@, cluster.id) {
                Some(ci) => final(self).clusters@.len() == old(self).clusters@.len() && (forall|
                    k: int,
                |
                    0 <= k < old(self).clusters@.len() && k != ci ==> final(self).clusters@[k]
                        == old(self).clusters@[k]) && final(self).clusters@[ci].id == cluster.id
                    && final(self).clusters@[ci].note_number == cluster.note_number && final(self).clusters@[ci].cite_ids@ == cluster.cites@.map_values(|c: Cite| c.id),
                None => final(self).clusters@.len() == old(self).clusters@.len() + 1 && (forall|
                    k: int,
                |
                    0 <= k < old(self).clusters@.len() ==> final(self).clusters@[k] == old(self).clusters@[k]) && final(self).clusters@.last().id == cluster.id && final(self).clusters@.last().note_number == cluster.note_number && final(self).clusters@.last().cite_ids@ == cluster.cites@.map_values(|c: Cite| c.id),
            },
    {
        let ids = self.absorb_cites(&cluster);
        proof {
            assert(self.clusters@.skip(0) =~= self.clusters@);
        }
        let row = ClusterInput { id: cluster.id, cite_ids: ids, note_number: cluster.note_number };
        match find_cluster_from(&self.clusters, 0, cluster.id) {
            Some(ci) => {
                self.clusters.set(ci, row);
            },
            None => {
                self.clusters.push(row);
            },
        }
        self.revision = self.revision + 1;
    }

    /// Inserts a cluster before the named one, or at the end when none is
    /// named.  An id already present has its content replaced in place.
    /// Naming an absent cluster leaves the document order untouched: the
    /// cluster is not registered, though its cites are stored.
    pub fn insert_cluster(&mut self, cluster: InputCluster, before: Option<u32>)
        requires
            old(self).wf(),
            old(self).revision < 18446744073709551615u64,
        ensures
            final(self).wf(),
            final(self).style == old(self).style,
            final(self).merged == old(self).merged,
            final(self).locales@ == old(self).locales@,
            final(self).refs@ == old(self).refs@,
            final(self).format == old(self).format,
            final(self).save_updates == old(self).save_updates,
            final(self).queue@ == old(self).queue@,
            final(self).cache@ == old(self).cache@,
            final(self).revision == old(self).revision + 1,
            forall|id: u32|
                #![trigger sp_find_cite(final(self).cites@, id)]
                sp_find_cite(final(self).cites@, id) == (match sp_last_cite(
                    cluster.cites@,
                    id,
                ) {
                    Some(c) => Some(c),
                    None => sp_find_cite(old(self).cites@, id),
                }),
            ({
                let row_ids = cluster.cites@.map_values(|c: Cite| c.id);
                match sp_find_cluster(old(self).clusters@, cluster.id) {
                    Some(ci) => final(self).clusters@.len() == old(self).clusters@.len()
                        && (forall|k: int|
                        0 <= k < old(self).clusters@.len() && k != ci ==> final(self).clusters@[k]
                            == old(self).clusters@[k]) && final(self).clusters@[ci].id
                        == cluster.id && final(self).clusters@[ci].note_number
                        == cluster.note_number && final(self).clusters@[ci].cite_ids@ == row_ids,
                    None => match before {
                        None => final(self).clusters@.len() == old(self).clusters@.len() + 1
                            && (forall|k: int|
                            0 <= k < old(self).clusters@.len() ==> final(self).clusters@[k] == old(
                            self).clusters@[k]) && final(self).clusters@.last().id == cluster.id
                            && final(self).clusters@.last().note_number == cluster.note_number
                            && final(self).clusters@.last().cite_ids@ == row_ids,
                        Some(b) => match sp_find_cluster(old(self).clusters@, b) {
                            Some(pos) => final(self).clusters@.len() == old(self).clusters@.len()
                                + 1 && (forall|k: int|
                                0 <= k < pos ==> final(self).clusters@[k] == old(self).clusters@[k])
                                && (forall|k: int|
                                pos <= k < old(self).clusters@.len() ==> final(self).clusters@[k
                                    + 1] == old(self).clusters@[k]) && final(self).clusters@[
                                pos].id == cluster.id && final(self).clusters@[pos].note_number
                                == cluster.note_number && final(self).clusters@[pos].cite_ids@
                                == row_ids,
                            None => final(self).clusters@ == old(self).clusters@,
                        },
                    },
                }
            }),
    {
        let ids = self.absorb_cites(&cluster);
        let row = ClusterInput { id: cluster.id, cite_ids: ids, note_number: cluster.note_number };
        proof {
            assert(self.clusters@.skip(0) =~= self.clusters@);
        }
        match find_cluster_from(&self.clusters, 0, cluster.id) {
            Some(ci) => {
                self.clusters.set(ci, row);
            },
            None => {
                match before {
                    Some(b) => {
                        match find_cluster_from(&self.clusters, 0, b) {
                            Some(k) => {
                                let ghost oldcl = self.clusters@;
                                self.clusters.insert(k, row);
                                proof {
                                    assert(self.clusters@ == oldcl.insert(k as int, row));
                                    assert(self.clusters@.len() == oldcl.len() + 1);
                                    assert(forall|m: int|
                                        0 <= m < k ==> self.clusters@[m] == #[trigger] oldcl[m]);
                                    assert(self.clusters@[k as int] == row);
                                    assert(forall|m: int|
                                        k <= m < oldcl.len() ==> self.clusters@[m + 1]
                                            == #[trigger] oldcl[m]);
                                }
                            },
                            None => {},
                        }
                    },
                    None => {
                        self.clusters.push(row);
                    },
                }
            },
        }
        self.revision = self.revision + 1;
    }

    /// Renumbers clusters from id-and-note pairs, laid flat.  A trailing
    /// odd element is ignored.
    pub fn renumber_clusters(&mut self, mappings: &Vec<u32>)
        requires
            old(self).wf(),
            old(self).revision < 18446744073709551615u64,
        ensures
            final(self).wf(),
            final(self).style == old(self).style,
            final(self).merged == old(self).merged,
            final(self).locales@ == old(self).locales@,
            final(self).refs@ == old(self).refs@,
            final(self).cites@ == old(self).cites@,
            final(self).format == old(self).format,
            final(self).save_updates == old(self).save_updates,
            final(self).cache@ == old(self).cache@,
            final(self).queue@ == old(self).queue@,
            final(self).revision == old(self).revision || final(self).revision == old(
                self,
            ).revision + 1,
            final(self).clusters@.len() == old(self).clusters@.len(),
            forall|k: int|
                0 <= k < old(self).clusters@.len() ==> (#[trigger] final(self).clusters@[k]).id
                    == old(self).clusters@[k].id && final(self).clusters@[k].cite_ids@ == old(self).clusters@[k].cite_ids@,
            forall|k: int|
                0 <= k < old(self).clusters@.len() ==> (#[trigger] final(self).clusters@[
                k]).note_number == sp_renote(
                    old(self).clusters@,
                    mappings@,
                    mappings@.len() as int / 2,
                    k,
                ),
    {
        let total = mappings.len() / 2;
        let mut p: usize = 0;
        let mut any = false;
        while p < total
            invariant
                0 <= p <= total,
                total == mappings@.len() / 2,
                mappings@.len() <= usize::MAX,
                self.style == old(self).style,
                self.merged == old(self).merged,
                self.locales@ == old(self).locales@,
                self.refs@ == old(self).refs@,
                self.cites@ == old(self).cites@,
                self.format == old(self).format,
                self.save_updates == old(self).save_updates,
                self.cache@ == old(self).cache@,
                self.queue@ == old(self).queue@,
                self.revision == old(self).revision,
                self.clusters@.len() == old(self).clusters@.len(),
                forall|k: int|
                    0 <= k < old(self).clusters@.len() ==> (#[trigger] self.clusters@[k]).id
                        == old(self).clusters@[k].id && self.clusters@[k].cite_ids@ == old(self).clusters@[k].cite_ids@,
                forall|k: int|
                    0 <= k < old(self).clusters@.len() ==> (#[trigger] self.clusters@[
                    k]).note_number == sp_renote(
                        old(self).clusters@,
                        mappings@,
                        p as int,
                        k,
                    ),
                old(self).wf(),
                old(self).revision < 18446744073709551615u64,
                !any ==> self.clusters@ == old(self).clusters@,
            decreases total - p,
        {
            proof {
                assert(2 * total <= mappings@.len());
                assert(2 * p as int + 1 < mappings@.len());
            }
            let id = mappings[2 * p];
            let nn = mappings[2 * p + 1];
            proof {
                assert(self.clusters@.skip(0) =~= self.clusters@);
                lemma_find_cluster_same_ids(self.clusters@, old(self).clusters@, id);
            }
            let ghost oldcl = self.clusters@;
            match find_cluster_from(&self.clusters, 0, id) {
                Some(k) => {
                    if self.clusters[k].note_number != nn {
                        let row = ClusterInput {
                            id: self.clusters[k].id,
                            cite_ids: self.clusters[k].cite_ids.clone(),
                            note_number: nn,
                        };
                        proof {
                            let v = self.clusters@[k as int].cite_ids;
                            assert(row.cite_ids@ =~= v@);
                        }
                        self.clusters.set(k, row);
                        any = true;
                    }
                    proof {
                        assert(sp_find_cluster(old(self).clusters@, id) == Some(k as int));
                        assert(self.clusters@[k as int].note_number == nn);
                        assert(forall|m: int|
                            0 <= m < oldcl.len() && m != k as int ==> self.clusters@[m]
                                == #[trigger] oldcl[m]);
                    }
                },
                None => {
                    proof {
                        assert(sp_find_cluster(old(self).clusters@, id) is None);
                    }
                },
            }
            proof {
                assert forall|kk: int|
                    0 <= kk < old(self).clusters@.len() implies (#[trigger] self.clusters@[
                    kk]).note_number == sp_renote(
                    old(self).clusters@,
                    mappings@,
                    p as int + 1,
                    kk,
                ) by {
                    assert(2 * (p + 1) - 2 == 2 * p as int);
                    assert(mappings@[2 * p as int] == id);
                    assert(mappings@[2 * p as int + 1] == nn);
                    if sp_find_cluster(old(self).clusters@, id) == Some(kk) {
                        assert(self.clusters@[kk].note_number == nn);
                    } else {
                        assert(self.clusters@[kk] == oldcl[kk]);
                        assert(oldcl[kk].note_number == sp_renote(
                            old(self).clusters@,
                            mappings@,
                            p as int,
                            kk,
                        ));
                        assert(sp_renote(old(self).clusters@, mappings@, p as int + 1, kk) == sp_renote(
                            old(self).clusters@,
                            mappings@,
                            p as int,
                            kk,
                        ));
                    }
                }
            }
            p = p + 1;
        }
        if any {
            self.revision = self.revision + 1;
        }
    }

    /// Whether some stored record declares the language tag.
    pub open spec fn is_ref_lang(&self, v: Seq<char>) -> bool {
        exists|x: int|
            0 <= x < self.refs@.len() && match (#[trigger] self.refs@[x]).language {
                Some(l) => l@ == v,
                None => false,
            }
    }

    /// The language tags the document draws on, each once: the style's
    /// default, then each stored record's language in store order, the
    /// bundled root tag left out of both.
    pub fn get_langs_in_use(&self) -> (r: Vec<Lang>)
        ensures
            forall|a: int, b: int|
                0 <= a < b < r@.len() ==> (#[trigger] r@[a])@ != (#[trigger] r@[b])@,
            forall|k: int| 0 <= k < r@.len() ==> (#[trigger] r@[k])@ != "en-US"@,
            forall|k: int|
                0 <= k < r@.len() ==> (#[trigger] r@[k])@ == self.style.default_locale@
                    || self.is_ref_lang(r@[k]@),
            self.style.default_locale@ != "en-US"@ ==> exists|k: int|
                0 <= k < r@.len() && (#[trigger] r@[k])@ == self.style.default_locale@,
            forall|x: int|
                0 <= x < self.refs@.len() ==> match (#[trigger] self.refs@[x]).language {
                    Some(l) => l@ == "en-US"@ || exists|k: int|
                        0 <= k < r@.len() && (#[trigger] r@[k])@ == l@,
                    None => true,
                },
    {
        let mut r: Vec<Lang> = Vec::new();
        if !crate::strutil::str_eq(self.style.default_locale.0.as_str(), "en-US") {
            r.push(self.style.default_locale.duplicate());
            proof {
                assert(r@[0]@ == self.style.default_locale@);
            }
        }
        let n = self.refs.len();
        let mut i: usize = 0;
        while i < n
            invariant
                0 <= i <= n,
                n == self.refs@.len(),
                forall|a: int, b: int|
                    0 <= a < b < r@.len() ==> (#[trigger] r@[a])@ != (#[trigger] r@[b])@,
                forall|k: int| 0 <= k < r@.len() ==> (#[trigger] r@[k])@ != "en-US"@,
                forall|k: int|
                    0 <= k < r@.len() ==> (#[trigger] r@[k])@ == self.style.default_locale@
                        || self.is_ref_lang(r@[k]@),
                self.style.default_locale@ != "en-US"@ ==> exists|k: int|
                    0 <= k < r@.len() && (#[trigger] r@[k])@ == self.style.default_locale@,
                forall|x: int|
                    0 <= x < i ==> match (#[trigger] self.refs@[x]).language {
                        Some(l) => l@ == "en-US"@ || exists|k: int|
                            0 <= k < r@.len() && (#[trigger] r@[k])@ == l@,
                        None => true,
                    },
            decreases n - i,
        {
            match &self.refs[i].language {
                Some(l) => {
                    let ghost rold = r@;
                    if !crate::strutil::str_eq(l.0.as_str(), "en-US") && !lang_listed(
                        &r,
                        l.0.as_str(),
                    ) {
                        r.push(l.duplicate());
                        proof {
                            assert(self.is_ref_lang(l@)) by {
                                assert(0 <= i < self.refs@.len() && match self.refs@[
                                    i as int].language {
                                    Some(x) => x@ == l@,
                                    None => false,
                                });
                            }
                            assert(forall|k: int|
                                0 <= k < rold.len() ==> r@[k] == #[trigger] rold[k]);
                            assert(r@[r@.len() - 1]@ == l@);
                        }
                    }
                },
                None => {},
            }
            i = i + 1;
        }
        r
    }

    /// The name options citations evaluate under: the root defaults, the
    /// style tree carrying its own overrides on each names element.
    pub fn name_citation(&self) -> (r: crate::style::Name)
        ensures
            r.and@ == Seq::<char>::empty(),
            r.delimiter.0@ == ", "@,
            r.delimiter_precedes_et_al == crate::style::DelimiterPrecedes::Contextual,
            r.delimiter_precedes_last == crate::style::DelimiterPrecedes::Contextual,
            r.et_al_min == 0u32,
            r.et_al_use_first == 0u32,
            r.et_al_subsequent_min == 0u32,
            r.et_al_subsequent_use_first == 0u32,
            r.et_al_use_last == false,
            r.form == crate::style::NameForm::Long,
            r.initialize == true,
            r.initialize_with@ == Seq::<char>::empty(),
            r.name_as_sort_order == crate::style::NameAsSortOrder::All,
            r.sort_separator@ == ", "@,
    {
        crate::style::Name::root_default()
    }

    /// Computes and discards the queued change notices.
    pub fn drain(&mut self)
        requires
            old(self).wf(),
        ensures
            final(self).wf(),
            final(self).cache_complete(),
            final(self).queue@ == Seq::<DocUpdate>::empty(),
            final(self).style == old(self).style,
            final(self).locales@ == old(self).locales@,
            final(self).refs@ == old(self).refs@,
            final(self).cites@ == old(self).cites@,
            final(self).clusters@ == old(self).clusters@,
            final(self).revision == old(self).revision,
    {
        self.compute();
        self.queue = Vec::new();
    }
}

} // verus!
