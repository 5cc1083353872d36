//! The evaluator: renders style elements against one cite's context.
//!
//! Every executable function mirrors a specification function exactly; the
//! recursion over the element tree runs on a fuel budget, and nesting
//! deeper than the budget renders nothing.

use vstd::prelude::*;
use crate::cite::{spec_ctx_has_variable, spec_ctx_is_numeric, spec_get_number, Cite};
use crate::locale::{terms_map_of, Locale};
use crate::names::{spec_name_family, spec_name_given, Name};
use crate::numeric::{
    int_to_string, roman_to_string, ordinal_suffix, spec_int_chars, spec_ordinal_suffix,
    spec_roman_chars, spec_uint_chars, uint_to_string, NumericModel,
};
use crate::output::{apply_affixes, sp_affix, sp_wrap, OutputFormat};
use crate::reference::Reference;
use crate::style::{
    AnyVariable, Condition, DateVariable, Element, IfThen, MacroMap, Match, NameForm,
    NameVariable, NumberVariable, NumericForm, Position, Style, Variable,
};

verus! {

/// The recursion budget of one evaluation.
pub const EVAL_FUEL: u64 = 4096;

/// Everything the evaluator reads about one cite.
#[derive(Clone, Copy)]
pub struct EvalCtx<'a> {
    pub style: &'a Style,
    pub locale: &'a Locale,
    pub reference: &'a Reference,
    pub cite: &'a Cite,
    pub position: Position,
    pub format: OutputFormat,
    pub disamb: bool,
    pub year_suffix: Option<u32>,
    pub name_boost: Option<u32>,
    pub expand_given: bool,
}

// ---------------------------------------------------------------------------
// Conditions
// ---------------------------------------------------------------------------

/// Whether a position test matches a derived position: a subsequent test
/// accepts every non-first position, and an ibid test accepts ibid with a
/// locator.
pub open spec fn sp_position_matches(test: Position, actual: Position) -> bool {
    test == actual || (test == Position::Subsequent && (actual == Position::Ibid || actual
        == Position::IbidWithLocator || actual == Position::NearNote)) || (test == Position::Ibid
        && actual == Position::IbidWithLocator)
}

/// Whether any predicate of the condition holds.
pub open spec fn sp_cond_any(ctx: EvalCtx, c: Condition) -> bool {
    ||| exists|i: int|
        0 <= i < c.variable@.len() && spec_ctx_has_variable(
            ctx.reference,
            ctx.cite,
            #[trigger] c.variable@[i],
        )
    ||| exists|i: int|
        0 <= i < c.is_numeric@.len() && spec_ctx_is_numeric(
            ctx.reference,
            ctx.cite,
            AnyVariable::Number(#[trigger] c.is_numeric@[i]),
        )
    ||| exists|i: int|
        0 <= i < c.position@.len() && sp_position_matches(
            #[trigger] c.position@[i],
            ctx.position,
        )
    ||| exists|i: int| 0 <= i < c.csl_type@.len() && #[trigger] c.csl_type@[i]
        == ctx.reference.csl_type
    ||| exists|i: int| 0 <= i < c.locator@.len() && ctx.cite.locator_type == Some(
        #[trigger] c.locator@[i],
    )
    ||| exists|i: int|
        0 <= i < c.is_uncertain_date@.len() && ctx.reference.date_map().contains_key(
            #[trigger] c.is_uncertain_date@[i],
        ) && ctx.reference.date_map()[c.is_uncertain_date@[i]].uncertain
    ||| (c.disambiguate && ctx.disamb)
}

/// Whether every predicate of the condition holds.
pub open spec fn sp_cond_all(ctx: EvalCtx, c: Condition) -> bool {
    &&& forall|i: int|
        0 <= i < c.variable@.len() ==> spec_ctx_has_variable(
            ctx.reference,
            ctx.cite,
            #[trigger] c.variable@[i],
        )
    &&& forall|i: int|
        0 <= i < c.is_numeric@.len() ==> spec_ctx_is_numeric(
            ctx.reference,
            ctx.cite,
            AnyVariable::Number(#[trigger] c.is_numeric@[i]),
        )
    &&& forall|i: int|
        0 <= i < c.position@.len() ==> sp_position_matches(
            #[trigger] c.position@[i],
            ctx.position,
        )
    &&& forall|i: int|
        0 <= i < c.csl_type@.len() ==> #[trigger] c.csl_type@[i] == ctx.reference.csl_type
    &&& forall|i: int|
        0 <= i < c.locator@.len() ==> ctx.cite.locator_type == Some(#[trigger] c.locator@[i])
    &&& forall|i: int|
        0 <= i < c.is_uncertain_date@.len() ==> ctx.reference.date_map().contains_key(
            #[trigger] c.is_uncertain_date@[i],
        ) && ctx.reference.date_map()[c.is_uncertain_date@[i]].uncertain
    &&& (c.disambiguate ==> ctx.disamb)
}

/// Whether the condition holds under its match operator.
pub open spec fn sp_cond(ctx: EvalCtx, c: Condition) -> bool {
    match c.match_type {
        Match::Any => sp_cond_any(ctx, c),
        Match::All => sp_cond_all(ctx, c),
        Match::NoneOf => !sp_cond_any(ctx, c),
    }
}

fn exec_position_matches(test: Position, actual: Position) -> (r: bool)
    ensures
        r == sp_position_matches(test, actual),
{
    test == actual || (test == Position::Subsequent && (actual == Position::Ibid || actual
        == Position::IbidWithLocator || actual == Position::NearNote)) || (test == Position::Ibid
        && actual == Position::IbidWithLocator)
}

impl<'a> EvalCtx<'a> {
    /// Evaluates the condition of an if branch.
    pub fn condition_holds(&self, c: &Condition) -> (r: bool)
        ensures
            r == sp_cond(*self, *c),
    {
        let ctx = crate::cite::CiteContext {
            style: self.style,
            reference: self.reference,
            cite: self.cite,
            format: self.format,
            position: self.position,
            citation_number: 0,
        };
        let mut any = false;
        let mut all = true;
        let mut i: usize = 0;
        let n = c.variable.len();
        while i < n
            invariant
                0 <= i <= n,
                n == c.variable@.len(),
                ctx.reference == self.reference,
                ctx.cite == self.cite,
                any == exists|j: int|
                    0 <= j < i && spec_ctx_has_variable(
                        self.reference,
                        self.cite,
                        #[trigger] c.variable@[j],
                    ),
                all == forall|j: int|
                    0 <= j < i ==> spec_ctx_has_variable(
                        self.reference,
                        self.cite,
                        #[trigger] c.variable@[j],
                    ),
            decreases n - i,
        {
            let h = ctx.has_variable(&c.variable[i]);
            any = any || h;
            all = all && h;
            i = i + 1;
        }
        let mut i: usize = 0;
        let n = c.is_numeric.len();
        while i < n
            invariant
                0 <= i <= n,
                n == c.is_numeric@.len(),
                ctx.reference == self.reference,
                ctx.cite == self.cite,
                any == ((exists|j: int|
                    0 <= j < c.variable@.len() && spec_ctx_has_variable(
                        self.reference,
                        self.cite,
                        #[trigger] c.variable@[j],
                    )) || (exists|j: int|
                    0 <= j < i && spec_ctx_is_numeric(
                        self.reference,
                        self.cite,
                        AnyVariable::Number(#[trigger] c.is_numeric@[j]),
                    ))),
                all == ((forall|j: int|
                    0 <= j < c.variable@.len() ==> spec_ctx_has_variable(
                        self.reference,
                        self.cite,
                        #[trigger] c.variable@[j],
                    )) && (forall|j: int|
                    0 <= j < i ==> spec_ctx_is_numeric(
                        self.reference,
                        self.cite,
                        AnyVariable::Number(#[trigger] c.is_numeric@[j]),
                    ))),
            decreases n - i,
        {
            let h = ctx.is_numeric(&AnyVariable::Number(c.is_numeric[i]));
            any = any || h;
            all = all && h;
            i = i + 1;
        }
        let mut i: usize = 0;
        let n = c.position.len();
        while i < n
            invariant
                0 <= i <= n,
                n == c.position@.len(),
                any == (sp_cond_any_upto2(*self, *c) || (exists|j: int|
                    0 <= j < i && sp_position_matches(#[trigger] c.position@[j], self.position))),
                all == (sp_cond_all_upto2(*self, *c) && (forall|j: int|
                    0 <= j < i ==> sp_position_matches(#[trigger] c.position@[j], self.position))),
            decreases n - i,
        {
            let h = exec_position_matches(c.position[i], self.position);
            any = any || h;
            all = all && h;
            i = i + 1;
        }
        let mut i: usize = 0;
        let n = c.csl_type.len();
        while i < n
            invariant
                0 <= i <= n,
                n == c.csl_type@.len(),
                any == (sp_cond_any_upto3(*self, *c) || (exists|j: int|
                    0 <= j < i && #[trigger] c.csl_type@[j] == self.reference.csl_type)),
                all == (sp_cond_all_upto3(*self, *c) && (forall|j: int|
                    0 <= j < i ==> #[trigger] c.csl_type@[j] == self.reference.csl_type)),
            decreases n - i,
        {
            let h = c.csl_type[i] == self.reference.csl_type;
            any = any || h;
            all = all && h;
            i = i + 1;
        }
        let mut i: usize = 0;
        let n = c.locator.len();
        while i < n
            invariant
                0 <= i <= n,
                n == c.locator@.len(),
                any == (sp_cond_any_upto4(*self, *c) || (exists|j: int|
                    0 <= j < i && self.cite.locator_type == Some(#[trigger] c.locator@[j]))),
                all == (sp_cond_all_upto4(*self, *c) && (forall|j: int|
                    0 <= j < i ==> self.cite.locator_type == Some(#[trigger] c.locator@[j]))),
            decreases n - i,
        {
            let h = match self.cite.locator_type {
                Some(lt) => lt == c.locator[i],
                None => false,
            };
            any = any || h;
            all = all && h;
            i = i + 1;
        }
        let mut i: usize = 0;
        let n = c.is_uncertain_date.len();
        while i < n
            invariant
                0 <= i <= n,
                n == c.is_uncertain_date@.len(),
                any == (sp_cond_any_upto5(*self, *c) || (exists|j: int|
                    0 <= j < i && self.reference.date_map().contains_key(
                        #[trigger] c.is_uncertain_date@[j],
                    ) && self.reference.date_map()[c.is_uncertain_date@[j]].uncertain)),
                all == (sp_cond_all_upto5(*self, *c) && (forall|j: int|
                    0 <= j < i ==> self.reference.date_map().contains_key(
                        #[trigger] c.is_uncertain_date@[j],
                    ) && self.reference.date_map()[c.is_uncertain_date@[j]].uncertain)),
            decreases n - i,
        {
            let h = match self.reference.date_get(c.is_uncertain_date[i]) {
                Some(d) => d.uncertain,
                None => false,
            };
            any = any || h;
            all = all && h;
            i = i + 1;
        }
        if c.disambiguate {
            any = any || self.disamb;
            all = all && self.disamb;
        }
        proof {
            assert(any == sp_cond_any(*self, *c));
            assert(all == sp_cond_all(*self, *c));
        }
        match c.match_type {
            Match::Any => any,
            Match::All => all,
            Match::NoneOf => !any,
        }
    }
}

/// The any-operator over the first two predicate families.
pub open spec fn sp_cond_any_upto2(ctx: EvalCtx, c: Condition) -> bool {
    ||| exists|i: int|
        0 <= i < c.variable@.len() && spec_ctx_has_variable(
            ctx.reference,
            ctx.cite,
            #[trigger] c.variable@[i],
        )
    ||| exists|i: int|
        0 <= i < c.is_numeric@.len() && spec_ctx_is_numeric(
            ctx.reference,
            ctx.cite,
            AnyVariable::Number(#[trigger] c.is_numeric@[i]),
        )
}

/// The all-operator over the first two predicate families.
pub open spec fn sp_cond_all_upto2(ctx: EvalCtx, c: Condition) -> bool {
    &&& forall|i: int|
        0 <= i < c.variable@.len() ==> spec_ctx_has_variable(
            ctx.reference,
            ctx.cite,
            #[trigger] c.variable@[i],
        )
    &&& forall|i: int|
        0 <= i < c.is_numeric@.len() ==> spec_ctx_is_numeric(
            ctx.reference,
            ctx.cite,
            AnyVariable::Number(#[trigger] c.is_numeric@[i]),
        )
}

/// The any-operator over the first three predicate families.
pub open spec fn sp_cond_any_upto3(ctx: EvalCtx, c: Condition) -> bool {
    ||| sp_cond_any_upto2(ctx, c)
    ||| exists|i: int|
        0 <= i < c.position@.len() && sp_position_matches(#[trigger] c.position@[i], ctx.position)
}

/// The all-operator over the first three predicate families.
pub open spec fn sp_cond_all_upto3(ctx: EvalCtx, c: Condition) -> bool {
    &&& sp_cond_all_upto2(ctx, c)
    &&& forall|i: int|
        0 <= i < c.position@.len() ==> sp_position_matches(#[trigger] c.position@[i], ctx.position)
}

/// The any-operator over the first four predicate families.
pub open spec fn sp_cond_any_upto4(ctx: EvalCtx, c: Condition) -> bool {
    ||| sp_cond_any_upto3(ctx, c)
    ||| exists|i: int| 0 <= i < c.csl_type@.len() && #[trigger] c.csl_type@[i]
        == ctx.reference.csl_type
}

/// The all-operator over the first four predicate families.
pub open spec fn sp_cond_all_upto4(ctx: EvalCtx, c: Condition) -> bool {
    &&& sp_cond_all_upto3(ctx, c)
    &&& forall|i: int|
        0 <= i < c.csl_type@.len() ==> #[trigger] c.csl_type@[i] == ctx.reference.csl_type
}

/// The any-operator over the first five predicate families.
pub open spec fn sp_cond_any_upto5(ctx: EvalCtx, c: Condition) -> bool {
    ||| sp_cond_any_upto4(ctx, c)
    ||| exists|i: int| 0 <= i < c.locator@.len() && ctx.cite.locator_type == Some(
        #[trigger] c.locator@[i],
    )
}

/// The all-operator over the first five predicate families.
pub open spec fn sp_cond_all_upto5(ctx: EvalCtx, c: Condition) -> bool {
    &&& sp_cond_all_upto4(ctx, c)
    &&& forall|i: int|
        0 <= i < c.locator@.len() ==> ctx.cite.locator_type == Some(#[trigger] c.locator@[i])
}

// ---------------------------------------------------------------------------
// Small rendering helpers
// ---------------------------------------------------------------------------

/// Typographic quotes around nonempty text, when asked for.
pub open spec fn sp_quote(q: bool, t: Seq<char>) -> Seq<char> {
    if q && t.len() > 0 {
        seq!['"'] + t + seq!['"']
    } else {
        t
    }
}

fn exec_quote(q: bool, t: String) -> (r: String)
    ensures
        r@ == sp_quote(q, t@),
{
    proof {
        reveal_strlit("\"");
    }
    if q && !t.as_str().is_empty() {
        let r = String::from_str("\"").concat(t.as_str()).concat("\"");
        proof {
            assert(r@ =~= sp_quote(q, t@));
        }
        r
    } else {
        t
    }
}

/// The first macro of the style with the given name.
pub open spec fn sp_find_macro(macros: Seq<MacroMap>, name: Seq<char>) -> Option<Seq<Element>>
    decreases macros.len(),
{
    if macros.len() == 0 {
        None
    } else if macros.first().name@ == name {
        Some(macros.first().elements@)
    } else {
        sp_find_macro(macros.drop_first(), name)
    }
}

/// A term looked up by key, or nothing.
pub open spec fn sp_term_or_empty(loc: &Locale, key: Seq<char>) -> Seq<char> {
    if terms_map_of(loc.terms@).contains_key(key) {
        terms_map_of(loc.terms@)[key]
    } else {
        Seq::empty()
    }
}

/// The term key a label element looks up.
pub open spec fn sp_label_key(lv: crate::style::LabelVariable) -> Seq<char> {
    crate::style::spec_label_name(lv)
}

/// Whether the variable a label speaks of is present in this context.
pub open spec fn sp_label_present(r: &Reference, c: &Cite, lv: crate::style::LabelVariable) -> bool {
    match lv {
        crate::style::LabelVariable::Locator => c.locator is Some,
        crate::style::LabelVariable::Page => r.number_map().contains_key(NumberVariable::Page),
        crate::style::LabelVariable::Number(nv) => spec_ctx_has_variable(
            r,
            c,
            AnyVariable::Number(nv),
        ),
    }
}

/// How a classified number renders under a numeric form.  A range keeps
/// its two ends about an en dash; affixed and literal values render as
/// their own text whatever the form.
pub open spec fn sp_render_numeric(m: NumericModel, form: NumericForm) -> Seq<char> {
    match m {
        NumericModel::Num(n) => match form {
            NumericForm::Numeric => spec_int_chars(n),
            NumericForm::Roman => if n > 0 {
                spec_roman_chars(n)
            } else {
                spec_int_chars(n)
            },
            NumericForm::Ordinal => spec_int_chars(n) + spec_ordinal_suffix(
                if n >= 0 {
                    n
                } else {
                    -n
                },
            ),
            NumericForm::LongOrdinal => spec_int_chars(n) + spec_ordinal_suffix(
                if n >= 0 {
                    n
                } else {
                    -n
                },
            ),
        },
        NumericModel::Rng(a, b) => spec_int_chars(a) + seq!['\u{2013}'] + spec_int_chars(b),
        NumericModel::Affix(s) => s,
        NumericModel::Lit(s) => s,
    }
}

/// The letter a year-suffix index renders as: `a`, `b`, and so on, the
/// alphabet repeating past its end.
pub open spec fn sp_suffix_letter(k: int) -> Seq<char> {
    seq![((97 + (k % 26)) as u8) as char]
}

fn exec_suffix_letter(k: u32) -> (r: String)
    ensures
        r@ == sp_suffix_letter(k as int),
{
    proof {
        reveal_strlit("a");
        reveal_strlit("b");
        reveal_strlit("c");
        reveal_strlit("d");
        reveal_strlit("e");
        reveal_strlit("f");
        reveal_strlit("g");
        reveal_strlit("h");
        reveal_strlit("i");
        reveal_strlit("j");
        reveal_strlit("k");
        reveal_strlit("l");
        reveal_strlit("m");
        reveal_strlit("n");
        reveal_strlit("o");
        reveal_strlit("p");
        reveal_strlit("q");
        reveal_strlit("r");
        reveal_strlit("s");
        reveal_strlit("t");
        reveal_strlit("u");
        reveal_strlit("v");
        reveal_strlit("w");
        reveal_strlit("x");
        reveal_strlit("y");
        reveal_strlit("z");
    }
    let d = k % 26;
    let s: &'static str = match d {
        0 => "a",
        1 => "b",
        2 => "c",
        3 => "d",
        4 => "e",
        5 => "f",
        6 => "g",
        7 => "h",
        8 => "i",
        9 => "j",
        10 => "k",
        11 => "l",
        12 => "m",
        13 => "n",
        14 => "o",
        15 => "p",
        16 => "q",
        17 => "r",
        18 => "s",
        19 => "t",
        20 => "u",
        21 => "v",
        22 => "w",
        23 => "x",
        24 => "y",
        _ => "z",
    };
    let r = s.to_owned();
    proof {
        assert(r@ =~= sp_suffix_letter(k as int));
    }
    r
}

// ---------------------------------------------------------------------------
// Name rendering
// ---------------------------------------------------------------------------

/// How one name renders: the family alone in short form, else the given
/// name, a space, and the family.
pub open spec fn sp_render_name(n: Name, form: NameForm) -> Seq<char> {
    match form {
        NameForm::Short => spec_name_family(n),
        _ => if spec_name_given(n).len() > 0 {
            spec_name_given(n) + seq![' '] + spec_name_family(n)
        } else {
            spec_name_family(n)
        },
    }
}

/// The first `k` names joined with the delimiter.
pub open spec fn sp_joined_names(names: Seq<Name>, k: int, form: NameForm, delim: Seq<char>) -> Seq<
    char,
>
    decreases k,
{
    if k <= 0 {
        Seq::empty()
    } else if k == 1 {
        sp_render_name(names[0], form)
    } else {
        sp_joined_names(names, k - 1, form, delim) + delim + sp_render_name(names[k - 1], form)
    }
}

/// The et-al marker: the locale's term when it has one, a plain default
/// otherwise.
pub open spec fn sp_etal(loc: &Locale) -> Seq<char> {
    if terms_map_of(loc.terms@).contains_key("et-al"@) {
        terms_map_of(loc.terms@)["et-al"@]
    } else {
        "et al."@
    }
}

/// How many names are written out: all of them below the et-al threshold,
/// the configured first few at or above it.
pub open spec fn sp_shown(len: int, et_al_min: int, use_first: int) -> int {
    if et_al_min > 0 && len >= et_al_min {
        if use_first < len {
            use_first
        } else {
            len
        }
    } else {
        len
    }
}

/// The shown count after disambiguation: an add-names pass may raise the
/// et-al count, never lower it, and never past the list's length.
pub open spec fn sp_shown_boosted(len: int, et_al_min: int, use_first: int, boost: Option<
    u32,
>) -> int {
    let base = sp_shown(len, et_al_min, use_first);
    match boost {
        None => base,
        Some(b) => if base >= b as int {
            base
        } else if b as int <= len {
            b as int
        } else {
            len
        },
    }
}

/// The name form after disambiguation: an add-givenname pass widens short
/// names to the long form; other forms already show given names.
pub open spec fn sp_form_expanded(form: NameForm, expand_given: bool) -> NameForm {
    if expand_given && form == NameForm::Short {
        NameForm::Long
    } else {
        form
    }
}

/// How a name list renders: the count form counts it; otherwise the shown
/// names joined with the delimiter, the et-al marker following when names
/// were elided.
pub open spec fn sp_name_list(
    names: Seq<Name>,
    delim: Seq<char>,
    et_al_min: int,
    use_first: int,
    form: NameForm,
    etal: Seq<char>,
    boost: Option<u32>,
    expand_given: bool,
) -> Seq<char> {
    if form == NameForm::Count {
        spec_uint_chars(names.len() as int)
    } else {
        let shown = sp_shown_boosted(names.len() as int, et_al_min, use_first, boost);
        let f = sp_form_expanded(form, expand_given);
        let j = sp_joined_names(names, shown, f, delim);
        if shown < names.len() {
            if shown > 0 {
                j + delim + etal
            } else {
                etal
            }
        } else {
            j
        }
    }
}

/// The name options a names block evaluates under: those of its first
/// name element, or the root defaults.
pub open spec fn sp_name_opts(name_els: Seq<crate::style::Name>) -> (Seq<char>, int, int, NameForm) {
    if name_els.len() > 0 {
        (
            name_els.first().delimiter.0@,
            name_els.first().et_al_min as int,
            name_els.first().et_al_use_first as int,
            name_els.first().form,
        )
    } else {
        (", "@, 0, 0, NameForm::Long)
    }
}

/// Whether every listed name variable is empty in this record.
pub open spec fn sp_names_all_empty(r: &Reference, vars: Seq<NameVariable>) -> bool {
    forall|i: int|
        0 <= i < vars.len() ==> #[trigger] vars[i] == NameVariable::Dummy || !r.name_map()
            .contains_key(vars[i]) || r.name_map()[vars[i]].len() == 0
}

/// The rendered list of one name variable; empty for the dummy variable
/// and for variables the record lacks.
pub open spec fn sp_one_var_names(
    r: &Reference,
    loc: &Locale,
    var: NameVariable,
    opts: (Seq<char>, int, int, NameForm),
    boost: Option<u32>,
    expand_given: bool,
) -> Seq<char> {
    if var == NameVariable::Dummy || !r.name_map().contains_key(var) || r.name_map()[var].len()
        == 0 {
        Seq::empty()
    } else {
        sp_name_list(
            r.name_map()[var],
            opts.0,
            opts.1,
            opts.2,
            opts.3,
            sp_etal(loc),
            boost,
            expand_given,
        )
    }
}

/// The body of a names block: each variable's rendered list, the nonempty
/// ones joined with the block's delimiter.
pub open spec fn sp_names_body(
    r: &Reference,
    loc: &Locale,
    vars: Seq<NameVariable>,
    opts: (Seq<char>, int, int, NameForm),
    elem_delim: Seq<char>,
    boost: Option<u32>,
    expand_given: bool,
) -> Seq<char>
    decreases vars.len(),
{
    if vars.len() == 0 {
        Seq::empty()
    } else {
        let t = sp_one_var_names(r, loc, vars.first(), opts, boost, expand_given);
        let rest = sp_names_body(
            r,
            loc,
            vars.drop_first(),
            opts,
            elem_delim,
            boost,
            expand_given,
        );
        if t.len() == 0 {
            rest
        } else if rest.len() == 0 {
            t
        } else {
            t + elem_delim + rest
        }
    }
}

// ---------------------------------------------------------------------------
// The element evaluator
// ---------------------------------------------------------------------------

/// The year part of a rendered date, the year suffix appended when the
/// element renders the issued date of a disambiguated cite.
pub open spec fn sp_date_text(ctx: EvalCtx, d: crate::style::Date, v: crate::reference::DateValue)
    -> Seq<char> {
    let y = spec_int_chars(v.year as int) + (match ctx.year_suffix {
        Some(k) => if d.variable == DateVariable::Issued {
            sp_suffix_letter(k as int)
        } else {
            Seq::empty()
        },
        None => Seq::empty(),
    });
    let with_month = if !(d.date_parts_attr == crate::style::DateParts::Year) && v.month > 0 {
        y + d.delimiter.0@ + spec_uint_chars(v.month as int)
    } else {
        y
    };
    if d.date_parts_attr == crate::style::DateParts::YearMonthDay && v.month > 0 && v.day > 0 {
        with_month + d.delimiter.0@ + spec_uint_chars(v.day as int)
    } else {
        with_month
    }
}

/// What evaluating one element yields: the rendered text, whether the
/// element consumes variables, and whether a consumed variable rendered
/// nonempty.  Past the fuel budget nothing renders.
pub open spec fn sp_eval_element(ctx: EvalCtx, e: Element, fuel: nat) -> (Seq<char>, bool, bool)
    decreases fuel,
{
    if fuel == 0 {
        (Seq::empty(), false, false)
    } else {
        match e {
            Element::Const(s, f, af, q) => if s@.len() == 0 {
                (Seq::empty(), false, false)
            } else {
                (sp_affix(af, sp_quote(q, sp_wrap(ctx.format, f, s@))), false, false)
            },
            Element::Macro(name, f, af, q) => match sp_find_macro(ctx.style.macros@, name@) {
                None => (Seq::empty(), false, false),
                Some(body) => {
                    let (t, c, rv) = sp_eval_list(ctx, body, Seq::empty(), (fuel - 1) as nat);
                    (sp_affix(af, sp_quote(q, sp_wrap(ctx.format, f, t))), c, rv)
                },
            },
            Element::Variable(v, f, af, _form, _delim, q) => {
                if ctx.reference.ordinary_map().contains_key(v) {
                    let t = ctx.reference.ordinary_map()[v];
                    if t.len() == 0 {
                        (Seq::empty(), true, false)
                    } else {
                        (sp_affix(af, sp_quote(q, sp_wrap(ctx.format, f, t))), true, true)
                    }
                } else {
                    (Seq::empty(), true, false)
                }
            },
            Element::Term(name, _form, f, af, _plural) => {
                let t = sp_term_or_empty(ctx.locale, name@);
                if t.len() == 0 {
                    (Seq::empty(), false, false)
                } else {
                    (sp_affix(af, sp_wrap(ctx.format, f, t)), false, false)
                }
            },
            Element::Label(lv, _form, f, af, _plural) => {
                if sp_label_present(ctx.reference, ctx.cite, lv) {
                    let t = sp_term_or_empty(ctx.locale, sp_label_key(lv));
                    if t.len() == 0 {
                        (Seq::empty(), false, false)
                    } else {
                        (sp_affix(af, sp_wrap(ctx.format, f, t)), false, false)
                    }
                } else {
                    (Seq::empty(), false, false)
                }
            },
            Element::Number(nv, nform, f, af, _plural) => {
                match spec_get_number(ctx.reference, ctx.cite, nv) {
                    None => (Seq::empty(), true, false),
                    Some(m) => {
                        let t = sp_render_numeric(m, nform);
                        if t.len() == 0 {
                            (Seq::empty(), true, false)
                        } else {
                            (sp_affix(af, sp_wrap(ctx.format, f, t)), true, true)
                        }
                    },
                }
            },
            Element::Names(vars, name_els, _label, f, delim, subst) => {
                if sp_names_all_empty(ctx.reference, vars@) {
                    match subst {
                        Some(sub) => {
                            let t = sp_first_nonempty(ctx, sub.0@, (fuel - 1) as nat);
                            (t, true, t.len() > 0)
                        },
                        None => (Seq::empty(), true, false),
                    }
                } else {
                    let t = sp_names_body(
                        ctx.reference,
                        ctx.locale,
                        vars@,
                        sp_name_opts(name_els@),
                        delim.0@,
                        ctx.name_boost,
                        ctx.expand_given,
                    );
                    if t.len() == 0 {
                        (Seq::empty(), true, false)
                    } else {
                        (sp_wrap(ctx.format, f, t), true, true)
                    }
                }
            },
            Element::Group(f, delim, children) => {
                let (t, c, rv) = sp_eval_list(ctx, children@, delim.0@, (fuel - 1) as nat);
                if c && !rv {
                    (Seq::empty(), c, rv)
                } else {
                    (sp_wrap(ctx.format, f, t), c, rv)
                }
            },
            Element::Choose(first, elseifs, other) => {
                if sp_cond(ctx, first.0) {
                    sp_eval_list(ctx, first.1@, Seq::empty(), (fuel - 1) as nat)
                } else {
                    sp_eval_branches(ctx, elseifs@, other.0@, (fuel - 1) as nat)
                }
            },
            Element::Date(d) => {
                if ctx.reference.date_map().contains_key(d.variable) {
                    let v = ctx.reference.date_map()[d.variable];
                    let t = sp_date_text(ctx, d, v);
                    if t.len() == 0 {
                        (Seq::empty(), true, false)
                    } else {
                        (sp_affix(d.affixes, sp_wrap(ctx.format, d.formatting, t)), true, true)
                    }
                } else {
                    (Seq::empty(), true, false)
                }
            },
        }
    }
}

/// What evaluating a list of elements yields: the nonempty results joined
/// with the delimiter, the flags combined.
pub open spec fn sp_eval_list(ctx: EvalCtx, els: Seq<Element>, delim: Seq<char>, fuel: nat) -> (
    Seq<char>,
    bool,
    bool,
)
    decreases fuel,
{
    if fuel == 0 || els.len() == 0 {
        (Seq::empty(), false, false)
    } else {
        let (t, c, rv) = sp_eval_element(ctx, els.first(), (fuel - 1) as nat);
        let (rt, rc, rrv) = sp_eval_list(ctx, els.drop_first(), delim, (fuel - 1) as nat);
        let text = if t.len() == 0 {
            rt
        } else if rt.len() == 0 {
            t
        } else {
            t + delim + rt
        };
        (text, c || rc, rv || rrv)
    }
}

/// The first if branch whose condition holds, else the else branch.
pub open spec fn sp_eval_branches(ctx: EvalCtx, ifs: Seq<IfThen>, other: Seq<Element>, fuel: nat)
    -> (Seq<char>, bool, bool)
    decreases fuel,
{
    if fuel == 0 {
        (Seq::empty(), false, false)
    } else if ifs.len() == 0 {
        sp_eval_list(ctx, other, Seq::empty(), (fuel - 1) as nat)
    } else if sp_cond(ctx, ifs.first().0) {
        sp_eval_list(ctx, ifs.first().1@, Seq::empty(), (fuel - 1) as nat)
    } else {
        sp_eval_branches(ctx, ifs.drop_first(), other, (fuel - 1) as nat)
    }
}

/// The text of the first substitute element that renders nonempty.
pub open spec fn sp_first_nonempty(ctx: EvalCtx, els: Seq<Element>, fuel: nat) -> Seq<char>
    decreases fuel,
{
    if fuel == 0 || els.len() == 0 {
        Seq::empty()
    } else {
        let t = sp_eval_element(ctx, els.first(), (fuel - 1) as nat).0;
        if t.len() > 0 {
            t
        } else {
            sp_first_nonempty(ctx, els.drop_first(), (fuel - 1) as nat)
        }
    }
}

// ---------------------------------------------------------------------------
// Executable mirrors
// ---------------------------------------------------------------------------

fn exec_etal(loc: &Locale) -> (r: String)
    ensures
        r@ == sp_etal(loc),
{
    proof {
        reveal_strlit("et-al");
        reveal_strlit("et al.");
    }
    match loc.get_term("et-al") {
        Some(v) => v.clone(),
        None => String::from_str("et al."),
    }
}

fn render_name(n: &Name, form: NameForm) -> (r: String)
    ensures
        r@ == sp_render_name(*n, form),
{
    proof {
        reveal_strlit(" ");
    }
    match form {
        NameForm::Short => n.family_str().to_owned(),
        _ => {
            let g = n.given_str();
            if !g.is_empty() {
                let r = g.to_owned().concat(" ").concat(n.family_str());
                proof {
                    assert(" "@ =~= seq![' ']);
                }
                r
            } else {
                n.family_str().to_owned()
            }
        },
    }
}

fn joined_names(names: &Vec<Name>, k: usize, form: NameForm, delim: &str) -> (r: String)
    requires
        k <= names@.len(),
    ensures
        r@ == sp_joined_names(names@, k as int, form, delim@),
{
    let mut acc = String::new();
    let mut i: usize = 0;
    while i < k
        invariant
            0 <= i <= k <= names@.len(),
            acc@ == sp_joined_names(names@, i as int, form, delim@),
        decreases k - i,
    {
        if i == 0 {
            acc = render_name(&names[0], form);
        } else {
            acc = acc.concat(delim).concat(render_name(&names[i], form).as_str());
        }
        i = i + 1;
    }
    acc
}

fn name_list(
    names: &Vec<Name>,
    delim: &str,
    et_al_min: u32,
    use_first: u32,
    form: NameForm,
    etal: &str,
    boost: Option<u32>,
    expand_given: bool,
) -> (r: String)
    ensures
        r@ == sp_name_list(
            names@,
            delim@,
            et_al_min as int,
            use_first as int,
            form,
            etal@,
            boost,
            expand_given,
        ),
{
    let len = names.len();
    if matches!(form, NameForm::Count) {
        return uint_to_string(len as u64);
    }
    let base: usize = if et_al_min > 0 && len >= et_al_min as usize {
        if (use_first as usize) < len {
            use_first as usize
        } else {
            len
        }
    } else {
        len
    };
    let shown: usize = match boost {
        None => base,
        Some(b) => if base >= b as usize {
            base
        } else if (b as usize) <= len {
            b as usize
        } else {
            len
        },
    };
    let f = if expand_given && matches!(form, NameForm::Short) {
        NameForm::Long
    } else {
        form
    };
    let j = joined_names(names, shown, f, delim);
    if shown < len {
        if shown > 0 {
            j.concat(delim).concat(etal)
        } else {
            etal.to_owned()
        }
    } else {
        j
    }
}

fn name_opts(name_els: &Vec<crate::style::Name>) -> (r: (String, u32, u32, NameForm))
    ensures
        (r.0@, r.1 as int, r.2 as int, r.3) == sp_name_opts(name_els@),
{
    proof {
        reveal_strlit(", ");
    }
    if name_els.len() > 0 {
        (
            name_els[0].delimiter.0.clone(),
            name_els[0].et_al_min,
            name_els[0].et_al_use_first,
            name_els[0].form,
        )
    } else {
        (String::from_str(", "), 0, 0, NameForm::Long)
    }
}

fn one_var_names(
    r: &Reference,
    loc: &Locale,
    var: NameVariable,
    delim: &str,
    et_al_min: u32,
    use_first: u32,
    form: NameForm,
    etal: &str,
    boost: Option<u32>,
    expand_given: bool,
) -> (out: String)
    requires
        etal@ == sp_etal(loc),
    ensures
        out@ == sp_one_var_names(
            r,
            loc,
            var,
            (delim@, et_al_min as int, use_first as int, form),
            boost,
            expand_given,
        ),
{
    if matches!(var, NameVariable::Dummy) {
        return String::new();
    }
    match r.name_get(var) {
        Some(names) => {
            if names.len() == 0 {
                String::new()
            } else {
                name_list(names, delim, et_al_min, use_first, form, etal, boost, expand_given)
            }
        },
        None => String::new(),
    }
}

fn names_all_empty(r: &Reference, vars: &Vec<NameVariable>) -> (out: bool)
    ensures
        out == sp_names_all_empty(r, vars@),
{
    let n = vars.len();
    let mut i: usize = 0;
    while i < n
        invariant
            0 <= i <= n,
            n == vars@.len(),
            forall|j: int|
                0 <= j < i ==> #[trigger] vars@[j] == NameVariable::Dummy || !r.name_map()
                    .contains_key(vars@[j]) || r.name_map()[vars@[j]].len() == 0,
        decreases n - i,
    {
        let v = vars[i];
        if !matches!(v, NameVariable::Dummy) {
            match r.name_get(v) {
                Some(names) => {
                    if names.len() > 0 {
                        return false;
                    }
                },
                None => {},
            }
        }
        i = i + 1;
    }
    true
}

fn names_body_from(
    r: &Reference,
    loc: &Locale,
    vars: &Vec<NameVariable>,
    i: usize,
    delim: &str,
    et_al_min: u32,
    use_first: u32,
    form: NameForm,
    elem_delim: &str,
    boost: Option<u32>,
    expand_given: bool,
) -> (out: String)
    requires
        i <= vars@.len(),
    ensures
        out@ == sp_names_body(
            r,
            loc,
            vars@.skip(i as int),
            (delim@, et_al_min as int, use_first as int, form),
            elem_delim@,
            boost,
            expand_given,
        ),
    decreases vars@.len() - i,
{
    if i == vars.len() {
        proof {
            assert(vars@.skip(i as int) =~= Seq::<NameVariable>::empty());
        }
        return String::new();
    }
    let etal = exec_etal(loc);
    let t = one_var_names(
        r,
        loc,
        vars[i],
        delim,
        et_al_min,
        use_first,
        form,
        etal.as_str(),
        boost,
        expand_given,
    );
    let rest = names_body_from(
        r,
        loc,
        vars,
        i + 1,
        delim,
        et_al_min,
        use_first,
        form,
        elem_delim,
        boost,
        expand_given,
    );
    proof {
        assert(vars@.skip(i as int).first() == vars@[i as int]);
        assert(vars@.skip(i as int).drop_first() =~= vars@.skip(i + 1));
    }
    if t.as_str().is_empty() {
        rest
    } else if rest.as_str().is_empty() {
        t
    } else {
        t.concat(elem_delim).concat(rest.as_str())
    }
}

fn find_macro_from<'m>(macros: &'m Vec<MacroMap>, i: usize, name: &str) -> (r: Option<
    &'m Vec<Element>,
>)
    requires
        i <= macros@.len(),
    ensures
        match r {
            Some(els) => sp_find_macro(macros@.skip(i as int), name@) == Some(els@),
            None => sp_find_macro(macros@.skip(i as int), name@) is None,
        },
    decreases macros@.len() - i,
{
    if i == macros.len() {
        proof {
            assert(macros@.skip(i as int) =~= Seq::<MacroMap>::empty());
        }
        return None;
    }
    proof {
        assert(macros@.skip(i as int).first() == macros@[i as int]);
        assert(macros@.skip(i as int).drop_first() =~= macros@.skip(i + 1));
    }
    if crate::strutil::str_eq(macros[i].name.as_str(), name) {
        Some(&macros[i].elements)
    } else {
        find_macro_from(macros, i + 1, name)
    }
}

fn render_numeric(v: &crate::numeric::NumericValue, form: NumericForm) -> (r: String)
    ensures
        r@ == sp_render_numeric(v@, form),
{
    proof {
        reveal_strlit("\u{2013}");
    }
    match v {
        crate::numeric::NumericValue::Number(n) => match form {
            NumericForm::Numeric => int_to_string(*n),
            NumericForm::Roman => if *n > 0 {
                roman_to_string(*n as u32)
            } else {
                int_to_string(*n)
            },
            _ => {
                let a: u32 = if *n >= 0 {
                    *n as u32
                } else {
                    (-(*n as i64)) as u32
                };
                int_to_string(*n).concat(ordinal_suffix(a))
            },
        },
        crate::numeric::NumericValue::Range(a, b) => {
            let r = int_to_string(*a).concat("\u{2013}").concat(int_to_string(*b).as_str());
            proof {
                assert("\u{2013}"@ =~= seq!['\u{2013}']);
            }
            r
        },
        crate::numeric::NumericValue::Affixed(s) => s.clone(),
        crate::numeric::NumericValue::Literal(s) => s.clone(),
    }
}

impl<'a> EvalCtx<'a> {
    fn label_present(&self, lv: &crate::style::LabelVariable) -> (r: bool)
        ensures
            r == sp_label_present(self.reference, self.cite, *lv),
    {
        match lv {
            crate::style::LabelVariable::Locator => self.cite.locator.is_some(),
            crate::style::LabelVariable::Page => self.reference.number_get(
                NumberVariable::Page,
            ).is_some(),
            crate::style::LabelVariable::Number(nv) => {
                let cc = crate::cite::CiteContext {
                    style: self.style,
                    reference: self.reference,
                    cite: self.cite,
                    format: self.format,
                    position: self.position,
                    citation_number: 0,
                };
                cc.has_variable(&AnyVariable::Number(*nv))
            },
        }
    }

    fn date_text(&self, d: &crate::style::Date, v: crate::reference::DateValue) -> (r: String)
        ensures
            r@ == sp_date_text(*self, *d, v),
    {
        let mut y = int_to_string(v.year);
        match self.year_suffix {
            Some(k) => {
                if matches!(d.variable, DateVariable::Issued) {
                    y = y.concat(exec_suffix_letter(k).as_str());
                }
            },
            None => {},
        }
        let with_month = if !matches!(d.date_parts_attr, crate::style::DateParts::Year) && v.month
            > 0 {
            y.concat(d.delimiter.0.as_str()).concat(uint_to_string(v.month as u64).as_str())
        } else {
            y
        };
        if matches!(d.date_parts_attr, crate::style::DateParts::YearMonthDay) && v.month > 0
            && v.day > 0 {
            with_month.concat(d.delimiter.0.as_str()).concat(
                uint_to_string(v.day as u64).as_str(),
            )
        } else {
            with_month
        }
    }

    /// Renders one element.
    #[verifier::rlimit(100)]
    pub fn eval_element(&self, e: &Element, fuel: u64) -> (r: (String, bool, bool))
        ensures
            (r.0@, r.1, r.2) == sp_eval_element(*self, *e, fuel as nat),
        decreases fuel,
    {
        if fuel == 0 {
            return (String::new(), false, false);
        }
        match e {
            Element::Const(s, f, af, q) => {
                if s.as_str().is_empty() {
                    return (String::new(), false, false);
                } else {
                    let t = self.format.wrap(f, s.clone());
                    return (apply_affixes(af, exec_quote(*q, t)), false, false);
                }
            },
            Element::Macro(name, f, af, q) => {
                proof {
                    assert(self.style.macros@.skip(0) =~= self.style.macros@);
                }
                match find_macro_from(&self.style.macros, 0, name.as_str()) {
                    None => return (String::new(), false, false),
                    Some(body) => {
                        let (t, c, rv) = self.eval_list_from(body, 0, "", fuel - 1);
                        proof {
                            reveal_strlit("");
                            assert(""@ =~= Seq::<char>::empty());
                            assert(body@.skip(0) =~= body@);
                        }
                        let w = self.format.wrap(f, t);
                        return (apply_affixes(af, exec_quote(*q, w)), c, rv);
                    },
                }
            },
            Element::Variable(v, f, af, _form, _delim, q) => {
                match self.reference.ordinary_get(*v) {
                    Some(val) => {
                        if val.as_str().is_empty() {
                            return (String::new(), true, false);
                        } else {
                            let t = self.format.wrap(f, val.clone());
                            return (apply_affixes(af, exec_quote(*q, t)), true, true);
                        }
                    },
                    None => return (String::new(), true, false),
                }
            },
            Element::Term(name, _form, f, af, _plural) => {
                match self.locale.get_term(name.as_str()) {
                    Some(val) => {
                        if val.as_str().is_empty() {
                            return (String::new(), false, false);
                        } else {
                            let t = self.format.wrap(f, val.clone());
                            return (apply_affixes(af, t), false, false);
                        }
                    },
                    None => return (String::new(), false, false),
                }
            },
            Element::Label(lv, _form, f, af, _plural) => {
                if self.label_present(lv) {
                    let key = lv.as_ref();
                    proof {
                        assert(key@ == sp_label_key(*lv));
                    }
                    match self.locale.get_term(key) {
                        Some(val) => {
                            if val.as_str().is_empty() {
                                return (String::new(), false, false);
                            } else {
                                let t = self.format.wrap(f, val.clone());
                                return (apply_affixes(af, t), false, false);
                            }
                        },
                        None => return (String::new(), false, false),
                    }
                } else {
                    return (String::new(), false, false);
                }
            },
            Element::Number(nv, nform, f, af, _plural) => {
                let cc = crate::cite::CiteContext {
                    style: self.style,
                    reference: self.reference,
                    cite: self.cite,
                    format: self.format,
                    position: self.position,
                    citation_number: 0,
                };
                match cc.get_number(nv) {
                    None => return (String::new(), true, false),
                    Some(val) => {
                        let t = render_numeric(&val, *nform);
                        if t.as_str().is_empty() {
                            return (String::new(), true, false);
                        } else {
                            let w = self.format.wrap(f, t);
                            return (apply_affixes(af, w), true, true);
                        }
                    },
                }
            },
            Element::Names(vars, name_els, _label, f, delim, subst) => {
                if names_all_empty(self.reference, vars) {
                    match subst {
                        Some(sub) => {
                            proof {
                                assert(sub.0@.skip(0) =~= sub.0@);
                            }
                            let t = self.first_nonempty_from(&sub.0, 0, fuel - 1);
                            let rendered = !t.as_str().is_empty();
                            return (t, true, rendered);
                        },
                        None => return (String::new(), true, false),
                    }
                } else {
                    let (od, omin, ofirst, oform) = name_opts(name_els);
                    proof {
                        assert(vars@.skip(0) =~= vars@);
                    }
                    let t = names_body_from(
                        self.reference,
                        self.locale,
                        vars,
                        0,
                        od.as_str(),
                        omin,
                        ofirst,
                        oform,
                        delim.0.as_str(),
                        self.name_boost,
                        self.expand_given,
                    );
                    if t.as_str().is_empty() {
                        return (String::new(), true, false);
                    } else {
                        return (self.format.wrap(f, t), true, true);
                    }
                }
            },
            Element::Group(f, delim, children) => {
                proof {
                    assert(children@.skip(0) =~= children@);
                }
                let (t, c, rv) = self.eval_list_from(children, 0, delim.0.as_str(), fuel - 1);
                if c && !rv {
                    return (String::new(), c, rv);
                } else {
                    return (self.format.wrap(f, t), c, rv);
                }
            },
            Element::Choose(first, elseifs, other) => {
                if self.condition_holds(&first.0) {
                    proof {
                        reveal_strlit("");
                        assert(""@ =~= Seq::<char>::empty());
                        assert(first.1@.skip(0) =~= first.1@);
                    }
                    return self.eval_list_from(&first.1, 0, "", fuel - 1);
                } else {
                    proof {
                        assert(elseifs@.skip(0) =~= elseifs@);
                    }
                    return self.eval_branches_from(elseifs, 0, &other.0, fuel - 1);
                }
            },
            Element::Date(d) => {
                match self.reference.date_get(d.variable) {
                    Some(v) => {
                        let t = self.date_text(d, v);
                        if t.as_str().is_empty() {
                            return (String::new(), true, false);
                        } else {
                            let w = self.format.wrap(&d.formatting, t);
                            return (apply_affixes(&d.affixes, w), true, true);
                        }
                    },
                    None => return (String::new(), true, false),
                }
            },
        }
    }

    /// Renders a list of elements, the nonempty results joined with the
    /// delimiter.
    pub fn eval_list_from(&self, els: &Vec<Element>, i: usize, delim: &str, fuel: u64) -> (r: (
        String,
        bool,
        bool,
    ))
        requires
            i <= els@.len(),
        ensures
            (r.0@, r.1, r.2) == sp_eval_list(*self, els@.skip(i as int), delim@, fuel as nat),
        decreases fuel,
    {
        if fuel == 0 || i == els.len() {
            proof {
                if i == els@.len() {
                    assert(els@.skip(i as int) =~= Seq::<Element>::empty());
                }
            }
            return (String::new(), false, false);
        }
        proof {
            assert(els@.skip(i as int).first() == els@[i as int]);
            assert(els@.skip(i as int).drop_first() =~= els@.skip(i + 1));
        }
        let (t, c, rv) = self.eval_element(&els[i], fuel - 1);
        let (rt, rc, rrv) = self.eval_list_from(els, i + 1, delim, fuel - 1);
        let text = if t.as_str().is_empty() {
            rt
        } else if rt.as_str().is_empty() {
            t
        } else {
            t.concat(delim).concat(rt.as_str())
        };
        (text, c || rc, rv || rrv)
    }

    /// Takes the first if branch whose condition holds, else the else
    /// branch.
    fn eval_branches_from(&self, ifs: &Vec<IfThen>, i: usize, other: &Vec<Element>, fuel: u64)
        -> (r: (String, bool, bool))
        requires
            i <= ifs@.len(),
        ensures
            (r.0@, r.1, r.2) == sp_eval_branches(*self, ifs@.skip(i as int), other@, fuel as nat),
        decreases fuel,
    {
        if fuel == 0 {
            return (String::new(), false, false);
        }
        if i == ifs.len() {
            proof {
                reveal_strlit("");
                assert(""@ =~= Seq::<char>::empty());
                assert(ifs@.skip(i as int) =~= Seq::<IfThen>::empty());
                assert(other@.skip(0) =~= other@);
            }
            return self.eval_list_from(other, 0, "", fuel - 1);
        }
        proof {
            assert(ifs@.skip(i as int).first() == ifs@[i as int]);
            assert(ifs@.skip(i as int).drop_first() =~= ifs@.skip(i + 1));
        }
        if self.condition_holds(&ifs[i].0) {
            proof {
                reveal_strlit("");
                assert(""@ =~= Seq::<char>::empty());
                assert(ifs@[i as int].1@.skip(0) =~= ifs@[i as int].1@);
            }
            self.eval_list_from(&ifs[i].1, 0, "", fuel - 1)
        } else {
            self.eval_branches_from(ifs, i + 1, other, fuel - 1)
        }
    }

    /// The first substitute element that renders nonempty.
    fn first_nonempty_from(&self, els: &Vec<Element>, i: usize, fuel: u64) -> (r: String)
        requires
            i <= els@.len(),
        ensures
            r@ == sp_first_nonempty(*self, els@.skip(i as int), fuel as nat),
        decreases fuel,
    {
        if fuel == 0 || i == els.len() {
            proof {
                if i == els@.len() {
                    assert(els@.skip(i as int) =~= Seq::<Element>::empty());
                }
            }
            return String::new();
        }
        proof {
            assert(els@.skip(i as int).first() == els@[i as int]);
            assert(els@.skip(i as int).drop_first() =~= els@.skip(i + 1));
        }
        let (t, _, _) = self.eval_element(&els[i], fuel - 1);
        if !t.as_str().is_empty() {
            t
        } else {
            self.first_nonempty_from(els, i + 1, fuel - 1)
        }
    }
}

// ---------------------------------------------------------------------------
// Group voiding
// ---------------------------------------------------------------------------

#[verifier::rlimit(100)]
proof fn lemma_el_rendered_nonempty(ctx: EvalCtx, e: Element, fuel: nat)
    ensures
        sp_eval_element(ctx, e, fuel).2 ==> sp_eval_element(ctx, e, fuel).0.len() > 0,
    decreases fuel,
{
    if fuel > 0 {
        match e {
            Element::Macro(name, f, af, q) => {
                match sp_find_macro(ctx.style.macros@, name@) {
                    None => {},
                    Some(body) => {
                        lemma_list_rendered_nonempty(ctx, body, Seq::empty(), (fuel - 1) as nat);
                    },
                }
            },
            Element::Names(vars, name_els, _label, f, delim, subst) => {},
            Element::Group(f, delim, children) => {
                lemma_list_rendered_nonempty(ctx, children@, delim.0@, (fuel - 1) as nat);
            },
            Element::Choose(first, elseifs, other) => {
                if sp_cond(ctx, first.0) {
                    lemma_list_rendered_nonempty(ctx, first.1@, Seq::empty(), (fuel - 1) as nat);
                } else {
                    lemma_branches_rendered_nonempty(ctx, elseifs@, other.0@, (fuel - 1) as nat);
                }
            },
            _ => {},
        }
    }
}

proof fn lemma_list_rendered_nonempty(ctx: EvalCtx, els: Seq<Element>, delim: Seq<char>, fuel: nat)
    ensures
        sp_eval_list(ctx, els, delim, fuel).2 ==> sp_eval_list(ctx, els, delim, fuel).0.len() > 0,
    decreases fuel,
{
    if fuel > 0 && els.len() > 0 {
        lemma_el_rendered_nonempty(ctx, els.first(), (fuel - 1) as nat);
        lemma_list_rendered_nonempty(ctx, els.drop_first(), delim, (fuel - 1) as nat);
    }
}

proof fn lemma_branches_rendered_nonempty(
    ctx: EvalCtx,
    ifs: Seq<IfThen>,
    other: Seq<Element>,
    fuel: nat,
)
    ensures
        sp_eval_branches(ctx, ifs, other, fuel).2 ==> sp_eval_branches(
            ctx,
            ifs,
            other,
            fuel,
        ).0.len() > 0,
    decreases fuel,
{
    if fuel > 0 {
        if ifs.len() == 0 {
            lemma_list_rendered_nonempty(ctx, other, Seq::empty(), (fuel - 1) as nat);
        } else if sp_cond(ctx, ifs.first().0) {
            lemma_list_rendered_nonempty(ctx, ifs.first().1@, Seq::empty(), (fuel - 1) as nat);
        } else {
            lemma_branches_rendered_nonempty(ctx, ifs.drop_first(), other, (fuel - 1) as nat);
        }
    }
}

/// Law: a group with at least one variable-consuming child renders output
/// exactly when at least one of those children resolved nonempty.
pub proof fn lemma_group_voiding(
    ctx: EvalCtx,
    f: crate::style::Formatting,
    delim: crate::style::Delimiter,
    children: Vec<Element>,
    fuel: nat,
)
    requires
        fuel >= 1,
    ensures
        ({
            let (t, c, rv) = sp_eval_list(ctx, children@, delim.0@, (fuel - 1) as nat);
            c ==> (sp_eval_element(ctx, Element::Group(f, delim, children), fuel).0.len() > 0
                <==> rv)
        }),
{
    let (t, c, rv) = sp_eval_list(ctx, children@, delim.0@, (fuel - 1) as nat);
    if c {
        if rv {
            lemma_list_rendered_nonempty(ctx, children@, delim.0@, (fuel - 1) as nat);
            assert(t.len() > 0);
            assert(sp_wrap(ctx.format, f, t).len() > 0);
        }
    }
}

/// The view of an optional string: its characters, or none.
pub open spec fn sp_opt_str(o: Option<String>) -> Seq<char> {
    match o {
        Some(s) => s@,
        None => Seq::empty(),
    }
}

/// How one cite renders: its own prefix, the layout elements, its own
/// suffix.
pub open spec fn sp_eval_cite(ctx: EvalCtx, fuel: nat) -> Seq<char> {
    sp_opt_str(ctx.cite.prefix) + sp_eval_list(
        ctx,
        ctx.style.citation.layout.elements@,
        Seq::empty(),
        fuel,
    ).0 + sp_opt_str(ctx.cite.suffix)
}

impl<'a> EvalCtx<'a> {
    /// Renders this context's cite under the style's citation layout.
    pub fn eval_cite(&self) -> (r: String)
        ensures
            r@ == sp_eval_cite(*self, EVAL_FUEL as nat),
    {
        proof {
            reveal_strlit("");
            assert(""@ =~= Seq::<char>::empty());
            assert(self.style.citation.layout.elements@.skip(0)
                =~= self.style.citation.layout.elements@);
        }
        let (t, _, _) = self.eval_list_from(
            &self.style.citation.layout.elements,
            0,
            "",
            EVAL_FUEL,
        );
        let pre: String = match &self.cite.prefix {
            Some(p) => p.clone(),
            None => String::new(),
        };
        let suf: String = match &self.cite.suffix {
            Some(s) => s.clone(),
            None => String::new(),
        };
        pre.concat(t.as_str()).concat(suf.as_str())
    }
}

/// Whether two contexts agree on everything but the locale's value, whose
/// term dictionary they share.  The evaluator reads the locale through
/// that dictionary alone, so such contexts render identically.
pub open spec fn sp_ctx_same_view(a: EvalCtx, b: EvalCtx) -> bool {
    &&& a.style == b.style
    &&& a.reference == b.reference
    &&& a.cite == b.cite
    &&& a.position == b.position
    &&& a.format == b.format
    &&& a.disamb == b.disamb
    &&& a.year_suffix == b.year_suffix
    &&& a.name_boost == b.name_boost
    &&& a.expand_given == b.expand_given
    &&& terms_map_of(a.locale.terms@) == terms_map_of(b.locale.terms@)
}

proof fn lemma_cond_same_view(ctx1: EvalCtx, ctx2: EvalCtx, c: Condition)
    requires
        sp_ctx_same_view(ctx1, ctx2),
    ensures
        sp_cond(ctx1, c) == sp_cond(ctx2, c),
{
    assert(sp_cond_any(ctx1, c) == sp_cond_any(ctx2, c));
    assert(sp_cond_all(ctx1, c) == sp_cond_all(ctx2, c));
}

proof fn lemma_names_body_same_view(
    r: &Reference,
    la: &Locale,
    lb: &Locale,
    vars: Seq<NameVariable>,
    opts: (Seq<char>, int, int, NameForm),
    elem_delim: Seq<char>,
    boost: Option<u32>,
    expand_given: bool,
)
    requires
        terms_map_of(la.terms@) == terms_map_of(lb.terms@),
    ensures
        sp_names_body(r, la, vars, opts, elem_delim, boost, expand_given) == sp_names_body(
            r,
            lb,
            vars,
            opts,
            elem_delim,
            boost,
            expand_given,
        ),
    decreases vars.len(),
{
    if vars.len() > 0 {
        assert(sp_etal(la) == sp_etal(lb));
        lemma_names_body_same_view(r, la, lb, vars.drop_first(), opts, elem_delim, boost, expand_given);
    }
}

/// Law: the evaluator reads the locale only through its term dictionary.
pub proof fn lemma_eval_element_same_view(ctx1: EvalCtx, ctx2: EvalCtx, e: Element, fuel: nat)
    requires
        sp_ctx_same_view(ctx1, ctx2),
    ensures
        sp_eval_element(ctx1, e, fuel) == sp_eval_element(ctx2, e, fuel),
    decreases fuel, 1int,
{
    if fuel > 0 {
        match e {
            Element::Const(_s, _f, _af, _q) => {},
            Element::Macro(name, _f, _af, _q) => {
                match sp_find_macro(ctx1.style.macros@, name@) {
                    None => {},
                    Some(body) => {
                        lemma_eval_list_same_view(ctx1, ctx2, body, Seq::empty(), (fuel - 1) as nat);
                    },
                }
            },
            Element::Variable(_v, _f, _af, _form, _delim, _q) => {},
            Element::Term(name, _form, _f, _af, _plural) => {
                assert(sp_term_or_empty(ctx1.locale, name@) == sp_term_or_empty(
                    ctx2.locale,
                    name@,
                ));
            },
            Element::Label(lv, _form, _f, _af, _plural) => {
                assert(sp_term_or_empty(ctx1.locale, sp_label_key(lv)) == sp_term_or_empty(
                    ctx2.locale,
                    sp_label_key(lv),
                ));
            },
            Element::Number(_nv, _nform, _f, _af, _plural) => {},
            Element::Names(vars, name_els, _label, _f, delim, subst) => {
                if sp_names_all_empty(ctx1.reference, vars@) {
                    match subst {
                        Some(sub) => {
                            lemma_first_nonempty_same_view(ctx1, ctx2, sub.0@, (fuel - 1) as nat);
                        },
                        None => {},
                    }
                } else {
                    lemma_names_body_same_view(
                        ctx1.reference,
                        ctx1.locale,
                        ctx2.locale,
                        vars@,
                        sp_name_opts(name_els@),
                        delim.0@,
                        ctx1.name_boost,
                        ctx1.expand_given,
                    );
                }
            },
            Element::Group(_f, delim, children) => {
                lemma_eval_list_same_view(ctx1, ctx2, children@, delim.0@, (fuel - 1) as nat);
            },
            Element::Choose(first, elseifs, other) => {
                lemma_cond_same_view(ctx1, ctx2, first.0);
                if sp_cond(ctx1, first.0) {
                    lemma_eval_list_same_view(ctx1, ctx2, first.1@, Seq::empty(), (fuel - 1) as nat);
                } else {
                    lemma_eval_branches_same_view(ctx1, ctx2, elseifs@, other.0@, (fuel - 1) as nat);
                }
            },
            Element::Date(_d) => {},
        }
    }
}

proof fn lemma_eval_list_same_view(
    ctx1: EvalCtx,
    ctx2: EvalCtx,
    els: Seq<Element>,
    delim: Seq<char>,
    fuel: nat,
)
    requires
        sp_ctx_same_view(ctx1, ctx2),
    ensures
        sp_eval_list(ctx1, els, delim, fuel) == sp_eval_list(ctx2, els, delim, fuel),
    decreases fuel, 0int,
{
    if fuel > 0 && els.len() > 0 {
        lemma_eval_element_same_view(ctx1, ctx2, els.first(), (fuel - 1) as nat);
        lemma_eval_list_same_view(ctx1, ctx2, els.drop_first(), delim, (fuel - 1) as nat);
    }
}

proof fn lemma_eval_branches_same_view(
    ctx1: EvalCtx,
    ctx2: EvalCtx,
    ifs: Seq<IfThen>,
    other: Seq<Element>,
    fuel: nat,
)
    requires
        sp_ctx_same_view(ctx1, ctx2),
    ensures
        sp_eval_branches(ctx1, ifs, other, fuel) == sp_eval_branches(ctx2, ifs, other, fuel),
    decreases fuel, 0int,
{
    if fuel > 0 {
        if ifs.len() == 0 {
            lemma_eval_list_same_view(ctx1, ctx2, other, Seq::empty(), (fuel - 1) as nat);
        } else {
            lemma_cond_same_view(ctx1, ctx2, ifs.first().0);
            if sp_cond(ctx1, ifs.first().0) {
                lemma_eval_list_same_view(ctx1, ctx2, ifs.first().1@, Seq::empty(), (fuel - 1) as nat);
            } else {
                lemma_eval_branches_same_view(ctx1, ctx2, ifs.drop_first(), other, (fuel - 1) as nat);
            }
        }
    }
}

proof fn lemma_first_nonempty_same_view(ctx1: EvalCtx, ctx2: EvalCtx, els: Seq<Element>, fuel: nat)
    requires
        sp_ctx_same_view(ctx1, ctx2),
    ensures
        sp_first_nonempty(ctx1, els, fuel) == sp_first_nonempty(ctx2, els, fuel),
    decreases fuel, 0int,
{
    if fuel > 0 && els.len() > 0 {
        lemma_eval_element_same_view(ctx1, ctx2, els.first(), (fuel - 1) as nat);
        lemma_first_nonempty_same_view(ctx1, ctx2, els.drop_first(), (fuel - 1) as nat);
    }
}

/// Law: a whole cite renders the same under two contexts that agree on
/// everything but the locale value, its term dictionary kept.
pub proof fn lemma_eval_cite_same_view(ctx1: EvalCtx, ctx2: EvalCtx, fuel: nat)
    requires
        sp_ctx_same_view(ctx1, ctx2),
    ensures
        sp_eval_cite(ctx1, fuel) == sp_eval_cite(ctx2, fuel),
{
    lemma_eval_list_same_view(
        ctx1,
        ctx2,
        ctx1.style.citation.layout.elements@,
        Seq::empty(),
        fuel,
    );
}

} // verus!
