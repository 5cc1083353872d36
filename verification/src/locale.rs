//! Locales: language tags with their inheritance chain, parsed locale
//! bundles, and the field-wise merge over a chain.

use vstd::prelude::*;
use crate::assoc::{pairs_to_map, lemma_pairs_absent, lemma_pairs_first, lemma_pairs_concat};
use crate::strutil::str_eq;

verus! {

/// A language tag such as `en-US`, or a bare language such as `fr`.
#[derive(Debug, Clone, PartialEq, Eq, Hash)]
pub struct Lang(pub String);

impl View for Lang {
    type V = Seq<char>;

    open spec fn view(&self) -> Seq<char> {
        self.0@
    }
}

impl Lang {
    /// The root fallback tag.
    pub fn en_us() -> (r: Lang)
        ensures
            r@ == "en-US"@,
    {
        Lang(String::from_str("en-US"))
    }

    pub fn duplicate(&self) -> (r: Lang)
        ensures
            r == *self,
    {
        Lang(self.0.clone())
    }
}

/// Index of the first hyphen of a tag, or its length when it has none.
pub open spec fn hyphen_pos(s: Seq<char>) -> int {
    if exists|i: int| 0 <= i < s.len() && #[trigger] s[i] == '-' {
        choose|i: int|
            0 <= i < s.len() && #[trigger] s[i] == '-' && forall|j: int|
                0 <= j < i ==> s[j] != '-'
    } else {
        s.len() as int
    }
}

proof fn lemma_hyphen_pos(s: Seq<char>, r: int)
    requires
        0 <= r <= s.len(),
        forall|j: int| 0 <= j < r ==> s[j] != '-',
        r < s.len() ==> s[r] == '-',
    ensures
        hyphen_pos(s) == r,
{
    if r < s.len() {
        assert(0 <= r < s.len() && s[r] == '-' && forall|j: int| 0 <= j < r ==> s[j] != '-');
        let i0 = choose|i: int|
            0 <= i < s.len() && #[trigger] s[i] == '-' && forall|j: int|
                0 <= j < i ==> s[j] != '-';
        if i0 < r {
            assert(s[i0] != '-');
        } else if i0 > r {
            assert(s[r] != '-');
        }
    }
}

/// The bare language of a tag: the part before the first hyphen.
pub open spec fn spec_base(s: Seq<char>) -> Seq<char> {
    s.subrange(0, hyphen_pos(s))
}

/// The region a bare language defaults to, as a full tag.
pub open spec fn spec_default_tag(base: Seq<char>) -> Option<Seq<char>> {
    if base == "en"@ {
        Some("en-US"@)
    } else if base == "de"@ {
        Some("de-DE"@)
    } else if base == "fr"@ {
        Some("fr-FR"@)
    } else if base == "es"@ {
        Some("es-ES"@)
    } else if base == "pt"@ {
        Some("pt-PT"@)
    } else if base == "zh"@ {
        Some("zh-CN"@)
    } else {
        None
    }
}

/// The fallback chain of a tag: the tag itself, then the default-region
/// tag of its language (when different), then the bare language (when the
/// tag named a region), and the root fallback `en-US` last, unless it is
/// already present.
pub open spec fn spec_lang_chain(s: Seq<char>) -> Seq<Seq<char>> {
    let base = spec_base(s);
    let has_region = hyphen_pos(s) < s.len();
    let first: Seq<Seq<char>> = seq![s];
    let second: Seq<Seq<char>> = match spec_default_tag(base) {
        Some(d) => if d != s {
            seq![d]
        } else {
            Seq::empty()
        },
        None => Seq::empty(),
    };
    let third: Seq<Seq<char>> = if has_region {
        seq![base]
    } else {
        Seq::empty()
    };
    let last: Seq<Seq<char>> = if s == "en-US"@ || spec_default_tag(base) == Some("en-US"@) {
        Seq::empty()
    } else {
        seq!["en-US"@]
    };
    first + second + third + last
}

impl Lang {
    /// Index of the first hyphen, or the length when there is none.
    fn hyphen_index(&self, n: usize) -> (r: usize)
        requires
            n == self@.len(),
        ensures
            r == hyphen_pos(self@),
            0 <= r <= n,
    {
        let s = self.0.as_str();
        let mut i: usize = 0;
        while i < n
            invariant
                0 <= i <= n,
                n == s@.len(),
                s@ == self@,
                forall|j: int| 0 <= j < i ==> s@[j] != '-',
            decreases n - i,
        {
            if s.get_char(i) == '-' {
                proof {
                    lemma_hyphen_pos(self@, i as int);
                }
                return i;
            }
            i = i + 1;
        }
        proof {
            lemma_hyphen_pos(self@, n as int);
        }
        n
    }

    /// The fallback chain of this tag, highest precedence first.
    pub fn chain(&self) -> (r: Vec<Lang>)
        ensures
            r@.map_values(|l: Lang| l@) == spec_lang_chain(self@),
    {
        proof {
            reveal_strlit("en");
            reveal_strlit("de");
            reveal_strlit("fr");
            reveal_strlit("es");
            reveal_strlit("pt");
            reveal_strlit("zh");
            reveal_strlit("en-US");
            reveal_strlit("de-DE");
            reveal_strlit("fr-FR");
            reveal_strlit("es-ES");
            reveal_strlit("pt-PT");
            reveal_strlit("zh-CN");
            reveal_strlit("-");
        }
        let n = self.0.as_str().unicode_len();
        let k = self.hyphen_index(n);
        let base: String = self.0.as_str().substring_char(0, k).to_owned();
        let has_region = k < n;
        let dflt: Option<String> = if str_eq(base.as_str(), "en") {
            Some(String::from_str("en-US"))
        } else if str_eq(base.as_str(), "de") {
            Some(String::from_str("de-DE"))
        } else if str_eq(base.as_str(), "fr") {
            Some(String::from_str("fr-FR"))
        } else if str_eq(base.as_str(), "es") {
            Some(String::from_str("es-ES"))
        } else if str_eq(base.as_str(), "pt") {
            Some(String::from_str("pt-PT"))
        } else if str_eq(base.as_str(), "zh") {
            Some(String::from_str("zh-CN"))
        } else {
            None
        };
        let mut r: Vec<Lang> = Vec::new();
        r.push(Lang(self.0.clone()));
        let mut ends_en_us = false;
        match &dflt {
            Some(d) => {
                if !str_eq(d.as_str(), self.0.as_str()) {
                    r.push(Lang(d.clone()));
                }
                if str_eq(d.as_str(), "en-US") {
                    ends_en_us = true;
                }
            },
            None => {},
        }
        if has_region {
            r.push(Lang(base));
        }
        if !ends_en_us && !str_eq(self.0.as_str(), "en-US") {
            r.push(Lang::en_us());
        }
        proof {
            assert(r@.map_values(|l: Lang| l@) =~= spec_lang_chain(self@));
        }
        r
    }
}

/// Where one link of the chain is read from: the style's inline overrides,
/// or a fetched locale file.
#[derive(Debug, Clone, PartialEq, Eq)]
pub enum LocaleSource {
    Inline(Option<Lang>),
    File(Lang),
}

pub open spec fn src_is_inline(s: LocaleSource, tag: Seq<char>) -> bool {
    match s {
        LocaleSource::Inline(Some(l)) => l@ == tag,
        _ => false,
    }
}

pub open spec fn src_is_file(s: LocaleSource, tag: Seq<char>) -> bool {
    match s {
        LocaleSource::File(l) => l@ == tag,
        _ => false,
    }
}

impl Lang {
    /// The locale sources of this tag, highest precedence first: for each
    /// chain link its inline override, then its file; the style's untagged
    /// inline locale comes last.
    pub fn iter(&self) -> (r: Vec<LocaleSource>)
        ensures
            r@.len() == 2 * spec_lang_chain(self@).len() + 1,
            forall|i: int|
                0 <= i < spec_lang_chain(self@).len() ==> src_is_inline(
                    #[trigger] r@[2 * i],
                    spec_lang_chain(self@)[i],
                ),
            forall|i: int|
                0 <= i < spec_lang_chain(self@).len() ==> src_is_file(
                    r@[2 * i + 1],
                    #[trigger] spec_lang_chain(self@)[i],
                ),
            r@.last() == LocaleSource::Inline(None::<Lang>),
    {
        let chain = self.chain();
        let mut r: Vec<LocaleSource> = Vec::new();
        let mut i: usize = 0;
        let n = chain.len();
        while i < n
            invariant
                0 <= i <= n,
                n == chain@.len(),
                chain@.map_values(|l: Lang| l@) == spec_lang_chain(self@),
                r@.len() == 2 * i,
                forall|j: int|
                    0 <= j < i ==> src_is_inline(#[trigger] r@[2 * j], spec_lang_chain(self@)[j]),
                forall|j: int|
                    0 <= j < i ==> src_is_file(r@[2 * j + 1], #[trigger] spec_lang_chain(self@)[j]),
            decreases n - i,
        {
            let l = &chain[i];
            r.push(LocaleSource::Inline(Some(l.duplicate())));
            r.push(LocaleSource::File(l.duplicate()));
            assert(chain@.map_values(|l: Lang| l@)[i as int] == spec_lang_chain(self@)[i as int]);
            i = i + 1;
        }
        r.push(LocaleSource::Inline(None));
        r
    }
}

// ---------------------------------------------------------------------------
// Locales and their merge
// ---------------------------------------------------------------------------

/// Style options a locale may set; every field stays optional until the
/// final merge substitutes defaults.
#[derive(Debug, Clone, Copy, PartialEq, Eq)]
pub struct LocaleOptionsNode {
    pub limit_day_ordinals_to_day_1: Option<bool>,
    pub punctuation_in_quote: Option<bool>,
}

/// The fully concrete options, after defaults are substituted.
#[derive(Debug, Clone, Copy, PartialEq, Eq, Structural)]
pub struct LocaleOptions {
    pub limit_day_ordinals_to_day_1: bool,
    pub punctuation_in_quote: bool,
}

impl LocaleOptions {
    /// Substitutes the per-field default, false, for every unset field.
    pub fn from_merged(node: &LocaleOptionsNode) -> (r: LocaleOptions)
        ensures
            r.limit_day_ordinals_to_day_1 == (node.limit_day_ordinals_to_day_1
                == Some(true)),
            r.punctuation_in_quote == (node.punctuation_in_quote == Some(true)),
    {
        LocaleOptions {
            limit_day_ordinals_to_day_1: match node.limit_day_ordinals_to_day_1 {
                Some(b) => b,
                None => false,
            },
            punctuation_in_quote: match node.punctuation_in_quote {
                Some(b) => b,
                None => false,
            },
        }
    }
}

/// A parsed locale: its tag, optional options, and terms.
#[derive(Debug)]
pub struct Locale {
    pub lang: Option<Lang>,
    pub options_node: LocaleOptionsNode,
    pub terms: Vec<(String, String)>,
}

/// The term pairs of a locale, by view.
pub open spec fn term_pairs(s: Seq<(String, String)>) -> Seq<(Seq<char>, Seq<char>)> {
    s.map_values(|p: (String, String)| (p.0@, p.1@))
}

/// The term dictionary a pair list denotes; the first occurrence wins.
pub open spec fn terms_map_of(s: Seq<(String, String)>) -> Map<Seq<char>, Seq<char>> {
    pairs_to_map(term_pairs(s))
}

impl Default for Locale {
    /// The empty locale: no tag, no options, no terms, no date formats.
    fn default() -> (r: Self)
        ensures
            r.lang is None,
            r.options_node.limit_day_ordinals_to_day_1 is None,
            r.options_node.punctuation_in_quote is None,
            r.terms@ == Seq::<(String, String)>::empty(),
    {
        Locale {
            lang: None,
            options_node: LocaleOptionsNode {
                limit_day_ordinals_to_day_1: None,
                punctuation_in_quote: None,
            },
            terms: Vec::new(),
        }
    }
}

fn clone_terms(v: &Vec<(String, String)>) -> (r: Vec<(String, String)>)
    ensures
        r@ == v@,
{
    let mut r: Vec<(String, String)> = Vec::new();
    let mut i: usize = 0;
    let n = v.len();
    while i < n
        invariant
            0 <= i <= n,
            n == v@.len(),
            r@ == v@.subrange(0, i as int),
        decreases n - i,
    {
        let p = &v[i];
        r.push((p.0.clone(), p.1.clone()));
        proof {
            assert(r@ =~= v@.subrange(0, i + 1));
        }
        i = i + 1;
    }
    proof {
        assert(r@ =~= v@);
    }
    r
}

impl Locale {
    /// Field-wise merge: what `other` sets overrides this locale; what it
    /// leaves unset is preserved.  Term and date-format dictionaries merge
    /// per key, `other`'s entries winning.
    pub fn merge(&mut self, other: &Locale)
        ensures
            final(self).lang == if other.lang is Some {
                other.lang
            } else {
                old(self).lang
            },
            final(self).options_node.limit_day_ordinals_to_day_1 == if other.options_node
                .limit_day_ordinals_to_day_1 is Some {
                other.options_node.limit_day_ordinals_to_day_1
            } else {
                old(self).options_node.limit_day_ordinals_to_day_1
            },
            final(self).options_node.punctuation_in_quote == if other.options_node
                .punctuation_in_quote is Some {
                other.options_node.punctuation_in_quote
            } else {
                old(self).options_node.punctuation_in_quote
            },
            final(self).terms@ == other.terms@ + old(self).terms@,
    {
        match &other.lang {
            Some(l) => {
                self.lang = Some(l.duplicate());
            },
            None => {},
        }
        match other.options_node.limit_day_ordinals_to_day_1 {
            Some(b) => {
                self.options_node.limit_day_ordinals_to_day_1 = Some(b);
            },
            None => {},
        }
        match other.options_node.punctuation_in_quote {
            Some(b) => {
                self.options_node.punctuation_in_quote = Some(b);
            },
            None => {},
        }
        let mut nt = clone_terms(&other.terms);
        nt.append(&mut self.terms);
        self.terms = nt;
    }

    /// Looks a term up; the first pair with the requested key wins.
    pub fn get_term<'a>(&'a self, name: &str) -> (r: Option<&'a String>)
        ensures
            match r {
                Some(v) => terms_map_of(self.terms@).contains_key(name@) && terms_map_of(
                    self.terms@,
                )[name@] == v@,
                None => !terms_map_of(self.terms@).contains_key(name@),
            },
    {
        let n = self.terms.len();
        let mut i: usize = 0;
        while i < n
            invariant
                0 <= i <= n,
                n == self.terms@.len(),
                forall|j: int| 0 <= j < i ==> (#[trigger] self.terms@[j]).0@ != name@,
            decreases n - i,
        {
            if crate::strutil::str_eq(self.terms[i].0.as_str(), name) {
                proof {
                    assert(forall|j: int|
                        0 <= j < i ==> (#[trigger] term_pairs(self.terms@)[j]).0 != term_pairs(
                            self.terms@,
                        )[i as int].0);
                    lemma_pairs_first(term_pairs(self.terms@), i as int);
                }
                return Some(&self.terms[i].1);
            }
            i = i + 1;
        }
        proof {
            assert(forall|j: int|
                0 <= j < term_pairs(self.terms@).len() ==> (#[trigger] term_pairs(
                    self.terms@,
                )[j]).0 != name@);
            lemma_pairs_absent(term_pairs(self.terms@), name@);
        }
        None
    }
}

// ---------------------------------------------------------------------------
// Fetching locales
// ---------------------------------------------------------------------------

/// Why a locale fetch failed: an input or output failure, carried as its
/// message, or any other reported cause.
#[derive(Debug, Clone, PartialEq, Eq)]
pub enum LocaleFetchError {
    Io(String),
    Other(String),
}

impl From<String> for LocaleFetchError {
    fn from(err: String) -> (r: LocaleFetchError) {
        LocaleFetchError::Other(err)
    }
}

impl vstd::std_specs::convert::FromSpecImpl<String> for LocaleFetchError {
    open spec fn obeys_from_spec() -> bool {
        true
    }

    open spec fn from_spec(err: String) -> Self {
        LocaleFetchError::Other(err)
    }
}

/// A source of locale text, supplied by the embedder.  Nothing is assumed
/// of what a fetch returns: callers handle every outcome.
pub trait LocaleFetcher {
    fn fetch_string(&self, lang: &Lang) -> Result<Option<String>, LocaleFetchError>;
}

/// A fetcher over a fixed store of locale texts, keyed by tag; the first
/// pair under a tag wins.
pub struct PredefinedLocales(pub Vec<(Lang, String)>);

/// The text the first stored pair under a tag holds, if any.
pub open spec fn sp_stored_text(store: Seq<(Lang, String)>, tag: Seq<char>) -> Option<Seq<char>>
    decreases store.len(),
{
    if store.len() == 0 {
        None
    } else if store.first().0@ == tag {
        Some(store.first().1@)
    } else {
        sp_stored_text(store.drop_first(), tag)
    }
}

impl LocaleFetcher for PredefinedLocales {
    /// Never fails; a missing tag yields nothing.
    fn fetch_string(&self, lang: &Lang) -> (r: Result<Option<String>, LocaleFetchError>)
        ensures
            r is Ok,
            match sp_stored_text(self.0@, lang@) {
                Some(t) => r->Ok_0 is Some && r->Ok_0->Some_0@ == t,
                None => r->Ok_0 is None,
            },
    {
        let n = self.0.len();
        let mut i: usize = 0;
        proof {
            assert(self.0@.skip(0) =~= self.0@);
        }
        while i < n
            invariant
                0 <= i <= n,
                n == self.0@.len(),
                sp_stored_text(self.0@, lang@) == sp_stored_text(
                    self.0@.skip(i as int),
                    lang@,
                ),
            decreases n - i,
        {
            proof {
                assert(self.0@.skip(i as int).first() == self.0@[i as int]);
                assert(self.0@.skip(i as int).drop_first() =~= self.0@.skip(i + 1));
            }
            if crate::strutil::string_eq(&self.0[i].0.0, &lang.0) {
                return Ok(Some(self.0[i].1.clone()));
            }
            i = i + 1;
        }
        proof {
            assert(self.0@.skip(n as int) =~= Seq::<(Lang, String)>::empty());
        }
        Ok(None)
    }
}

// ---------------------------------------------------------------------------
// Merging a whole chain
// ---------------------------------------------------------------------------

/// The first set punctuation-in-quote option along a chain.
pub open spec fn first_punctuation(chain: Seq<Locale>) -> Option<bool>
    decreases chain.len(),
{
    if chain.len() == 0 {
        None
    } else if chain.first().options_node.punctuation_in_quote is Some {
        chain.first().options_node.punctuation_in_quote
    } else {
        first_punctuation(chain.drop_first())
    }
}

/// The first set limit-day-ordinals option along a chain.
pub open spec fn first_limit_day_ordinals(chain: Seq<Locale>) -> Option<bool>
    decreases chain.len(),
{
    if chain.len() == 0 {
        None
    } else if chain.first().options_node.limit_day_ordinals_to_day_1 is Some {
        chain.first().options_node.limit_day_ordinals_to_day_1
    } else {
        first_limit_day_ordinals(chain.drop_first())
    }
}

/// The first tag set along a chain.
pub open spec fn first_lang(chain: Seq<Locale>) -> Option<Lang>
    decreases chain.len(),
{
    if chain.len() == 0 {
        None
    } else if chain.first().lang is Some {
        chain.first().lang
    } else {
        first_lang(chain.drop_first())
    }
}

/// All term pairs along a chain, highest precedence first.
pub open spec fn concat_terms(chain: Seq<Locale>) -> Seq<(String, String)>
    decreases chain.len(),
{
    if chain.len() == 0 {
        Seq::empty()
    } else {
        chain.first().terms@ + concat_terms(chain.drop_first())
    }
}

/// Merges a chain of locales, highest precedence first, into one.  Every
/// optional field of the result is the first one set along the chain; the
/// dictionaries keep every entry, those of earlier locales winning.  An
/// empty chain merges to the default locale.
pub fn merged_from_chain(locales: &Vec<Locale>) -> (r: Locale)
    ensures
        r.lang == first_lang(locales@),
        r.options_node.punctuation_in_quote == first_punctuation(locales@),
        r.options_node.limit_day_ordinals_to_day_1 == first_limit_day_ordinals(locales@),
        r.terms@ == concat_terms(locales@),
{
    let n = locales.len();
    let mut acc = Locale::default();
    let mut i: usize = n;
    proof {
        assert(locales@.subrange(n as int, n as int) =~= Seq::<Locale>::empty());
    }
    while i > 0
        invariant
            0 <= i <= n,
            n == locales@.len(),
            acc.lang == first_lang(locales@.subrange(i as int, n as int)),
            acc.options_node.punctuation_in_quote == first_punctuation(
                locales@.subrange(i as int, n as int),
            ),
            acc.options_node.limit_day_ordinals_to_day_1 == first_limit_day_ordinals(
                locales@.subrange(i as int, n as int),
            ),
            acc.terms@ == concat_terms(locales@.subrange(i as int, n as int)),
        decreases i,
    {
        i = i - 1;
        acc.merge(&locales[i]);
        proof {
            let suf = locales@.subrange(i as int, n as int);
            assert(suf.first() == locales@[i as int]);
            assert(suf.drop_first() =~= locales@.subrange(i + 1, n as int));
        }
    }
    proof {
        assert(locales@.subrange(0, n as int) =~= locales@);
    }
    acc
}

/// The term the chain itself would give a key: the value of the first
/// locale whose dictionary defines it.
pub open spec fn chain_term_lookup(chain: Seq<Locale>, k: Seq<char>) -> Option<Seq<char>>
    decreases chain.len(),
{
    if chain.len() == 0 {
        None
    } else if terms_map_of(chain.first().terms@).contains_key(k) {
        Some(terms_map_of(chain.first().terms@)[k])
    } else {
        chain_term_lookup(chain.drop_first(), k)
    }
}

/// Law: merging is monotone per key.  The merged dictionary defines a term
/// exactly when some locale of the chain does, and gives it the value of
/// the first such locale, scanning from the highest precedence down.
pub proof fn lemma_merged_term_is_first(chain: Seq<Locale>, k: Seq<char>)
    ensures
        match chain_term_lookup(chain, k) {
            Some(v) => terms_map_of(concat_terms(chain)).contains_key(k) && terms_map_of(
                concat_terms(chain),
            )[k] == v,
            None => !terms_map_of(concat_terms(chain)).contains_key(k),
        },
    decreases chain.len(),
{
    if chain.len() == 0 {
        assert(term_pairs(concat_terms(chain)) =~= Seq::<(Seq<char>, Seq<char>)>::empty());
    } else {
        let a = term_pairs(chain.first().terms@);
        let b = term_pairs(concat_terms(chain.drop_first()));
        assert(term_pairs(concat_terms(chain)) =~= a + b);
        lemma_pairs_concat(a, b);
        lemma_merged_term_is_first(chain.drop_first(), k);
    }
}

} // verus!
