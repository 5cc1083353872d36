use citeproc::cite::{Cite, CiteContext};
use citeproc::locale::LocaleFetcher;
use citeproc::locale::{Lang, Locale, LocaleOptionsNode, LocaleSource, merged_from_chain};
use citeproc::names::{Name, PersonName};
use citeproc::numeric::{parse_numeric, int_to_string, roman_to_string, ordinal_suffix, NumericValue};
use citeproc::output::OutputFormat;
use citeproc::reference::{DateValue, Reference};
use citeproc::style::{
    AnyVariable, CslType, Form, LabelVariable, NumberVariable, NameVariable, Position, Variable,
};

fn empty_locale() -> Locale {
    Locale {
        lang: None,
        options_node: LocaleOptionsNode {
            limit_day_ordinals_to_day_1: None,
            punctuation_in_quote: None,
        },
        terms: Vec::new(),
    }
}

fn person(family: &str) -> Name {
    Name::Person(PersonName {
        family: Some(family.to_string()),
        given: None,
        non_dropping_particle: None,
        dropping_particle: None,
        suffix: None,
    })
}

fn basic_ref(id: &str) -> Reference {
    Reference {
        id: id.to_string(),
        csl_type: CslType::Book,
        language: None,
        ordinary: Vec::new(),
        number: Vec::new(),
        name: Vec::new(),
        date: Vec::new(),
    }
}

#[test]
fn form_from_str_accepts_the_plain_forms() {
    assert_eq!(Form::from_str("long").unwrap(), Form::Long);
    assert_eq!(Form::from_str("short").unwrap(), Form::Short);
    assert_eq!(Form::from_str("count").unwrap(), Form::Count);
    assert_eq!(Form::from_str("symbol").unwrap(), Form::Symbol);
    let e = Form::from_str("verb").unwrap_err();
    assert_eq!(e.value, "verb");
}

#[test]
fn form_from_str_names_accepts_verb_forms() {
    assert_eq!(Form::from_str_names("verb").unwrap(), Form::Verb);
    assert_eq!(Form::from_str_names("verb-short").unwrap(), Form::VerbShort);
    assert_eq!(Form::from_str_names("long").unwrap(), Form::Long);
    assert!(Form::from_str_names("bogus").is_err());
}

#[test]
fn any_variable_tries_each_namespace() {
    assert_eq!(
        AnyVariable::from_str("title").unwrap(),
        AnyVariable::Ordinary(Variable::Title)
    );
    assert_eq!(
        AnyVariable::from_str("author").unwrap(),
        AnyVariable::Name(NameVariable::Author)
    );
    assert_eq!(
        AnyVariable::from_str("issued").unwrap(),
        AnyVariable::Date(citeproc::style::DateVariable::Issued)
    );
    assert_eq!(
        AnyVariable::from_str("page").unwrap(),
        AnyVariable::Number(NumberVariable::Page)
    );
    let e = AnyVariable::from_str("no-such-variable").unwrap_err();
    assert_eq!(e.value, "no-such-variable");
}

#[test]
fn label_variable_from_str_prefers_locator_and_page() {
    assert_eq!(LabelVariable::from_str("locator").unwrap(), LabelVariable::Locator);
    assert_eq!(LabelVariable::from_str("page").unwrap(), LabelVariable::Page);
    assert_eq!(
        LabelVariable::from_str("volume").unwrap(),
        LabelVariable::Number(NumberVariable::Volume)
    );
    assert!(LabelVariable::from_str("nonsense").is_err());
}

#[test]
fn numeric_parse_classifies_values() {
    assert_eq!(parse_numeric("42"), NumericValue::Number(42));
    assert_eq!(parse_numeric("32-40"), NumericValue::Range(32, 40));
    assert_eq!(parse_numeric("32\u{2013}40"), NumericValue::Range(32, 40));
    assert_eq!(parse_numeric("2A"), NumericValue::Affixed("2A".to_string()));
    assert_eq!(parse_numeric("foreword"), NumericValue::Literal("foreword".to_string()));
    assert_eq!(parse_numeric(""), NumericValue::Literal(String::new()));
    assert_eq!(
        parse_numeric("12345678901"),
        NumericValue::Literal("12345678901".to_string())
    );
}

#[test]
fn numeric_is_numeric_and_page_first() {
    assert!(parse_numeric("7").is_numeric());
    assert!(parse_numeric("32-40").is_numeric());
    assert!(parse_numeric("2A").is_numeric());
    assert!(!parse_numeric("foreword").is_numeric());
    assert_eq!(
        parse_numeric("32-40").page_first(),
        Some(NumericValue::Number(32))
    );
    assert_eq!(parse_numeric("foreword").page_first(), None);
}

#[test]
fn number_rendering_forms() {
    assert_eq!(int_to_string(2020), "2020".to_string());
    assert_eq!(int_to_string(-5), "-5".to_string());
    assert_eq!(int_to_string(0), "0".to_string());
    assert_eq!(roman_to_string(1984), "mcmlxxxiv".to_string());
    assert_eq!(roman_to_string(4), "iv".to_string());
    assert_eq!(ordinal_suffix(1), "st");
    assert_eq!(ordinal_suffix(2), "nd");
    assert_eq!(ordinal_suffix(3), "rd");
    assert_eq!(ordinal_suffix(11), "th");
    assert_eq!(ordinal_suffix(23), "rd");
}

#[test]
fn lang_chain_walks_the_fallbacks() {
    let chain: Vec<String> = Lang("de-AT".to_string())
        .chain()
        .into_iter()
        .map(|l| l.0)
        .collect();
    assert_eq!(chain, vec!["de-AT", "de-DE", "de", "en-US"]);
    let chain: Vec<String> = Lang("fr-CA".to_string())
        .chain()
        .into_iter()
        .map(|l| l.0)
        .collect();
    assert_eq!(chain, vec!["fr-CA", "fr-FR", "fr", "en-US"]);
    let chain: Vec<String> = Lang("en-US".to_string())
        .chain()
        .into_iter()
        .map(|l| l.0)
        .collect();
    assert_eq!(chain, vec!["en-US", "en"]);
    let chain: Vec<String> = Lang("en-GB".to_string())
        .chain()
        .into_iter()
        .map(|l| l.0)
        .collect();
    assert_eq!(chain, vec!["en-GB", "en-US", "en"]);
}

#[test]
fn lang_iter_yields_inline_then_file_sources() {
    let sources = Lang("fr".to_string()).iter();
    assert_eq!(sources.len(), 2 * 3 + 1);
    assert_eq!(sources[0], LocaleSource::Inline(Some(Lang("fr".to_string()))));
    assert_eq!(sources[1], LocaleSource::File(Lang("fr".to_string())));
    assert_eq!(sources[6], LocaleSource::Inline(None));
}

#[test]
fn locale_merge_prefers_the_first_some() {
    // The merged chain takes each field from the first locale that sets
    // it, scanning from the highest precedence down.
    let mut a = empty_locale();
    a.terms.push(("edition".to_string(), "ed. (fr)".to_string()));
    a.options_node.punctuation_in_quote = Some(true);
    let mut b = empty_locale();
    b.terms.push(("edition".to_string(), "ed.".to_string()));
    b.terms.push(("and".to_string(), "and".to_string()));
    b.options_node.punctuation_in_quote = Some(false);
    b.options_node.limit_day_ordinals_to_day_1 = Some(true);
    let merged = merged_from_chain(&vec![a, b]);
    assert_eq!(merged.get_term("edition").unwrap().as_str(), "ed. (fr)");
    assert_eq!(merged.get_term("and").unwrap().as_str(), "and");
    assert_eq!(merged.get_term("missing"), None);
    assert_eq!(merged.options_node.punctuation_in_quote, Some(true));
    assert_eq!(merged.options_node.limit_day_ordinals_to_day_1, Some(true));
}

#[test]
fn empty_chain_merges_to_the_default_locale() {
    let merged = merged_from_chain(&Vec::new());
    assert!(merged.lang.is_none());
    assert!(merged.terms.is_empty());
    assert_eq!(merged.options_node.punctuation_in_quote, None);
}

#[test]
fn cite_context_has_variable_and_page_first() {
    // page = "32-40": is-numeric on page-first matches; a literal page
    // does not.
    let style = citeproc::style::Style {
        class: citeproc::style::StyleClass::InText,
        default_locale: Lang("en-US".to_string()),
        macros: Vec::new(),
        citation: citeproc::style::Citation {
            disambiguate_add_names: false,
            disambiguate_add_givenname: false,
            givenname_disambiguation_rule:
                citeproc::style::GivenNameDisambiguationRule::ByCite,
            disambiguate_add_year_suffix: false,
            layout: citeproc::style::Layout {
                formatting: citeproc::style::Formatting::default(),
                affixes: citeproc::style::Affixes::default(),
                delimiter: citeproc::style::Delimiter(String::new()),
                elements: Vec::new(),
            },
        },
        info: citeproc::style::Info {},
    };
    let mut r = basic_ref("r1");
    r.number.push((NumberVariable::Page, parse_numeric("32\u{2013}40")));
    let cite = Cite::basic(1, "r1");
    let ctx = CiteContext {
        style: &style,
        reference: &r,
        cite: &cite,
        format: OutputFormat::Plain,
        position: Position::First,
        citation_number: 1,
    };
    assert!(ctx.has_variable(&AnyVariable::Number(NumberVariable::Page)));
    assert!(ctx.has_variable(&AnyVariable::Number(NumberVariable::PageFirst)));
    assert!(ctx.is_numeric(&AnyVariable::Number(NumberVariable::PageFirst)));
    assert_eq!(
        ctx.get_number(&NumberVariable::PageFirst),
        Some(NumericValue::Number(32))
    );
    assert!(!ctx.has_variable(&AnyVariable::Number(NumberVariable::Locator)));
    assert!(!ctx.has_variable(&AnyVariable::Name(NameVariable::Dummy)));

    let mut r2 = basic_ref("r2");
    r2.number.push((NumberVariable::Page, parse_numeric("foreword")));
    let cite2 = Cite::basic(2, "r2");
    let ctx2 = CiteContext {
        style: &style,
        reference: &r2,
        cite: &cite2,
        format: OutputFormat::Plain,
        position: Position::First,
        citation_number: 1,
    };
    assert!(!ctx2.is_numeric(&AnyVariable::Number(NumberVariable::PageFirst)));
    assert!(!ctx2.has_variable(&AnyVariable::Number(NumberVariable::PageFirst)));
}

#[test]
fn cite_context_reads_locator_from_the_cite() {
    let style = citeproc::style::Style {
        class: citeproc::style::StyleClass::Note,
        default_locale: Lang("en-US".to_string()),
        macros: Vec::new(),
        citation: citeproc::style::Citation {
            disambiguate_add_names: false,
            disambiguate_add_givenname: false,
            givenname_disambiguation_rule:
                citeproc::style::GivenNameDisambiguationRule::ByCite,
            disambiguate_add_year_suffix: false,
            layout: citeproc::style::Layout {
                formatting: citeproc::style::Formatting::default(),
                affixes: citeproc::style::Affixes::default(),
                delimiter: citeproc::style::Delimiter(String::new()),
                elements: Vec::new(),
            },
        },
        info: citeproc::style::Info {},
    };
    let r = basic_ref("r1");
    let mut cite = Cite::basic(1, "r1");
    cite.locator = Some(NumericValue::Number(12));
    let ctx = CiteContext {
        style: &style,
        reference: &r,
        cite: &cite,
        format: OutputFormat::Plain,
        position: Position::First,
        citation_number: 1,
    };
    assert!(ctx.has_variable(&AnyVariable::Number(NumberVariable::Locator)));
    assert_eq!(ctx.get_number(&NumberVariable::Locator), Some(NumericValue::Number(12)));
}

#[test]
fn reference_name_lookup_skips_dummy() {
    let style = citeproc::style::Style {
        class: citeproc::style::StyleClass::InText,
        default_locale: Lang("en-US".to_string()),
        macros: Vec::new(),
        citation: citeproc::style::Citation {
            disambiguate_add_names: false,
            disambiguate_add_givenname: false,
            givenname_disambiguation_rule:
                citeproc::style::GivenNameDisambiguationRule::ByCite,
            disambiguate_add_year_suffix: false,
            layout: citeproc::style::Layout {
                formatting: citeproc::style::Formatting::default(),
                affixes: citeproc::style::Affixes::default(),
                delimiter: citeproc::style::Delimiter(String::new()),
                elements: Vec::new(),
            },
        },
        info: citeproc::style::Info {},
    };
    let mut r = basic_ref("r1");
    r.name.push((NameVariable::Author, vec![person("Smith")]));
    let cite = Cite::basic(1, "r1");
    let ctx = CiteContext {
        style: &style,
        reference: &r,
        cite: &cite,
        format: OutputFormat::Plain,
        position: Position::First,
        citation_number: 1,
    };
    assert!(ctx.get_name(&NameVariable::Author).is_some());
    assert!(ctx.get_name(&NameVariable::Dummy).is_none());
    assert!(r.has_variable(&AnyVariable::Name(NameVariable::Author)));
    assert!(!r.has_variable(&AnyVariable::Name(NameVariable::Editor)));
}

#[test]
fn date_values_support_uncertainty() {
    let mut r = basic_ref("r1");
    r.date.push((
        citeproc::style::DateVariable::Issued,
        DateValue { year: 2020, month: 5, day: 1, uncertain: true },
    ));
    let d = r.date_get(citeproc::style::DateVariable::Issued).unwrap();
    assert_eq!(d.year, 2020);
    assert!(d.uncertain);
    assert!(r.date_get(citeproc::style::DateVariable::Accessed).is_none());
}

#[test]
fn name_family_and_given_strings() {
    let n = person("Smith");
    assert_eq!(n.family_str(), "Smith");
    assert_eq!(n.given_str(), "");
    let lit = Name::Literal { literal: "UNESCO".to_string() };
    assert_eq!(lit.family_str(), "UNESCO");
    let full = Name::Person(PersonName {
        family: Some("Curie".to_string()),
        given: Some("Marie".to_string()),
        non_dropping_particle: None,
        dropping_particle: None,
        suffix: None,
    });
    assert_eq!(full.family_str(), "Curie");
    assert_eq!(full.given_str(), "Marie");
}

#[test]
fn range_delimiter_round_trip() {
    let d = citeproc::style::RangeDelimiter::from_str("\u{2013}").unwrap();
    assert_eq!(d.as_ref(), "\u{2013}");
    let dflt = citeproc::style::RangeDelimiter::default();
    assert_eq!(dflt.as_ref(), "");
}

#[test]
fn add_names_expands_until_lists_differ() {
    // Two cites share the first family but differ later: one round of
    // add-names expands both, and the fixed point is reached.
    let lists = vec![
        vec![person("Smith"), person("Jones")],
        vec![person("Smith"), person("Brown")],
    ];
    let (shown, rounds) = citeproc::disamb::add_names(&lists, 1);
    assert_eq!(shown, vec![2, 2]);
    assert_eq!(rounds, 1);

    // Identical lists cannot be told apart and are left alone.
    let same = vec![vec![person("Smith")], vec![person("Smith")]];
    let (shown, rounds) = citeproc::disamb::add_names(&same, 1);
    assert_eq!(shown, vec![1, 1]);
    assert_eq!(rounds, 0);
}

#[test]
fn predefined_locales_fetch_by_tag() {
    let store = citeproc::locale::PredefinedLocales(vec![(Lang("fr-FR".to_string()), "edition=\u{e9}d.".to_string())]);
    assert_eq!(
        store.fetch_string(&Lang("fr-FR".to_string())).unwrap(),
        Some("edition=\u{e9}d.".to_string())
    );
    assert_eq!(store.fetch_string(&Lang("de".to_string())).unwrap(), None);
    let e = citeproc::locale::LocaleFetchError::from("socket closed".to_string());
    assert_eq!(e, citeproc::locale::LocaleFetchError::Other("socket closed".to_string()));
}
