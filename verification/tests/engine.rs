use citeproc::cite::Cite;
use citeproc::engine::{InputCluster, Processor};
use citeproc::locale::{Lang, Locale, LocaleOptionsNode};
use citeproc::names::{Name, PersonName};
use citeproc::numeric::NumericValue;
use citeproc::output::OutputFormat;
use citeproc::reference::{DateValue, Reference};
use citeproc::style::{
    Affixes, Citation, Condition, CslType, Date, DateForm, DateParts, DateVariable, Delimiter,
    Element, Else, Form, Formatting, GivenNameDisambiguationRule, IfThen, Info, Layout, Match,
    NameVariable, NumberVariable, NumericForm, Plural, Position, Style, StyleClass,
};

fn fmt() -> Formatting {
    Formatting::default()
}

fn af() -> Affixes {
    Affixes::default()
}

fn cond_default() -> Condition {
    Condition {
        match_type: Match::Any,
        disambiguate: false,
        is_numeric: Vec::new(),
        variable: Vec::new(),
        position: Vec::new(),
        csl_type: Vec::new(),
        locator: Vec::new(),
        is_uncertain_date: Vec::new(),
    }
}

fn style_of(elements: Vec<Element>, year_suffix: bool) -> Style {
    Style {
        class: StyleClass::InText,
        default_locale: Lang("en-US".to_string()),
        macros: Vec::new(),
        citation: Citation {
            disambiguate_add_names: false,
            disambiguate_add_givenname: false,
            givenname_disambiguation_rule: GivenNameDisambiguationRule::ByCite,
            disambiguate_add_year_suffix: year_suffix,
            layout: Layout {
                formatting: fmt(),
                affixes: af(),
                delimiter: Delimiter("; ".to_string()),
                elements,
            },
        },
        info: Info {},
    }
}

fn author_year_elements() -> Vec<Element> {
    vec![
        Element::Names(
            vec![NameVariable::Author],
            Vec::new(),
            None,
            fmt(),
            Delimiter(", ".to_string()),
            None,
        ),
        Element::Const(" ".to_string(), fmt(), af(), false),
        Element::Date(Date {
            variable: DateVariable::Issued,
            form: DateForm::NotSet,
            date_parts_attr: DateParts::Year,
            date_parts: Vec::new(),
            delimiter: Delimiter("-".to_string()),
            affixes: af(),
            formatting: fmt(),
        }),
    ]
}

fn author_ref(id: &str, family: &str, year: i32) -> Reference {
    Reference {
        id: id.to_string(),
        csl_type: CslType::Book,
        language: None,
        ordinary: Vec::new(),
        number: Vec::new(),
        name: vec![(
            NameVariable::Author,
            vec![Name::Person(PersonName {
                family: Some(family.to_string()),
                given: None,
                non_dropping_particle: None,
                dropping_particle: None,
                suffix: None,
            })],
        )],
        date: vec![(
            DateVariable::Issued,
            DateValue { year, month: 0, day: 0, uncertain: false },
        )],
    }
}

fn one_cite_cluster(cluster_id: u32, cite_id: u32, ref_id: &str) -> InputCluster {
    InputCluster {
        id: cluster_id,
        cites: vec![Cite::basic(cite_id, ref_id)],
        note_number: cluster_id,
    }
}

#[test]
fn renders_author_year_cluster() {
    let mut p = Processor::new(style_of(author_year_elements(), false), OutputFormat::Plain, true);
    p.set_references(vec![author_ref("smith2020", "Smith", 2020)]);
    p.init_clusters(vec![one_cite_cluster(1, 1, "smith2020")]);
    assert_eq!(p.get_cluster(1).unwrap(), "Smith 2020");
    assert_eq!(p.get_cluster(9), None);
}

#[test]
fn layout_delimiter_joins_cites() {
    let mut p = Processor::new(style_of(author_year_elements(), false), OutputFormat::Plain, true);
    p.set_references(vec![
        author_ref("a", "Able", 2001),
        author_ref("b", "Baker", 2002),
    ]);
    p.init_clusters(vec![InputCluster {
        id: 1,
        cites: vec![Cite::basic(1, "a"), Cite::basic(2, "b")],
        note_number: 1,
    }]);
    assert_eq!(p.get_cluster(1).unwrap(), "Able 2001; Baker 2002");
}

#[test]
fn ibid_positions_within_a_cluster() {
    // Two consecutive cites of the same record: the second is ibid, and
    // giving it a locator makes it ibid-with-locator.
    let elements = vec![Element::Choose(
        IfThen(
            Condition { position: vec![Position::IbidWithLocator], ..cond_default() },
            vec![Element::Const("ibid-loc".to_string(), fmt(), af(), false)],
        ),
        vec![IfThen(
            Condition { position: vec![Position::Ibid], ..cond_default() },
            vec![Element::Const("ibid".to_string(), fmt(), af(), false)],
        )],
        Else(author_year_elements()),
    )];
    let mut p = Processor::new(style_of(elements, false), OutputFormat::Plain, true);
    p.set_references(vec![author_ref("smith2020", "Smith", 2020)]);
    p.init_clusters(vec![InputCluster {
        id: 1,
        cites: vec![Cite::basic(1, "smith2020"), Cite::basic(2, "smith2020")],
        note_number: 1,
    }]);
    assert_eq!(p.get_cluster(1).unwrap(), "Smith 2020; ibid");

    let mut with_loc = Cite::basic(2, "smith2020");
    with_loc.locator = Some(NumericValue::Number(44));
    p.replace_cluster(InputCluster {
        id: 1,
        cites: vec![Cite::basic(1, "smith2020"), with_loc],
        note_number: 1,
    });
    assert_eq!(p.get_cluster(1).unwrap(), "Smith 2020; ibid-loc");
}

#[test]
fn subsequent_position_across_clusters() {
    let elements = vec![Element::Choose(
        IfThen(
            Condition { position: vec![Position::Subsequent], ..cond_default() },
            vec![Element::Const("again".to_string(), fmt(), af(), false)],
        ),
        Vec::new(),
        Else(author_year_elements()),
    )];
    let mut p = Processor::new(style_of(elements, false), OutputFormat::Plain, true);
    p.set_references(vec![author_ref("smith2020", "Smith", 2020)]);
    p.init_clusters(vec![
        one_cite_cluster(1, 1, "smith2020"),
        InputCluster {
            id: 2,
            cites: vec![Cite::basic(2, "smith2020")],
            // Far away, past the near-note distance.
            note_number: 40,
        },
    ]);
    assert_eq!(p.get_cluster(1).unwrap(), "Smith 2020");
    assert_eq!(p.get_cluster(2).unwrap(), "again");
}

#[test]
fn locale_fallback_merges_over_bundled_english() {
    // Style default fr-CA, no fr-CA stored, only fr-FR: the merged locale
    // takes fr-FR's terms, and terms absent from fr-FR come from en-US.
    let mut fr = Locale {
        lang: Some(Lang("fr-FR".to_string())),
        options_node: LocaleOptionsNode {
            limit_day_ordinals_to_day_1: None,
            punctuation_in_quote: None,
        },
        terms: Vec::new(),
    };
    fr.terms.push(("edition".to_string(), "\u{e9}dition".to_string()));
    let mut en = Locale {
        lang: Some(Lang("en-US".to_string())),
        options_node: LocaleOptionsNode {
            limit_day_ordinals_to_day_1: None,
            punctuation_in_quote: Some(true),
        },
        terms: Vec::new(),
    };
    en.terms.push(("edition".to_string(), "edition".to_string()));
    en.terms.push(("and".to_string(), "and".to_string()));
    let style = style_of(Vec::new(), false);
    let mut p = Processor::new(
        Style { default_locale: Lang("fr-CA".to_string()), ..style },
        OutputFormat::Plain,
        false,
    );
    p.store_locales(vec![
        (Lang("fr-FR".to_string()), fr),
        (Lang("en-US".to_string()), en),
    ]);
    assert!(p.has_cached_locale(&Lang("fr-FR".to_string())));
    assert!(!p.has_cached_locale(&Lang("fr-CA".to_string())));
    let merged = p.merged_locale(&Lang("fr-CA".to_string()));
    assert_eq!(merged.get_term("edition").unwrap().as_str(), "\u{e9}dition");
    assert_eq!(merged.get_term("and").unwrap().as_str(), "and");
    let opts = p.locale_options(&Lang("fr-CA".to_string()));
    assert!(opts.punctuation_in_quote);
    assert!(!opts.limit_day_ordinals_to_day_1);
}

#[test]
fn year_suffixes_disambiguate_same_author_year() {
    // Two records by Smith dated 2020, cited separately: the first
    // renders with suffix a, the second with b; a third makes c.
    let mut p = Processor::new(style_of(author_year_elements(), true), OutputFormat::Plain, true);
    p.set_references(vec![
        author_ref("smith-a", "Smith", 2020),
        author_ref("smith-b", "Smith", 2020),
    ]);
    p.init_clusters(vec![
        one_cite_cluster(1, 1, "smith-a"),
        one_cite_cluster(2, 2, "smith-b"),
    ]);
    assert_eq!(p.get_cluster(1).unwrap(), "Smith 2020a");
    assert_eq!(p.get_cluster(2).unwrap(), "Smith 2020b");

    p.insert_reference(author_ref("smith-c", "Smith", 2020));
    p.replace_cluster(one_cite_cluster(3, 3, "smith-c"));
    assert_eq!(p.get_cluster(3).unwrap(), "Smith 2020c");
    // A different year stays unsuffixed.
    p.insert_reference(author_ref("smith-d", "Smith", 2021));
    p.replace_cluster(one_cite_cluster(4, 4, "smith-d"));
    assert_eq!(p.get_cluster(4).unwrap(), "Smith 2021");
}

#[test]
fn group_voiding_needs_a_nonempty_variable() {
    // A group "(" volume ":" issue ")": with neither variable it renders
    // nothing; with only the volume it renders "(1)".
    let inner = Element::Group(
        fmt(),
        Delimiter(":".to_string()),
        vec![
            Element::Number(NumberVariable::Volume, NumericForm::Numeric, fmt(), af(), Plural::Contextual),
            Element::Number(NumberVariable::Issue, NumericForm::Numeric, fmt(), af(), Plural::Contextual),
        ],
    );
    let outer = Element::Group(
        fmt(),
        Delimiter(String::new()),
        vec![
            Element::Const("(".to_string(), fmt(), af(), false),
            inner,
            Element::Const(")".to_string(), fmt(), af(), false),
        ],
    );
    let mut p = Processor::new(style_of(vec![outer], false), OutputFormat::Plain, true);
    let mut bare = author_ref("bare", "Smith", 2020);
    bare.name.clear();
    bare.date.clear();
    let mut with_vol = author_ref("with-vol", "Smith", 2020);
    with_vol.name.clear();
    with_vol.date.clear();
    with_vol.number.push((NumberVariable::Volume, NumericValue::Number(1)));
    let mut with_both = author_ref("with-both", "Smith", 2020);
    with_both.name.clear();
    with_both.date.clear();
    with_both.number.push((NumberVariable::Volume, NumericValue::Number(1)));
    with_both.number.push((NumberVariable::Issue, NumericValue::Number(2)));
    p.set_references(vec![bare, with_vol, with_both]);
    p.init_clusters(vec![
        one_cite_cluster(1, 1, "bare"),
        one_cite_cluster(2, 2, "with-vol"),
        one_cite_cluster(3, 3, "with-both"),
    ]);
    assert_eq!(p.get_cluster(1).unwrap(), "");
    assert_eq!(p.get_cluster(2).unwrap(), "(1)");
    assert_eq!(p.get_cluster(3).unwrap(), "(1:2)");
}

#[test]
fn update_summary_names_exactly_the_changed_cluster() {
    // After computing many clusters, changing one cite's locator reports
    // exactly the affected cluster id.
    let elements = vec![
        Element::Names(
            vec![NameVariable::Author],
            Vec::new(),
            None,
            fmt(),
            Delimiter(", ".to_string()),
            None,
        ),
        Element::Number(NumberVariable::Locator, NumericForm::Numeric, fmt(),
            Affixes { prefix: ", p. ".to_string(), suffix: String::new() }, Plural::Contextual),
    ];
    let mut p = Processor::new(style_of(elements, false), OutputFormat::Plain, true);
    let mut refs = Vec::new();
    let mut clusters = Vec::new();
    for i in 0..20u32 {
        let id = format!("ref-{}", i);
        refs.push(author_ref(&id, &format!("Author{}", i), 2000 + i as i32));
        clusters.push(one_cite_cluster(i + 1, i + 1, &id));
    }
    p.set_references(refs);
    p.init_clusters(clusters);
    let first = p.batched_updates();
    assert_eq!(first.clusters.len(), 20);

    // No edits: nothing to report.
    let quiet = p.batched_updates();
    assert!(quiet.clusters.is_empty());

    // Change one locator.
    let mut cite = Cite::basic(8, "ref-7");
    cite.locator = Some(NumericValue::Number(99));
    p.replace_cluster(InputCluster { id: 8, cites: vec![cite], note_number: 8 });
    let upd = p.batched_updates();
    assert_eq!(upd.clusters, vec![8]);
    assert_eq!(p.get_cluster(8).unwrap(), "Author7, p. 99");
}

#[test]
fn equal_writes_are_cut_off_early() {
    // Rewriting an input to an equal value leaves the processor untouched
    // and the update summary empty.
    let mut p = Processor::new(style_of(author_year_elements(), false), OutputFormat::Plain, true);
    p.set_references(vec![author_ref("smith2020", "Smith", 2020)]);
    p.init_clusters(vec![one_cite_cluster(1, 1, "smith2020")]);
    p.drain();

    p.set_references(vec![author_ref("smith2020", "Smith", 2020)]);
    p.insert_reference(author_ref("smith2020", "Smith", 2020));
    let upd = p.batched_updates();
    assert!(upd.clusters.is_empty());

    // A genuinely different value does re-render.
    p.insert_reference(author_ref("smith2020", "Smithe", 2020));
    let upd = p.batched_updates();
    assert_eq!(upd.clusters, vec![1]);
    assert_eq!(p.get_cluster(1).unwrap(), "Smithe 2020");
}

#[test]
fn incremental_matches_fresh_processor() {
    // A sequence of edits, then compute: each cluster's output equals the
    // output of a fresh processor built from the final state.
    let mut p = Processor::new(style_of(author_year_elements(), false), OutputFormat::Plain, true);
    p.set_references(vec![author_ref("a", "Able", 2001)]);
    p.init_clusters(vec![one_cite_cluster(1, 1, "a")]);
    p.drain();
    p.insert_reference(author_ref("b", "Baker", 2002));
    p.replace_cluster(one_cite_cluster(2, 2, "b"));
    p.insert_reference(author_ref("a", "Abel", 2001));
    p.compute();

    let mut fresh = Processor::new(
        style_of(author_year_elements(), false),
        OutputFormat::Plain,
        true,
    );
    fresh.set_references(vec![author_ref("a", "Abel", 2001), author_ref("b", "Baker", 2002)]);
    fresh.init_clusters(vec![one_cite_cluster(1, 1, "a"), one_cite_cluster(2, 2, "b")]);
    assert_eq!(p.get_cluster(1), fresh.get_cluster(1));
    assert_eq!(p.get_cluster(2), fresh.get_cluster(2));
    assert_eq!(p.get_cluster(1).unwrap(), "Abel 2001");
}

fn bold_title_elements() -> Vec<Element> {
    let bold = Formatting { font_weight: citeproc::style::FontWeight::Bold, ..fmt() };
    vec![Element::Const("Title".to_string(), bold, af(), false)]
}

#[test]
fn html_and_rtf_formats_wrap_markup() {
    let mut p = Processor::new(style_of(bold_title_elements(), false), OutputFormat::Html, false);
    p.set_references(vec![author_ref("x", "Able", 2000)]);
    p.init_clusters(vec![InputCluster { id: 1, cites: vec![Cite::basic(1, "x")], note_number: 1 }]);
    assert_eq!(p.get_cluster(1).unwrap(), "<b>Title</b>");

    let mut p2 = Processor::new(style_of(bold_title_elements(), false), OutputFormat::Rtf, false);
    p2.set_references(vec![author_ref("x", "Able", 2000)]);
    p2.init_clusters(vec![InputCluster { id: 1, cites: vec![Cite::basic(1, "x")], note_number: 1 }]);
    assert_eq!(p2.get_cluster(1).unwrap(), "{\\b Title}");
}

#[test]
fn macros_terms_and_substitutes_render() {
    let style = Style {
        class: StyleClass::InText,
        default_locale: Lang("en-US".to_string()),
        macros: vec![citeproc::style::MacroMap {
            name: "year".to_string(),
            elements: vec![Element::Date(Date {
                variable: DateVariable::Issued,
                form: DateForm::NotSet,
                date_parts_attr: DateParts::Year,
                date_parts: Vec::new(),
                delimiter: Delimiter("-".to_string()),
                affixes: af(),
                formatting: fmt(),
            })],
        }],
        citation: Citation {
            disambiguate_add_names: false,
            disambiguate_add_givenname: false,
            givenname_disambiguation_rule: GivenNameDisambiguationRule::ByCite,
            disambiguate_add_year_suffix: false,
            layout: Layout {
                formatting: fmt(),
                affixes: Affixes { prefix: "[".to_string(), suffix: "]".to_string() },
                delimiter: Delimiter("; ".to_string()),
                elements: vec![
                    Element::Names(
                        vec![NameVariable::Author],
                        Vec::new(),
                        None,
                        fmt(),
                        Delimiter(", ".to_string()),
                        Some(citeproc::style::Substitute(vec![Element::Variable(
                            citeproc::style::Variable::Title,
                            fmt(),
                            af(),
                            Form::Long,
                            Delimiter(String::new()),
                            false,
                        )])),
                    ),
                    Element::Const(" ".to_string(), fmt(), af(), false),
                    Element::Macro("year".to_string(), fmt(), af(), false),
                ],
            },
        },
        info: Info {},
    };
    let mut anon = author_ref("anon", "Smith", 1999);
    anon.name.clear();
    anon.ordinary.push((citeproc::style::Variable::Title, "Handbook".to_string()));
    let mut p = Processor::new(style, OutputFormat::Plain, false);
    p.set_references(vec![anon]);
    p.init_clusters(vec![one_cite_cluster(1, 1, "anon")]);
    // The substitute fills in for the missing author, the macro renders
    // the year, and the layout affixes wrap the cluster.
    assert_eq!(p.get_cluster(1).unwrap(), "[Handbook 1999]");
}

#[test]
fn et_al_truncates_long_name_lists() {
    let name_opts = citeproc::style::Name {
        et_al_min: 3,
        et_al_use_first: 1,
        ..citeproc::style::Name::root_default()
    };
    let elements = vec![Element::Names(
        vec![NameVariable::Author],
        vec![name_opts],
        None,
        fmt(),
        Delimiter("; ".to_string()),
        None,
    )];
    let mut r = author_ref("many", "One", 2020);
    r.name.clear();
    r.name.push((
        NameVariable::Author,
        vec![
            Name::Person(PersonName {
                family: Some("One".to_string()),
                given: None,
                non_dropping_particle: None,
                dropping_particle: None,
                suffix: None,
            }),
            Name::Person(PersonName {
                family: Some("Two".to_string()),
                given: None,
                non_dropping_particle: None,
                dropping_particle: None,
                suffix: None,
            }),
            Name::Person(PersonName {
                family: Some("Three".to_string()),
                given: None,
                non_dropping_particle: None,
                dropping_particle: None,
                suffix: None,
            }),
        ],
    ));
    let mut p = Processor::new(style_of(elements, false), OutputFormat::Plain, false);
    p.set_references(vec![r]);
    p.init_clusters(vec![one_cite_cluster(1, 1, "many")]);
    assert_eq!(p.get_cluster(1).unwrap(), "One, et al.");
}

#[test]
fn removing_and_renumbering_clusters() {
    let mut p = Processor::new(style_of(author_year_elements(), false), OutputFormat::Plain, true);
    p.set_references(vec![author_ref("a", "Able", 2001)]);
    p.init_clusters(vec![one_cite_cluster(1, 1, "a"), one_cite_cluster(2, 2, "a")]);
    p.remove_cluster(1);
    assert_eq!(p.get_cluster(1), None);
    assert!(p.get_cluster(2).is_some());
    p.renumber_clusters(&vec![2, 7]);
    assert!(p.get_cluster(2).is_some());
    let c = p.get_cite(2).unwrap();
    assert_eq!(c.ref_id, "a");
    assert!(p.get_reference("a").is_some());
    assert!(p.get_reference("zz").is_none());
}

#[test]
fn langs_in_use_start_with_the_default() {
    let mut p = Processor::new(style_of(Vec::new(), false), OutputFormat::Plain, false);
    let mut r = author_ref("a", "Able", 2001);
    r.language = Some(Lang("de-AT".to_string()));
    p.set_references(vec![r]);
    // The bundled root tag is left out; record languages follow the default.
    let langs: Vec<String> = p.get_langs_in_use().into_iter().map(|l| l.0).collect();
    assert_eq!(langs, vec!["de-AT"]);

    let mut q = Processor::new(
        {
            let mut s = style_of(Vec::new(), false);
            s.default_locale = Lang("fr-CA".to_string());
            s
        },
        OutputFormat::Plain,
        false,
    );
    let mut r1 = author_ref("a", "Able", 2001);
    r1.language = Some(Lang("de-AT".to_string()));
    let mut r2 = author_ref("b", "Baker", 2002);
    r2.language = Some(Lang("de-AT".to_string()));
    let mut r3 = author_ref("c", "Cade", 2003);
    r3.language = Some(Lang("en-US".to_string()));
    q.set_references(vec![r1, r2, r3]);
    let langs: Vec<String> = q.get_langs_in_use().into_iter().map(|l| l.0).collect();
    assert_eq!(langs, vec!["fr-CA", "de-AT"]);
}

fn person(family: &str, given: Option<&str>) -> Name {
    Name::Person(PersonName {
        family: Some(family.to_string()),
        given: given.map(|g| g.to_string()),
        non_dropping_particle: None,
        dropping_particle: None,
        suffix: None,
    })
}

fn team_ref(id: &str, authors: Vec<Name>, year: i32) -> Reference {
    Reference {
        id: id.to_string(),
        csl_type: CslType::Book,
        language: None,
        ordinary: Vec::new(),
        number: Vec::new(),
        name: vec![(NameVariable::Author, authors)],
        date: vec![(
            DateVariable::Issued,
            DateValue { year, month: 0, day: 0, uncertain: false },
        )],
    }
}

fn truncated_names_element(et_al_min: u32, use_first: u32) -> Element {
    let mut n = citeproc::style::Name::root_default();
    n.et_al_min = et_al_min;
    n.et_al_use_first = use_first;
    Element::Names(
        vec![NameVariable::Author],
        vec![n],
        None,
        fmt(),
        Delimiter(", ".to_string()),
        None,
    )
}

#[test]
fn add_names_expands_colliding_cites() {
    let mut style = style_of(vec![truncated_names_element(2, 1)], false);
    style.citation.disambiguate_add_names = true;
    let mut p = Processor::new(style, OutputFormat::Plain, false);
    p.set_references(vec![
        team_ref("a", vec![person("Doe", None), person("Roe", None)], 2001),
        team_ref("b", vec![person("Doe", None), person("Poe", None)], 2002),
    ]);
    p.init_clusters(vec![one_cite_cluster(1, 1, "a"), one_cite_cluster(2, 2, "b")]);
    assert_eq!(p.get_cluster(1).unwrap(), "Doe, Roe");
    assert_eq!(p.get_cluster(2).unwrap(), "Doe, Poe");
}

#[test]
fn without_add_names_colliding_cites_stay_truncated() {
    let style = style_of(vec![truncated_names_element(2, 1)], false);
    let mut p = Processor::new(style, OutputFormat::Plain, false);
    p.set_references(vec![
        team_ref("a", vec![person("Doe", None), person("Roe", None)], 2001),
        team_ref("b", vec![person("Doe", None), person("Poe", None)], 2002),
    ]);
    p.init_clusters(vec![one_cite_cluster(1, 1, "a"), one_cite_cluster(2, 2, "b")]);
    assert_eq!(p.get_cluster(1).unwrap(), "Doe, et al.");
    assert_eq!(p.get_cluster(2).unwrap(), "Doe, et al.");
}

#[test]
fn add_givenname_widens_short_names_and_fires_disambiguate() {
    let mut n = citeproc::style::Name::root_default();
    n.form = citeproc::style::NameForm::Short;
    let names_el = Element::Names(
        vec![NameVariable::Author],
        vec![n],
        None,
        fmt(),
        Delimiter(", ".to_string()),
        None,
    );
    let star = Element::Choose(
        IfThen(
            Condition { disambiguate: true, ..cond_default() },
            vec![Element::Const("*".to_string(), fmt(), af(), false)],
        ),
        Vec::new(),
        Else(Vec::new()),
    );
    let mut style = style_of(vec![names_el, star], false);
    style.citation.disambiguate_add_givenname = true;
    let mut p = Processor::new(style, OutputFormat::Plain, false);
    p.set_references(vec![
        team_ref("a", vec![person("Smith", Some("John"))], 2001),
        team_ref("b", vec![person("Smith", Some("Jane"))], 2002),
    ]);
    p.init_clusters(vec![one_cite_cluster(1, 1, "a"), one_cite_cluster(2, 2, "b")]);
    assert_eq!(p.get_cluster(1).unwrap(), "John Smith*");
    assert_eq!(p.get_cluster(2).unwrap(), "Jane Smith*");
}

#[test]
fn distinct_references_need_no_name_disambiguation() {
    let mut n = citeproc::style::Name::root_default();
    n.form = citeproc::style::NameForm::Short;
    let names_el = Element::Names(
        vec![NameVariable::Author],
        vec![n],
        None,
        fmt(),
        Delimiter(", ".to_string()),
        None,
    );
    let mut style = style_of(vec![names_el], false);
    style.citation.disambiguate_add_givenname = true;
    style.citation.disambiguate_add_names = true;
    let mut p = Processor::new(style, OutputFormat::Plain, false);
    p.set_references(vec![
        team_ref("a", vec![person("Smith", Some("John"))], 2001),
        team_ref("b", vec![person("Jones", Some("Jane"))], 2002),
    ]);
    p.init_clusters(vec![one_cite_cluster(1, 1, "a"), one_cite_cluster(2, 2, "b")]);
    assert_eq!(p.get_cluster(1).unwrap(), "Smith");
    assert_eq!(p.get_cluster(2).unwrap(), "Jones");
}
