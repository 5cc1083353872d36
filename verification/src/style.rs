//! The typed model of a parsed CSL style: variables, elements, formatting
//! attributes, and the attribute-value parsers used while reading a style.

use vstd::prelude::*;
use crate::locale::Lang;
use crate::strutil::str_eq;

verus! {

/// Error for an attribute whose value is not in the fixed enumeration.
#[derive(Debug, Clone, PartialEq, Eq)]
pub struct UnknownAttributeValue {
    pub value: String,
}

impl UnknownAttributeValue {
    pub fn new(s: &str) -> (r: Self)
        ensures
            r.value@ == s@,
    {
        UnknownAttributeValue { value: s.to_owned() }
    }
}

// ---------------------------------------------------------------------------
// Variable namespaces
// ---------------------------------------------------------------------------

/// Ordinary (plain string) variables.
#[derive(Debug, Clone, Copy, PartialEq, Eq, Structural)]
pub enum Variable {
    Title,
    ContainerTitle,
    CollectionTitle,
    Publisher,
    PublisherPlace,
    Event,
    Genre,
    Note,
    Status,
    Version,
}

/// Numeric variables, classified by the numeric value parser.
#[derive(Debug, Clone, Copy, PartialEq, Eq, Structural)]
pub enum NumberVariable {
    Locator,
    Page,
    PageFirst,
    Volume,
    Issue,
    Number,
    Edition,
    ChapterNumber,
    CollectionNumber,
    CitationNumber,
}

/// Name (contributor list) variables.
#[derive(Debug, Clone, Copy, PartialEq, Eq, Structural)]
pub enum NameVariable {
    Author,
    Editor,
    Translator,
    ContainerAuthor,
    Dummy,
}

/// Date variables.
#[derive(Debug, Clone, Copy, PartialEq, Eq, Structural)]
pub enum DateVariable {
    Issued,
    Accessed,
    EventDate,
    OriginalDate,
}

/// Locator types a cite may carry.
#[derive(Debug, Clone, Copy, PartialEq, Eq, Structural)]
pub enum LocatorType {
    Page,
    Chapter,
    Section,
    Volume,
    Issue,
    Paragraph,
    Figure,
    Note,
}

pub open spec fn spec_variable_from_str(s: Seq<char>) -> Option<Variable> {
    if s == "title"@ {
        Some(Variable::Title)
    } else if s == "container-title"@ {
        Some(Variable::ContainerTitle)
    } else if s == "collection-title"@ {
        Some(Variable::CollectionTitle)
    } else if s == "publisher"@ {
        Some(Variable::Publisher)
    } else if s == "publisher-place"@ {
        Some(Variable::PublisherPlace)
    } else if s == "event"@ {
        Some(Variable::Event)
    } else if s == "genre"@ {
        Some(Variable::Genre)
    } else if s == "note"@ {
        Some(Variable::Note)
    } else if s == "status"@ {
        Some(Variable::Status)
    } else if s == "version"@ {
        Some(Variable::Version)
    } else {
        None
    }
}

impl Variable {
    pub fn from_str(s: &str) -> (r: Result<Variable, UnknownAttributeValue>)
        ensures
            match r {
                Ok(v) => spec_variable_from_str(s@) == Some(v),
                Err(e) => spec_variable_from_str(s@) is None && e.value@ == s@,
            },
    {
        proof {
            reveal_strlit("title");
            reveal_strlit("container-title");
            reveal_strlit("collection-title");
            reveal_strlit("publisher");
            reveal_strlit("publisher-place");
            reveal_strlit("event");
            reveal_strlit("genre");
            reveal_strlit("note");
            reveal_strlit("status");
            reveal_strlit("version");
        }
        if str_eq(s, "title") {
            Ok(Variable::Title)
        } else if str_eq(s, "container-title") {
            Ok(Variable::ContainerTitle)
        } else if str_eq(s, "collection-title") {
            Ok(Variable::CollectionTitle)
        } else if str_eq(s, "publisher") {
            Ok(Variable::Publisher)
        } else if str_eq(s, "publisher-place") {
            Ok(Variable::PublisherPlace)
        } else if str_eq(s, "event") {
            Ok(Variable::Event)
        } else if str_eq(s, "genre") {
            Ok(Variable::Genre)
        } else if str_eq(s, "note") {
            Ok(Variable::Note)
        } else if str_eq(s, "status") {
            Ok(Variable::Status)
        } else if str_eq(s, "version") {
            Ok(Variable::Version)
        } else {
            Err(UnknownAttributeValue::new(s))
        }
    }
}

pub open spec fn spec_number_variable_from_str(s: Seq<char>) -> Option<NumberVariable> {
    if s == "locator"@ {
        Some(NumberVariable::Locator)
    } else if s == "page"@ {
        Some(NumberVariable::Page)
    } else if s == "page-first"@ {
        Some(NumberVariable::PageFirst)
    } else if s == "volume"@ {
        Some(NumberVariable::Volume)
    } else if s == "issue"@ {
        Some(NumberVariable::Issue)
    } else if s == "number"@ {
        Some(NumberVariable::Number)
    } else if s == "edition"@ {
        Some(NumberVariable::Edition)
    } else if s == "chapter-number"@ {
        Some(NumberVariable::ChapterNumber)
    } else if s == "collection-number"@ {
        Some(NumberVariable::CollectionNumber)
    } else if s == "citation-number"@ {
        Some(NumberVariable::CitationNumber)
    } else {
        None
    }
}

impl NumberVariable {
    pub fn from_str(s: &str) -> (r: Result<NumberVariable, UnknownAttributeValue>)
        ensures
            match r {
                Ok(v) => spec_number_variable_from_str(s@) == Some(v),
                Err(e) => spec_number_variable_from_str(s@) is None && e.value@ == s@,
            },
    {
        proof {
            reveal_strlit("locator");
            reveal_strlit("page");
            reveal_strlit("page-first");
            reveal_strlit("volume");
            reveal_strlit("issue");
            reveal_strlit("number");
            reveal_strlit("edition");
            reveal_strlit("chapter-number");
            reveal_strlit("collection-number");
            reveal_strlit("citation-number");
        }
        if str_eq(s, "locator") {
            Ok(NumberVariable::Locator)
        } else if str_eq(s, "page") {
            Ok(NumberVariable::Page)
        } else if str_eq(s, "page-first") {
            Ok(NumberVariable::PageFirst)
        } else if str_eq(s, "volume") {
            Ok(NumberVariable::Volume)
        } else if str_eq(s, "issue") {
            Ok(NumberVariable::Issue)
        } else if str_eq(s, "number") {
            Ok(NumberVariable::Number)
        } else if str_eq(s, "edition") {
            Ok(NumberVariable::Edition)
        } else if str_eq(s, "chapter-number") {
            Ok(NumberVariable::ChapterNumber)
        } else if str_eq(s, "collection-number") {
            Ok(NumberVariable::CollectionNumber)
        } else if str_eq(s, "citation-number") {
            Ok(NumberVariable::CitationNumber)
        } else {
            Err(UnknownAttributeValue::new(s))
        }
    }
}

pub open spec fn spec_name_variable_from_str(s: Seq<char>) -> Option<NameVariable> {
    if s == "author"@ {
        Some(NameVariable::Author)
    } else if s == "editor"@ {
        Some(NameVariable::Editor)
    } else if s == "translator"@ {
        Some(NameVariable::Translator)
    } else if s == "container-author"@ {
        Some(NameVariable::ContainerAuthor)
    } else if s == "dummy"@ {
        Some(NameVariable::Dummy)
    } else {
        None
    }
}

impl NameVariable {
    pub fn from_str(s: &str) -> (r: Result<NameVariable, UnknownAttributeValue>)
        ensures
            match r {
                Ok(v) => spec_name_variable_from_str(s@) == Some(v),
                Err(e) => spec_name_variable_from_str(s@) is None && e.value@ == s@,
            },
    {
        proof {
            reveal_strlit("author");
            reveal_strlit("editor");
            reveal_strlit("translator");
            reveal_strlit("container-author");
            reveal_strlit("dummy");
        }
        if str_eq(s, "author") {
            Ok(NameVariable::Author)
        } else if str_eq(s, "editor") {
            Ok(NameVariable::Editor)
        } else if str_eq(s, "translator") {
            Ok(NameVariable::Translator)
        } else if str_eq(s, "container-author") {
            Ok(NameVariable::ContainerAuthor)
        } else if str_eq(s, "dummy") {
            Ok(NameVariable::Dummy)
        } else {
            Err(UnknownAttributeValue::new(s))
        }
    }
}

pub open spec fn spec_date_variable_from_str(s: Seq<char>) -> Option<DateVariable> {
    if s == "issued"@ {
        Some(DateVariable::Issued)
    } else if s == "accessed"@ {
        Some(DateVariable::Accessed)
    } else if s == "event-date"@ {
        Some(DateVariable::EventDate)
    } else if s == "original-date"@ {
        Some(DateVariable::OriginalDate)
    } else {
        None
    }
}

impl DateVariable {
    pub fn from_str(s: &str) -> (r: Result<DateVariable, UnknownAttributeValue>)
        ensures
            match r {
                Ok(v) => spec_date_variable_from_str(s@) == Some(v),
                Err(e) => spec_date_variable_from_str(s@) is None && e.value@ == s@,
            },
    {
        proof {
            reveal_strlit("issued");
            reveal_strlit("accessed");
            reveal_strlit("event-date");
            reveal_strlit("original-date");
        }
        if str_eq(s, "issued") {
            Ok(DateVariable::Issued)
        } else if str_eq(s, "accessed") {
            Ok(DateVariable::Accessed)
        } else if str_eq(s, "event-date") {
            Ok(DateVariable::EventDate)
        } else if str_eq(s, "original-date") {
            Ok(DateVariable::OriginalDate)
        } else {
            Err(UnknownAttributeValue::new(s))
        }
    }
}

/// A variable of any of the four namespaces.
#[derive(Debug, Clone, Copy, PartialEq, Eq, Structural)]
pub enum AnyVariable {
    Ordinary(Variable),
    Name(NameVariable),
    Date(DateVariable),
    Number(NumberVariable),
}

pub open spec fn spec_any_variable_from_str(s: Seq<char>) -> Option<AnyVariable> {
    if spec_variable_from_str(s) is Some {
        Some(AnyVariable::Ordinary(spec_variable_from_str(s)->Some_0))
    } else if spec_name_variable_from_str(s) is Some {
        Some(AnyVariable::Name(spec_name_variable_from_str(s)->Some_0))
    } else if spec_date_variable_from_str(s) is Some {
        Some(AnyVariable::Date(spec_date_variable_from_str(s)->Some_0))
    } else if spec_number_variable_from_str(s) is Some {
        Some(AnyVariable::Number(spec_number_variable_from_str(s)->Some_0))
    } else {
        None
    }
}

impl AnyVariable {
    /// Tries each namespace in order: ordinary, name, date, number.
    pub fn from_str(s: &str) -> (r: Result<AnyVariable, UnknownAttributeValue>)
        ensures
            match r {
                Ok(v) => spec_any_variable_from_str(s@) == Some(v),
                Err(e) => spec_any_variable_from_str(s@) is None && e.value@ == s@,
            },
    {
        if let Ok(v) = Variable::from_str(s) {
            return Ok(AnyVariable::Ordinary(v));
        }
        if let Ok(v) = NameVariable::from_str(s) {
            return Ok(AnyVariable::Name(v));
        }
        if let Ok(v) = DateVariable::from_str(s) {
            return Ok(AnyVariable::Date(v));
        }
        if let Ok(v) = NumberVariable::from_str(s) {
            return Ok(AnyVariable::Number(v));
        }
        Err(UnknownAttributeValue::new(s))
    }
}

// ---------------------------------------------------------------------------
// Term and text forms
// ---------------------------------------------------------------------------

/// The form of a rendered term, label or variable.
#[derive(Debug, Clone, Copy, PartialEq, Eq, Structural)]
pub enum Form {
    Long,
    Short,
    Count,
    Verb,
    VerbShort,
    Symbol,
    NotSet,
}

pub open spec fn spec_form_from_str(s: Seq<char>) -> Option<Form> {
    if s == "long"@ {
        Some(Form::Long)
    } else if s == "short"@ {
        Some(Form::Short)
    } else if s == "count"@ {
        Some(Form::Count)
    } else if s == "symbol"@ {
        Some(Form::Symbol)
    } else {
        None
    }
}

pub open spec fn spec_form_from_str_names(s: Seq<char>) -> Option<Form> {
    if s == "verb"@ {
        Some(Form::Verb)
    } else if s == "verb-short"@ {
        Some(Form::VerbShort)
    } else {
        spec_form_from_str(s)
    }
}

impl Form {
    /// The forms accepted outside a names block; verb forms are not among them.
    pub fn from_str(s: &str) -> (r: Result<Form, UnknownAttributeValue>)
        ensures
            match r {
                Ok(f) => spec_form_from_str(s@) == Some(f),
                Err(e) => spec_form_from_str(s@) is None && e.value@ == s@,
            },
    {
        proof {
            reveal_strlit("long");
            reveal_strlit("short");
            reveal_strlit("count");
            reveal_strlit("symbol");
        }
        if str_eq(s, "long") {
            Ok(Form::Long)
        } else if str_eq(s, "short") {
            Ok(Form::Short)
        } else if str_eq(s, "count") {
            Ok(Form::Count)
        } else if str_eq(s, "symbol") {
            Ok(Form::Symbol)
        } else {
            Err(UnknownAttributeValue::new(s))
        }
    }

    /// The forms accepted inside a names block, verb forms included.
    pub fn from_str_names(s: &str) -> (r: Result<Form, UnknownAttributeValue>)
        ensures
            match r {
                Ok(f) => spec_form_from_str_names(s@) == Some(f),
                Err(e) => spec_form_from_str_names(s@) is None && e.value@ == s@,
            },
    {
        proof {
            reveal_strlit("verb");
            reveal_strlit("verb-short");
        }
        if str_eq(s, "verb") {
            Ok(Form::Verb)
        } else if str_eq(s, "verb-short") {
            Ok(Form::VerbShort)
        } else {
            Form::from_str(s)
        }
    }
}

impl Default for Form {
    fn default() -> (r: Self)
        ensures
            r == Form::Long,
    {
        Form::Long
    }
}

/// How a number variable is rendered.
#[derive(Debug, Clone, Copy, PartialEq, Eq, Structural)]
pub enum NumericForm {
    Numeric,
    Ordinal,
    Roman,
    LongOrdinal,
}

impl Default for NumericForm {
    fn default() -> (r: Self)
        ensures
            r == NumericForm::Numeric,
    {
        NumericForm::Numeric
    }
}

// ---------------------------------------------------------------------------
// Formatting attributes
// ---------------------------------------------------------------------------

/// A prefix and a suffix put around a rendered fragment.
#[derive(Debug, Clone, PartialEq, Eq)]
pub struct Affixes {
    pub prefix: String,
    pub suffix: String,
}

impl Default for Affixes {
    fn default() -> (r: Self)
        ensures
            r.prefix@ == Seq::<char>::empty(),
            r.suffix@ == Seq::<char>::empty(),
    {
        Affixes { prefix: String::new(), suffix: String::new() }
    }
}

#[derive(Debug, Clone, Copy, PartialEq, Eq, Structural)]
pub enum FormattingDisplay {
    NotSet,
    Block,
    LeftMargin,
    RightInline,
    Indent,
}

impl Default for FormattingDisplay {
    fn default() -> (r: Self)
        ensures
            r == FormattingDisplay::NotSet,
    {
        FormattingDisplay::NotSet
    }
}

#[derive(Debug, Clone, Copy, PartialEq, Eq, Structural)]
pub enum TextCase {
    NotSet,
    Lowercase,
    Uppercase,
    CapitalizeFirst,
    CapitalizeAll,
    Sentence,
    Title,
}

impl Default for TextCase {
    fn default() -> (r: Self)
        ensures
            r == TextCase::NotSet,
    {
        TextCase::NotSet
    }
}

#[derive(Debug, Clone, Copy, PartialEq, Eq, Structural)]
pub enum FontStyle {
    Normal,
    Italic,
    Oblique,
}

impl Default for FontStyle {
    fn default() -> (r: Self)
        ensures
            r == FontStyle::Normal,
    {
        FontStyle::Normal
    }
}

#[derive(Debug, Clone, Copy, PartialEq, Eq, Structural)]
pub enum FontVariant {
    Normal,
    SmallCaps,
}

impl Default for FontVariant {
    fn default() -> (r: Self)
        ensures
            r == FontVariant::Normal,
    {
        FontVariant::Normal
    }
}

#[derive(Debug, Clone, Copy, PartialEq, Eq, Structural)]
pub enum FontWeight {
    Normal,
    Bold,
    Light,
}

impl Default for FontWeight {
    fn default() -> (r: Self)
        ensures
            r == FontWeight::Normal,
    {
        FontWeight::Normal
    }
}

#[derive(Debug, Clone, Copy, PartialEq, Eq, Structural)]
pub enum TextDecoration {
    NotSet,
    Underline,
}

impl Default for TextDecoration {
    fn default() -> (r: Self)
        ensures
            r == TextDecoration::NotSet,
    {
        TextDecoration::NotSet
    }
}

#[derive(Debug, Clone, Copy, PartialEq, Eq, Structural)]
pub enum VerticalAlignment {
    Baseline,
    Superscript,
    Subscript,
}

impl Default for VerticalAlignment {
    fn default() -> (r: Self)
        ensures
            r == VerticalAlignment::Baseline,
    {
        VerticalAlignment::Baseline
    }
}

/// Inline formatting carried by every element.
#[derive(Debug, Clone, PartialEq, Eq)]
pub struct Formatting {
    pub font_style: FontStyle,
    pub font_variant: FontVariant,
    pub font_weight: FontWeight,
    pub vertical_alignment: VerticalAlignment,
    pub text_decoration: TextDecoration,
    pub display: FormattingDisplay,
    pub strip_periods: bool,
    pub hyperlink: String,
}

/// The all-default formatting value.
pub open spec fn spec_formatting_default(f: Formatting) -> bool {
    &&& f.font_style == FontStyle::Normal
    &&& f.font_variant == FontVariant::Normal
    &&& f.font_weight == FontWeight::Normal
    &&& f.vertical_alignment == VerticalAlignment::Baseline
    &&& f.text_decoration == TextDecoration::NotSet
    &&& f.display == FormattingDisplay::NotSet
    &&& f.strip_periods == false
    &&& f.hyperlink@ == Seq::<char>::empty()
}

impl Default for Formatting {
    fn default() -> (r: Self)
        ensures
            spec_formatting_default(r),
    {
        Formatting {
            font_style: FontStyle::Normal,
            font_variant: FontVariant::Normal,
            font_weight: FontWeight::Normal,
            vertical_alignment: VerticalAlignment::Baseline,
            text_decoration: TextDecoration::NotSet,
            display: FormattingDisplay::NotSet,
            strip_periods: false,
            hyperlink: String::new(),
        }
    }
}

/// A join string put between sibling fragments.
#[derive(Debug, Clone, PartialEq, Eq)]
pub struct Delimiter(pub String);

#[derive(Debug, Clone, Copy, PartialEq, Eq, Structural)]
pub enum Plural {
    Contextual,
    Always,
    Never,
}

impl Default for Plural {
    fn default() -> (r: Self)
        ensures
            r == Plural::Contextual,
    {
        Plural::Contextual
    }
}

// ---------------------------------------------------------------------------
// Label variables
// ---------------------------------------------------------------------------

/// What a label element names: the locator, the page, or a number variable.
#[derive(Debug, Clone, Copy, PartialEq, Eq, Structural)]
pub enum LabelVariable {
    Locator,
    Page,
    Number(NumberVariable),
}

/// The attribute spelling of a label variable.
pub open spec fn spec_label_name(lv: LabelVariable) -> Seq<char> {
    match lv {
        LabelVariable::Locator => "locator"@,
        LabelVariable::Page => "page"@,
        LabelVariable::Number(n) => match n {
            NumberVariable::Locator => "locator"@,
            NumberVariable::Page => "page"@,
            NumberVariable::PageFirst => "page-first"@,
            NumberVariable::Volume => "volume"@,
            NumberVariable::Issue => "issue"@,
            NumberVariable::Number => "number"@,
            NumberVariable::Edition => "edition"@,
            NumberVariable::ChapterNumber => "chapter-number"@,
            NumberVariable::CollectionNumber => "collection-number"@,
            NumberVariable::CitationNumber => "citation-number"@,
        },
    }
}

pub open spec fn spec_label_variable_from_str(s: Seq<char>) -> Option<LabelVariable> {
    if s == "locator"@ {
        Some(LabelVariable::Locator)
    } else if s == "page"@ {
        Some(LabelVariable::Page)
    } else if spec_number_variable_from_str(s) is Some {
        Some(LabelVariable::Number(spec_number_variable_from_str(s)->Some_0))
    } else {
        None
    }
}

impl LabelVariable {
    pub fn from_str(s: &str) -> (r: Result<LabelVariable, UnknownAttributeValue>)
        ensures
            match r {
                Ok(v) => spec_label_variable_from_str(s@) == Some(v),
                Err(e) => spec_label_variable_from_str(s@) is None && e.value@ == s@,
            },
    {
        proof {
            reveal_strlit("locator");
            reveal_strlit("page");
        }
        if str_eq(s, "locator") {
            Ok(LabelVariable::Locator)
        } else if str_eq(s, "page") {
            Ok(LabelVariable::Page)
        } else {
            match NumberVariable::from_str(s) {
                Ok(v) => Ok(LabelVariable::Number(v)),
                Err(e) => Err(e),
            }
        }
    }

    /// The attribute spelling of this label variable.
    pub fn as_ref(&self) -> (r: &'static str)
        ensures
            r@ == spec_label_name(*self),
    {
        match *self {
            LabelVariable::Locator => "locator",
            LabelVariable::Page => "page",
            LabelVariable::Number(n) => match n {
                NumberVariable::Locator => "locator",
                NumberVariable::Page => "page",
                NumberVariable::PageFirst => "page-first",
                NumberVariable::Volume => "volume",
                NumberVariable::Issue => "issue",
                NumberVariable::Number => "number",
                NumberVariable::Edition => "edition",
                NumberVariable::ChapterNumber => "chapter-number",
                NumberVariable::CollectionNumber => "collection-number",
                NumberVariable::CitationNumber => "citation-number",
            },
        }
    }
}

// ---------------------------------------------------------------------------
// Conditions and the element tree
// ---------------------------------------------------------------------------

/// How the predicates of a condition combine.
#[derive(Debug, Clone, Copy, PartialEq, Eq, Structural)]
pub enum Match {
    Any,
    All,
    NoneOf,
}

impl Default for Match {
    fn default() -> (r: Self)
        ensures
            r == Match::Any,
    {
        Match::Any
    }
}

/// A cite's relation to the cites before it.
#[derive(Debug, Clone, Copy, PartialEq, Eq, Structural)]
pub enum Position {
    First,
    Ibid,
    IbidWithLocator,
    Subsequent,
    NearNote,
}

/// The condition of an if branch: a conjunction source of predicates,
/// combined under the match operator.
#[derive(Debug, Clone, PartialEq, Eq)]
pub struct Condition {
    pub match_type: Match,
    pub disambiguate: bool,
    pub is_numeric: Vec<NumberVariable>,
    pub variable: Vec<AnyVariable>,
    pub position: Vec<Position>,
    pub csl_type: Vec<CslType>,
    pub locator: Vec<LocatorType>,
    pub is_uncertain_date: Vec<DateVariable>,
}

/// One if branch of a choose element.
#[derive(Debug)]
pub struct IfThen(pub Condition, pub Vec<Element>);

/// The else branch of a choose element.
#[derive(Debug)]
pub struct Else(pub Vec<Element>);

/// One node of the style's element tree.
#[derive(Debug)]
pub enum Element {
    /// A conditional: the first if whose condition matches wins, else the else.
    Choose(IfThen, Vec<IfThen>, Else),
    /// A macro call by name; the final bool asks for quotes.
    Macro(String, Formatting, Affixes, bool),
    /// A literal text; the final bool asks for quotes.
    Const(String, Formatting, Affixes, bool),
    /// An ordinary variable; the final bool asks for quotes.
    Variable(Variable, Formatting, Affixes, Form, Delimiter, bool),
    /// A locale term; the final bool asks for the plural form.
    Term(String, Form, Formatting, Affixes, bool),
    /// A label for a number-like variable.
    Label(LabelVariable, Form, Formatting, Affixes, Plural),
    /// A number variable under a numeric form.
    Number(NumberVariable, NumericForm, Formatting, Affixes, Plural),
    /// A names block over the given name variables.
    Names(Vec<NameVariable>, Vec<Name>, Option<NameLabel>, Formatting, Delimiter, Option<Substitute>),
    /// A group, voided when no variable child renders.
    Group(Formatting, Delimiter, Vec<Element>),
    /// A date variable under a date form.
    Date(Date),
}

/// The label attached inside a names block.
#[derive(Debug, Clone, PartialEq, Eq)]
pub struct NameLabel {
    pub form: Form,
    pub formatting: Formatting,
    pub delimiter: Delimiter,
    pub plural: Plural,
}

#[derive(Debug, Clone, Copy, PartialEq, Eq, Structural)]
pub enum DelimiterPrecedes {
    Contextual,
    AfterInvertedName,
    Always,
    Never,
}

impl Default for DelimiterPrecedes {
    fn default() -> (r: Self)
        ensures
            r == DelimiterPrecedes::Contextual,
    {
        DelimiterPrecedes::Contextual
    }
}

#[derive(Debug, Clone, Copy, PartialEq, Eq, Structural)]
pub enum NameForm {
    Long,
    Short,
    Count,
}

impl Default for NameForm {
    fn default() -> (r: Self)
        ensures
            r == NameForm::Long,
    {
        NameForm::Long
    }
}

#[derive(Debug, Clone, Copy, PartialEq, Eq, Structural)]
pub enum NameAsSortOrder {
    First,
    All,
}

impl Default for NameAsSortOrder {
    fn default() -> (r: Self)
        ensures
            r == NameAsSortOrder::All,
    {
        NameAsSortOrder::All
    }
}

/// The name options of a name element, after inheritance merging.
#[derive(Debug, Clone, PartialEq, Eq)]
pub struct Name {
    pub and: String,
    pub delimiter: Delimiter,
    pub delimiter_precedes_et_al: DelimiterPrecedes,
    pub delimiter_precedes_last: DelimiterPrecedes,
    pub et_al_min: u32,
    pub et_al_use_first: u32,
    pub et_al_subsequent_min: u32,
    pub et_al_subsequent_use_first: u32,
    pub et_al_use_last: bool,
    pub form: NameForm,
    pub initialize: bool,
    pub initialize_with: String,
    pub name_as_sort_order: NameAsSortOrder,
    pub sort_separator: String,
    pub formatting: Formatting,
    pub affixes: Affixes,
}

impl Name {
    /// The root defaults of the name options: a comma-space delimiter, no
    /// et-al threshold, the long form, initialized given names.
    pub fn root_default() -> (r: Name)
        ensures
            r.and@ == Seq::<char>::empty(),
            r.delimiter.0@ == ", "@,
            r.delimiter_precedes_et_al == DelimiterPrecedes::Contextual,
            r.delimiter_precedes_last == DelimiterPrecedes::Contextual,
            r.et_al_min == 0u32,
            r.et_al_use_first == 0u32,
            r.et_al_subsequent_min == 0u32,
            r.et_al_subsequent_use_first == 0u32,
            r.et_al_use_last == false,
            r.form == NameForm::Long,
            r.initialize == true,
            r.initialize_with@ == Seq::<char>::empty(),
            r.name_as_sort_order == NameAsSortOrder::All,
            r.sort_separator@ == ", "@,
    {
        Name {
            and: String::new(),
            delimiter: Delimiter(String::from_str(", ")),
            delimiter_precedes_et_al: DelimiterPrecedes::Contextual,
            delimiter_precedes_last: DelimiterPrecedes::Contextual,
            et_al_min: 0,
            et_al_use_first: 0,
            et_al_subsequent_min: 0,
            et_al_subsequent_use_first: 0,
            et_al_use_last: false,
            form: NameForm::Long,
            initialize: true,
            initialize_with: String::new(),
            name_as_sort_order: NameAsSortOrder::All,
            sort_separator: String::from_str(", "),
            formatting: Formatting::default(),
            affixes: Affixes::default(),
        }
    }
}

#[derive(Debug, Clone, Copy, PartialEq, Eq, Structural)]
pub enum NamePartName {
    Given,
    Family,
}

#[derive(Debug, Clone, PartialEq, Eq)]
pub struct NamePart {
    pub name: NamePartName,
    pub text_case: TextCase,
    pub formatting: Formatting,
}

/// The fallback elements evaluated when a names block finds no names.
#[derive(Debug)]
pub struct Substitute(pub Vec<Element>);

#[derive(Debug, Clone, Copy, PartialEq, Eq, Structural)]
pub enum GivenNameDisambiguationRule {
    AllNames,
    AllNamesWithInitials,
    PrimaryName,
    PrimaryNameWithInitials,
    ByCite,
}

impl Default for GivenNameDisambiguationRule {
    fn default() -> (r: Self)
        ensures
            r == GivenNameDisambiguationRule::ByCite,
    {
        GivenNameDisambiguationRule::ByCite
    }
}

/// The citation part of a style: disambiguation flags and a layout.
#[derive(Debug)]
pub struct Citation {
    pub disambiguate_add_names: bool,
    pub disambiguate_add_givenname: bool,
    pub givenname_disambiguation_rule: GivenNameDisambiguationRule,
    pub disambiguate_add_year_suffix: bool,
    pub layout: Layout,
}

/// The layout of a citation: elements joined by a delimiter, under affixes.
#[derive(Debug)]
pub struct Layout {
    pub formatting: Formatting,
    pub affixes: Affixes,
    pub delimiter: Delimiter,
    pub elements: Vec<Element>,
}

/// A named macro and its body.
#[derive(Debug)]
pub struct MacroMap {
    pub name: String,
    pub elements: Vec<Element>,
}

#[derive(Debug, Clone, Copy, PartialEq, Eq, Structural)]
pub enum StyleClass {
    InText,
    Note,
}

#[derive(Debug, Clone, PartialEq, Eq)]
pub struct Info {}

/// A parsed style: class, default locale tag, macros, citation, info
/// block.
#[derive(Debug)]
pub struct Style {
    pub class: StyleClass,
    pub default_locale: Lang,
    pub macros: Vec<MacroMap>,
    pub citation: Citation,
    pub info: Info,
}

// ---------------------------------------------------------------------------
// Dates
// ---------------------------------------------------------------------------

/// The join put between the two ends of a date range.
#[derive(Debug, Clone, PartialEq, Eq)]
pub struct RangeDelimiter(pub String);

impl Default for RangeDelimiter {
    fn default() -> (r: Self)
        ensures
            r.0@ == Seq::<char>::empty(),
    {
        RangeDelimiter(String::new())
    }
}

impl RangeDelimiter {
    pub fn as_ref<'a>(&'a self) -> (r: &'a str)
        ensures
            r@ == self.0@,
    {
        self.0.as_str()
    }

    /// Every string is a valid range delimiter.
    pub fn from_str(s: &str) -> (r: Result<RangeDelimiter, UnknownAttributeValue>)
        ensures
            match r {
                Ok(d) => d.0@ == s@,
                Err(_) => false,
            },
    {
        Ok(RangeDelimiter(s.to_owned()))
    }
}

#[derive(Debug, Clone, Copy, PartialEq, Eq, Structural)]
pub enum DateParts {
    YearMonthDay,
    YearMonth,
    Year,
}

impl Default for DateParts {
    fn default() -> (r: Self)
        ensures
            r == DateParts::YearMonthDay,
    {
        DateParts::YearMonthDay
    }
}

#[derive(Debug, Clone, Copy, PartialEq, Eq, Structural)]
pub enum DatePartName {
    Day,
    Month,
    Year,
}

#[derive(Debug, Clone, Copy, PartialEq, Eq, Structural)]
pub enum DayForm {
    Numeric,
    NumericLeadingZeros,
    Ordinal,
}

impl Default for DayForm {
    fn default() -> (r: Self)
        ensures
            r == DayForm::Numeric,
    {
        DayForm::Numeric
    }
}

#[derive(Debug, Clone, Copy, PartialEq, Eq, Structural)]
pub enum MonthForm {
    Long,
    Short,
    Numeric,
    NumericLeadingZeros,
}

impl Default for MonthForm {
    fn default() -> (r: Self)
        ensures
            r == MonthForm::Long,
    {
        MonthForm::Long
    }
}

#[derive(Debug, Clone, Copy, PartialEq, Eq, Structural)]
pub enum YearForm {
    Long,
    Short,
}

impl Default for YearForm {
    fn default() -> (r: Self)
        ensures
            r == YearForm::Long,
    {
        YearForm::Long
    }
}

#[derive(Debug, Clone, Copy, PartialEq, Eq, Structural)]
pub enum DateForm {
    Text,
    Numeric,
    NotSet,
}

impl Default for DateForm {
    fn default() -> (r: Self)
        ensures
            r == DateForm::NotSet,
    {
        DateForm::NotSet
    }
}

#[derive(Debug, Clone, Copy, PartialEq, Eq, Structural)]
pub enum DatePartForm {
    Day(DayForm),
    Month(MonthForm),
    Year(YearForm),
}

impl Affixes {
    /// An exact copy.
    pub fn duplicate(&self) -> (r: Self)
        ensures
            r == *self,
    {
        Affixes { prefix: self.prefix.clone(), suffix: self.suffix.clone() }
    }
}

impl Formatting {
    /// An exact copy.
    pub fn duplicate(&self) -> (r: Self)
        ensures
            r == *self,
    {
        Formatting {
            font_style: self.font_style,
            font_variant: self.font_variant,
            font_weight: self.font_weight,
            vertical_alignment: self.vertical_alignment,
            text_decoration: self.text_decoration,
            display: self.display,
            strip_periods: self.strip_periods,
            hyperlink: self.hyperlink.clone(),
        }
    }
}

impl Delimiter {
    /// An exact copy.
    pub fn duplicate(&self) -> (r: Self)
        ensures
            r == *self,
    {
        Delimiter(self.0.clone())
    }
}

impl RangeDelimiter {
    /// An exact copy.
    pub fn duplicate(&self) -> (r: Self)
        ensures
            r == *self,
    {
        RangeDelimiter(self.0.clone())
    }
}

/// One rendered part of a date, with its own overrides.
#[derive(Debug, Clone, PartialEq, Eq)]
pub struct DatePart {
    pub form: DatePartForm,
    pub name: DatePartName,
    pub affixes: Affixes,
    pub formatting: Formatting,
    pub text_case: TextCase,
    pub range_delimiter: RangeDelimiter,
}

/// A date element of the style.
#[derive(Debug, Clone, PartialEq, Eq)]
pub struct Date {
    pub variable: DateVariable,
    pub form: DateForm,
    pub date_parts_attr: DateParts,
    pub date_parts: Vec<DatePart>,
    pub delimiter: Delimiter,
    pub affixes: Affixes,
    pub formatting: Formatting,
}

// ---------------------------------------------------------------------------
// Page ranges and reference types
// ---------------------------------------------------------------------------

#[derive(Debug, Clone, Copy, PartialEq, Eq, Structural)]
pub enum PageRangeFormat {
    Chicago,
    Expanded,
    Minimal,
    MinimalTwo,
}

/// The type of a bibliographic record.
#[derive(Debug, Clone, Copy, PartialEq, Eq, Structural)]
pub enum CslType {
    Article,
    ArticleMagazine,
    ArticleNewspaper,
    ArticleJournal,
    Bill,
    Book,
    Broadcast,
    Chapter,
    Dataset,
    Entry,
    EntryDictionary,
    EntryEncyclopedia,
    Figure,
    Graphic,
    Interview,
    Legislation,
    LegalCase,
    Manuscript,
    MapType,
    MotionPicture,
    MusicalScore,
    Pamphlet,
    PaperConference,
    Patent,
    Post,
    PostWeblog,
    PersonalCommunication,
    Report,
    Review,
    ReviewBook,
    Song,
    Speech,
    Thesis,
    Treaty,
    Webpage,
}

} // verus!
