//! Classification of number-variable values: a plain number, a range, a
//! number with an alphabetic affix, or an arbitrary literal.

use vstd::prelude::*;

verus! {

/// The abstract value of a classified numeric string.
pub enum NumericModel {
    Num(int),
    Rng(int, int),
    Affix(Seq<char>),
    Lit(Seq<char>),
}

/// A classified number-variable value.
#[derive(Debug, Clone, PartialEq, Eq)]
pub enum NumericValue {
    Number(i32),
    Range(i32, i32),
    Affixed(String),
    Literal(String),
}

impl View for NumericValue {
    type V = NumericModel;

    open spec fn view(&self) -> NumericModel {
        match self {
            NumericValue::Number(n) => NumericModel::Num(*n as int),
            NumericValue::Range(a, b) => NumericModel::Rng(*a as int, *b as int),
            NumericValue::Affixed(s) => NumericModel::Affix(s@),
            NumericValue::Literal(s) => NumericModel::Lit(s@),
        }
    }
}

pub open spec fn is_digit(c: char) -> bool {
    '0' <= c && c <= '9'
}

pub open spec fn digit_val(c: char) -> int {
    c as int - '0' as int
}

pub open spec fn all_digits(s: Seq<char>) -> bool {
    forall|i: int| 0 <= i < s.len() ==> is_digit(#[trigger] s[i])
}

pub open spec fn is_alnum(c: char) -> bool {
    is_digit(c) || ('a' <= c && c <= 'z') || ('A' <= c && c <= 'Z')
}

pub open spec fn all_alnum(s: Seq<char>) -> bool {
    forall|i: int| 0 <= i < s.len() ==> is_alnum(#[trigger] s[i])
}

/// The separator accepted between the two ends of a page range:
/// a hyphen or an en dash.
pub open spec fn is_range_sep(c: char) -> bool {
    c == '-' || c == '\u{2013}'
}

/// The integer a digit sequence denotes.
pub open spec fn seq_to_int(s: Seq<char>) -> int
    decreases s.len(),
{
    if s.len() == 0 {
        0
    } else {
        seq_to_int(s.drop_last()) * 10 + digit_val(s.last())
    }
}

/// Length of the run of digits with which `s` begins.
pub open spec fn digit_prefix_len(s: Seq<char>) -> int {
    if exists|i: int| 0 <= i < s.len() && !is_digit(#[trigger] s[i]) {
        choose|i: int|
            0 <= i < s.len() && !is_digit(#[trigger] s[i]) && all_digits(s.subrange(0, i))
    } else {
        s.len() as int
    }
}

proof fn lemma_digit_prefix_len(s: Seq<char>, r: int)
    requires
        0 <= r <= s.len(),
        all_digits(s.subrange(0, r)),
        r < s.len() ==> !is_digit(s[r]),
    ensures
        digit_prefix_len(s) == r,
{
    if r < s.len() {
        assert(0 <= r < s.len() && !is_digit(s[r]) && all_digits(s.subrange(0, r)));
        let i0 = choose|i: int|
            0 <= i < s.len() && !is_digit(#[trigger] s[i]) && all_digits(s.subrange(0, i));
        if i0 < r {
            assert(is_digit(s.subrange(0, r)[i0]));
        } else if i0 > r {
            assert(is_digit(s.subrange(0, i0)[r]));
        }
    } else {
        assert(forall|i: int| 0 <= i < s.len() ==> is_digit(#[trigger] s[i])) by {
            assert(forall|i: int|
                0 <= i < s.len() ==> #[trigger] s[i] == s.subrange(0, r)[i]);
        }
    }
}

/// How a number-variable string is classified.  A run of one to nine digits
/// is a number; two such runs about a range separator are a range; a digit
/// run followed by ASCII letters or digits is an affixed number; anything
/// else stays a literal.
pub open spec fn spec_parse_numeric(s: Seq<char>) -> NumericModel {
    let k = digit_prefix_len(s);
    if k == 0 || k > 9 {
        NumericModel::Lit(s)
    } else if k == s.len() {
        NumericModel::Num(seq_to_int(s))
    } else if is_range_sep(s[k]) {
        let rest = s.subrange(k + 1, s.len() as int);
        if 0 < rest.len() <= 9 && all_digits(rest) {
            NumericModel::Rng(seq_to_int(s.subrange(0, k)), seq_to_int(rest))
        } else {
            NumericModel::Lit(s)
        }
    } else if all_alnum(s.subrange(k, s.len() as int)) {
        NumericModel::Affix(s)
    } else {
        NumericModel::Lit(s)
    }
}

/// Whether the model counts as numeric: everything but a literal.
pub open spec fn spec_is_numeric(m: NumericModel) -> bool {
    !(m is Lit)
}

/// The first number of the value, the one a page-first condition tests.
pub open spec fn spec_page_first(m: NumericModel) -> Option<NumericModel> {
    match m {
        NumericModel::Num(n) => Some(NumericModel::Num(n)),
        NumericModel::Rng(a, b) => Some(NumericModel::Num(a)),
        NumericModel::Affix(_) => None,
        NumericModel::Lit(_) => None,
    }
}

pub open spec fn pow10(n: nat) -> int
    decreases n,
{
    if n == 0 {
        1
    } else {
        10 * pow10((n - 1) as nat)
    }
}

proof fn lemma_pow10_pos(n: nat)
    ensures
        pow10(n) >= 1,
    decreases n,
{
    if n > 0 {
        lemma_pow10_pos((n - 1) as nat);
    }
}

proof fn lemma_seq_to_int_bound(s: Seq<char>, n: nat)
    requires
        all_digits(s),
        s.len() <= n,
    ensures
        0 <= seq_to_int(s) < pow10(n),
    decreases s.len(),
{
    lemma_pow10_pos(n);
    if s.len() > 0 {
        lemma_seq_to_int_bound(s.drop_last(), (n - 1) as nat);
        lemma_pow10_pos((n - 1) as nat);
        assert(is_digit(s.last()));
        assert(digit_val(s.last()) <= 9);
        assert(seq_to_int(s.drop_last()) <= pow10((n - 1) as nat) - 1);
    }
}

fn exec_is_digit(c: char) -> (r: bool)
    ensures
        r == is_digit(c),
{
    '0' <= c && c <= '9'
}

fn exec_is_alnum(c: char) -> (r: bool)
    ensures
        r == is_alnum(c),
{
    exec_is_digit(c) || ('a' <= c && c <= 'z') || ('A' <= c && c <= 'Z')
}

/// First index at or past which `s` stops being digits.
fn digit_run_len(s: &str, n: usize) -> (r: usize)
    requires
        n == s@.len(),
    ensures
        0 <= r <= n,
        all_digits(s@.subrange(0, r as int)),
        r < n ==> !is_digit(s@[r as int]),
        digit_prefix_len(s@) == r,
{
    let mut i: usize = 0;
    while i < n
        invariant
            0 <= i <= n,
            n == s@.len(),
            all_digits(s@.subrange(0, i as int)),
        decreases n - i,
    {
        let c = s.get_char(i);
        if !exec_is_digit(c) {
            proof {
                lemma_digit_prefix_len(s@, i as int);
            }
            return i;
        }
        proof {
            assert(s@.subrange(0, i + 1).drop_last() =~= s@.subrange(0, i as int));
            assert(forall|j: int|
                0 <= j < i + 1 ==> is_digit(#[trigger] s@.subrange(0, i + 1)[j]));
        }
        i = i + 1;
    }
    proof {
        lemma_digit_prefix_len(s@, n as int);
    }
    n
}

/// Whether the characters of `s` from `from` to `to` are all digits.
fn all_digits_range(s: &str, from: usize, to: usize) -> (r: bool)
    requires
        from <= to <= s@.len(),
    ensures
        r == all_digits(s@.subrange(from as int, to as int)),
{
    let mut i: usize = from;
    while i < to
        invariant
            from <= i <= to <= s@.len(),
            forall|j: int| from <= j < i ==> is_digit(#[trigger] s@[j]),
        decreases to - i,
    {
        if !exec_is_digit(s.get_char(i)) {
            assert(s@.subrange(from as int, to as int)[i - from] == s@[i as int]);
            return false;
        }
        i = i + 1;
    }
    assert(forall|j: int|
        0 <= j < to - from ==> #[trigger] s@.subrange(from as int, to as int)[j] == s@[
            j + from
        ]);
    true
}

/// Whether the characters of `s` from `from` to `to` are all ASCII letters or digits.
fn all_alnum_range(s: &str, from: usize, to: usize) -> (r: bool)
    requires
        from <= to <= s@.len(),
    ensures
        r == all_alnum(s@.subrange(from as int, to as int)),
{
    let mut i: usize = from;
    while i < to
        invariant
            from <= i <= to <= s@.len(),
            forall|j: int| from <= j < i ==> is_alnum(#[trigger] s@[j]),
        decreases to - i,
    {
        if !exec_is_alnum(s.get_char(i)) {
            assert(s@.subrange(from as int, to as int)[i - from] == s@[i as int]);
            return false;
        }
        i = i + 1;
    }
    assert(forall|j: int|
        0 <= j < to - from ==> #[trigger] s@.subrange(from as int, to as int)[j] == s@[
            j + from
        ]);
    true
}

/// Reads the digits of `s` between `from` and `to` as a number.
fn parse_digits(s: &str, from: usize, to: usize) -> (r: i32)
    requires
        from <= to <= s@.len(),
        to - from <= 9,
        all_digits(s@.subrange(from as int, to as int)),
    ensures
        r == seq_to_int(s@.subrange(from as int, to as int)),
{
    let mut acc: i32 = 0;
    let mut i: usize = from;
    while i < to
        invariant
            from <= i <= to <= s@.len(),
            to - from <= 9,
            all_digits(s@.subrange(from as int, to as int)),
            acc == seq_to_int(s@.subrange(from as int, i as int)),
        decreases to - i,
    {
        proof {
            assert(forall|j: int|
                0 <= j < to - from ==> #[trigger] s@.subrange(from as int, to as int)[j]
                    == s@[j + from]);
            lemma_seq_to_int_bound(s@.subrange(from as int, i as int), 8);
            reveal_with_fuel(pow10, 10);
            assert(pow10(8) == 100000000);
            assert(s@.subrange(from as int, i + 1).drop_last() =~= s@.subrange(
                from as int,
                i as int,
            ));
            assert(s@[i as int] == s@.subrange(from as int, to as int)[i - from]);
            assert(is_digit(s@[i as int]));
        }
        let c = s.get_char(i);
        let d: i32 = (c as u32 as i32) - ('0' as u32 as i32);
        acc = acc * 10 + d;
        i = i + 1;
    }
    acc
}

/// Classifies a number-variable string.
pub fn parse_numeric(s: &str) -> (r: NumericValue)
    ensures
        r@ == spec_parse_numeric(s@),
{
    let n = s.unicode_len();
    let k = digit_run_len(s, n);
    if k == 0 || k > 9 {
        return NumericValue::Literal(s.to_owned());
    }
    if k == n {
        proof {
            assert(s@.subrange(0, n as int) =~= s@);
        }
        return NumericValue::Number(parse_digits(s, 0, n));
    }
    let c = s.get_char(k);
    if c == '-' || c == '\u{2013}' {
        if k + 1 < n && n - (k + 1) <= 9 && all_digits_range(s, k + 1, n) {
            return NumericValue::Range(parse_digits(s, 0, k), parse_digits(s, k + 1, n));
        }
        return NumericValue::Literal(s.to_owned());
    }
    if all_alnum_range(s, k, n) {
        return NumericValue::Affixed(s.to_owned());
    }
    NumericValue::Literal(s.to_owned())
}

// ---------------------------------------------------------------------------
// Rendering numbers as text
// ---------------------------------------------------------------------------

/// The character of one decimal digit.
pub open spec fn spec_digit_char(d: int) -> char {
    ((48 + d) as u8) as char
}

/// The decimal spelling of a non-negative number.
pub open spec fn spec_uint_chars(n: int) -> Seq<char>
    decreases n,
{
    if n < 10 {
        seq![spec_digit_char(n)]
    } else {
        spec_uint_chars(n / 10) + seq![spec_digit_char(n % 10)]
    }
}

/// The decimal spelling of a number, minus sign included.
pub open spec fn spec_int_chars(n: int) -> Seq<char> {
    if n >= 0 {
        spec_uint_chars(n)
    } else {
        seq!['-'] + spec_uint_chars(-n)
    }
}

fn digit_str(d: u64) -> (r: &'static str)
    requires
        d < 10,
    ensures
        r@ == seq![spec_digit_char(d as int)],
{
    proof {
        reveal_strlit("0");
        reveal_strlit("1");
        reveal_strlit("2");
        reveal_strlit("3");
        reveal_strlit("4");
        reveal_strlit("5");
        reveal_strlit("6");
        reveal_strlit("7");
        reveal_strlit("8");
        reveal_strlit("9");
    }
    let r = match d {
        0 => "0",
        1 => "1",
        2 => "2",
        3 => "3",
        4 => "4",
        5 => "5",
        6 => "6",
        7 => "7",
        8 => "8",
        _ => "9",
    };
    proof {
        assert(r@ =~= seq![spec_digit_char(d as int)]);
    }
    r
}

/// The decimal spelling of a non-negative number.
pub fn uint_to_string(n: u64) -> (r: String)
    ensures
        r@ == spec_uint_chars(n as int),
    decreases n,
{
    if n < 10 {
        digit_str(n).to_owned()
    } else {
        let r = uint_to_string(n / 10).concat(digit_str(n % 10));
        proof {
            assert(r@ =~= spec_uint_chars(n as int));
        }
        r
    }
}

/// The decimal spelling of a number, minus sign included.
pub fn int_to_string(n: i32) -> (r: String)
    ensures
        r@ == spec_int_chars(n as int),
{
    proof {
        reveal_strlit("-");
    }
    if n >= 0 {
        uint_to_string(n as u64)
    } else {
        let m: u64 = (-(n as i64)) as u64;
        let r = String::from_str("-").concat(uint_to_string(m).as_str());
        proof {
            assert(r@ =~= spec_int_chars(n as int));
        }
        r
    }
}

/// The lower-case roman spelling of a positive number; an empty sequence
/// for zero and below.
pub open spec fn spec_roman_chars(n: int) -> Seq<char>
    decreases n,
{
    if n <= 0 {
        Seq::empty()
    } else if n >= 1000 {
        seq!['m'] + spec_roman_chars(n - 1000)
    } else if n >= 900 {
        seq!['c', 'm'] + spec_roman_chars(n - 900)
    } else if n >= 500 {
        seq!['d'] + spec_roman_chars(n - 500)
    } else if n >= 400 {
        seq!['c', 'd'] + spec_roman_chars(n - 400)
    } else if n >= 100 {
        seq!['c'] + spec_roman_chars(n - 100)
    } else if n >= 90 {
        seq!['x', 'c'] + spec_roman_chars(n - 90)
    } else if n >= 50 {
        seq!['l'] + spec_roman_chars(n - 50)
    } else if n >= 40 {
        seq!['x', 'l'] + spec_roman_chars(n - 40)
    } else if n >= 10 {
        seq!['x'] + spec_roman_chars(n - 10)
    } else if n >= 9 {
        seq!['i', 'x'] + spec_roman_chars(n - 9)
    } else if n >= 5 {
        seq!['v'] + spec_roman_chars(n - 5)
    } else if n >= 4 {
        seq!['i', 'v'] + spec_roman_chars(n - 4)
    } else {
        seq!['i'] + spec_roman_chars(n - 1)
    }
}

/// The lower-case roman spelling of a positive number.
pub fn roman_to_string(n: u32) -> (r: String)
    ensures
        r@ == spec_roman_chars(n as int),
    decreases n,
{
    proof {
        reveal_strlit("m");
        reveal_strlit("cm");
        reveal_strlit("d");
        reveal_strlit("cd");
        reveal_strlit("c");
        reveal_strlit("xc");
        reveal_strlit("l");
        reveal_strlit("xl");
        reveal_strlit("x");
        reveal_strlit("ix");
        reveal_strlit("v");
        reveal_strlit("iv");
        reveal_strlit("i");
        reveal_strlit("");
    }
    let (word, step): (&'static str, u32) = if n == 0 {
        ("", 0)
    } else if n >= 1000 {
        ("m", 1000)
    } else if n >= 900 {
        ("cm", 900)
    } else if n >= 500 {
        ("d", 500)
    } else if n >= 400 {
        ("cd", 400)
    } else if n >= 100 {
        ("c", 100)
    } else if n >= 90 {
        ("xc", 90)
    } else if n >= 50 {
        ("l", 50)
    } else if n >= 40 {
        ("xl", 40)
    } else if n >= 10 {
        ("x", 10)
    } else if n >= 9 {
        ("ix", 9)
    } else if n >= 5 {
        ("v", 5)
    } else if n >= 4 {
        ("iv", 4)
    } else {
        ("i", 1)
    };
    if n == 0 {
        String::new()
    } else {
        let r = word.to_owned().concat(roman_to_string(n - step).as_str());
        proof {
            assert(r@ =~= spec_roman_chars(n as int));
        }
        r
    }
}

/// The English ordinal suffix of a number.
pub open spec fn spec_ordinal_suffix(n: int) -> Seq<char> {
    let tens = n % 100;
    let ones = n % 10;
    if tens == 11 || tens == 12 || tens == 13 {
        "th"@
    } else if ones == 1 {
        "st"@
    } else if ones == 2 {
        "nd"@
    } else if ones == 3 {
        "rd"@
    } else {
        "th"@
    }
}

/// The English ordinal suffix of a number.
pub fn ordinal_suffix(n: u32) -> (r: &'static str)
    ensures
        r@ == spec_ordinal_suffix(n as int),
{
    let tens = n % 100;
    let ones = n % 10;
    if tens == 11 || tens == 12 || tens == 13 {
        "th"
    } else if ones == 1 {
        "st"
    } else if ones == 2 {
        "nd"
    } else if ones == 3 {
        "rd"
    } else {
        "th"
    }
}

impl NumericValue {
    /// An exact copy.
    pub fn duplicate(&self) -> (r: Self)
        ensures
            r == *self,
    {
        match self {
            NumericValue::Number(n) => NumericValue::Number(*n),
            NumericValue::Range(a, b) => NumericValue::Range(*a, *b),
            NumericValue::Affixed(s) => NumericValue::Affixed(s.clone()),
            NumericValue::Literal(s) => NumericValue::Literal(s.clone()),
        }
    }
}

impl NumericValue {
    /// Whether the value counts as numeric: everything but a literal.
    pub fn is_numeric(&self) -> (r: bool)
        ensures
            r == spec_is_numeric(self@),
    {
        match self {
            NumericValue::Number(_) => true,
            NumericValue::Range(_, _) => true,
            NumericValue::Affixed(_) => true,
            NumericValue::Literal(_) => false,
        }
    }

    /// The first number of the value; a page-first condition tests it.
    pub fn page_first(&self) -> (r: Option<NumericValue>)
        ensures
            match r {
                Some(v) => spec_page_first(self@) == Some(v@),
                None => spec_page_first(self@) is None,
            },
    {
        match self {
            NumericValue::Number(n) => Some(NumericValue::Number(*n)),
            NumericValue::Range(a, _) => Some(NumericValue::Number(*a)),
            NumericValue::Affixed(_) => None,
            NumericValue::Literal(_) => None,
        }
    }
}

} // verus!
