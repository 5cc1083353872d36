//! Output formats: how inline formatting is realised in the target markup.

use vstd::prelude::*;
use crate::style::{Affixes, FontStyle, FontWeight, Formatting, VerticalAlignment};

verus! {

/// The target markup of rendered output.
#[derive(Debug, Clone, Copy, PartialEq, Eq, Structural)]
pub enum OutputFormat {
    Html,
    Rtf,
    Plain,
}

/// Wraps rendered text in italic markup.
pub open spec fn sp_italic(fmt: OutputFormat, inner: Seq<char>) -> Seq<char> {
    match fmt {
        OutputFormat::Html => "<i>"@ + inner + "</i>"@,
        OutputFormat::Rtf => "{\\i "@ + inner + "}"@,
        OutputFormat::Plain => inner,
    }
}

/// Wraps rendered text in bold markup.
pub open spec fn sp_bold(fmt: OutputFormat, inner: Seq<char>) -> Seq<char> {
    match fmt {
        OutputFormat::Html => "<b>"@ + inner + "</b>"@,
        OutputFormat::Rtf => "{\\b "@ + inner + "}"@,
        OutputFormat::Plain => inner,
    }
}

/// Wraps rendered text in superscript or subscript markup.
pub open spec fn sp_vertical(fmt: OutputFormat, up: bool, inner: Seq<char>) -> Seq<char> {
    match fmt {
        OutputFormat::Html => if up {
            "<sup>"@ + inner + "</sup>"@
        } else {
            "<sub>"@ + inner + "</sub>"@
        },
        OutputFormat::Rtf => if up {
            "{\\super "@ + inner + "}"@
        } else {
            "{\\sub "@ + inner + "}"@
        },
        OutputFormat::Plain => inner,
    }
}

/// How a formatting value dresses rendered text: italics innermost, then
/// bold, then vertical alignment.  Empty text stays empty.
pub open spec fn sp_wrap(fmt: OutputFormat, f: Formatting, inner: Seq<char>) -> Seq<char> {
    if inner.len() == 0 {
        inner
    } else {
        let x1 = if f.font_style == FontStyle::Italic || f.font_style == FontStyle::Oblique {
            sp_italic(fmt, inner)
        } else {
            inner
        };
        let x2 = if f.font_weight == FontWeight::Bold {
            sp_bold(fmt, x1)
        } else {
            x1
        };
        if f.vertical_alignment == VerticalAlignment::Superscript {
            sp_vertical(fmt, true, x2)
        } else if f.vertical_alignment == VerticalAlignment::Subscript {
            sp_vertical(fmt, false, x2)
        } else {
            x2
        }
    }
}

/// The affixed form of rendered text: empty text takes no affixes.
pub open spec fn sp_affix(a: Affixes, inner: Seq<char>) -> Seq<char> {
    if inner.len() == 0 {
        inner
    } else {
        a.prefix@ + inner + a.suffix@
    }
}

impl OutputFormat {
    /// Dresses rendered text in this format's markup for the formatting.
    pub fn wrap(&self, f: &Formatting, inner: String) -> (r: String)
        ensures
            r@ == sp_wrap(*self, *f, inner@),
    {
        proof {
            reveal_strlit("<i>");
            reveal_strlit("</i>");
            reveal_strlit("<b>");
            reveal_strlit("</b>");
            reveal_strlit("<sup>");
            reveal_strlit("</sup>");
            reveal_strlit("<sub>");
            reveal_strlit("</sub>");
            reveal_strlit("{\\i ");
            reveal_strlit("{\\b ");
            reveal_strlit("{\\super ");
            reveal_strlit("{\\sub ");
            reveal_strlit("}");
        }
        if inner.as_str().is_empty() {
            return inner;
        }
        let x1 = if matches!(f.font_style, FontStyle::Italic | FontStyle::Oblique) {
            match self {
                OutputFormat::Html => String::from_str("<i>").concat(inner.as_str()).concat(
                    "</i>",
                ),
                OutputFormat::Rtf => String::from_str("{\\i ").concat(inner.as_str()).concat("}"),
                OutputFormat::Plain => inner,
            }
        } else {
            inner
        };
        let x2 = if matches!(f.font_weight, FontWeight::Bold) {
            match self {
                OutputFormat::Html => String::from_str("<b>").concat(x1.as_str()).concat("</b>"),
                OutputFormat::Rtf => String::from_str("{\\b ").concat(x1.as_str()).concat("}"),
                OutputFormat::Plain => x1,
            }
        } else {
            x1
        };
        if matches!(f.vertical_alignment, VerticalAlignment::Superscript) {
            match self {
                OutputFormat::Html => String::from_str("<sup>").concat(x2.as_str()).concat(
                    "</sup>",
                ),
                OutputFormat::Rtf => String::from_str("{\\super ").concat(x2.as_str()).concat(
                    "}",
                ),
                OutputFormat::Plain => x2,
            }
        } else if matches!(f.vertical_alignment, VerticalAlignment::Subscript) {
            match self {
                OutputFormat::Html => String::from_str("<sub>").concat(x2.as_str()).concat(
                    "</sub>",
                ),
                OutputFormat::Rtf => String::from_str("{\\sub ").concat(x2.as_str()).concat("}"),
                OutputFormat::Plain => x2,
            }
        } else {
            x2
        }
    }
}

/// Puts the affixes around nonempty rendered text.
pub fn apply_affixes(a: &Affixes, inner: String) -> (r: String)
    ensures
        r@ == sp_affix(*a, inner@),
{
    if inner.as_str().is_empty() {
        return inner;
    }
    a.prefix.clone().concat(inner.as_str()).concat(a.suffix.as_str())
}

} // verus!
