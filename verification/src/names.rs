//! Input name values: a structured person or a single literal.

use vstd::prelude::*;

verus! {

/// A structured personal name.
#[derive(Debug, Clone, PartialEq, Eq)]
pub struct PersonName {
    pub family: Option<String>,
    pub given: Option<String>,
    pub non_dropping_particle: Option<String>,
    pub dropping_particle: Option<String>,
    pub suffix: Option<String>,
}

/// A contributor: a single literal, or a structured person.  When both
/// readings are open to an input, the literal wins.
#[derive(Debug, Clone, PartialEq, Eq)]
pub enum Name {
    Literal { literal: String },
    Person(PersonName),
}

/// The characters a name contributes to a rendered list: the literal, or
/// the person's family name.
pub open spec fn spec_name_family(n: Name) -> Seq<char> {
    match n {
        Name::Literal { literal } => literal@,
        Name::Person(p) => match p.family {
            Some(f) => f@,
            None => Seq::empty(),
        },
    }
}

/// The characters of the person's given name, if any.
pub open spec fn spec_name_given(n: Name) -> Seq<char> {
    match n {
        Name::Literal { literal: _ } => Seq::empty(),
        Name::Person(p) => match p.given {
            Some(g) => g@,
            None => Seq::empty(),
        },
    }
}

impl Name {
    /// The literal, or the person's family name; empty when absent.
    pub fn family_str<'a>(&'a self) -> (r: &'a str)
        ensures
            r@ == spec_name_family(*self),
    {
        proof {
            reveal_strlit("");
        }
        match self {
            Name::Literal { literal } => literal.as_str(),
            Name::Person(p) => match &p.family {
                Some(f) => f.as_str(),
                None => "",
            },
        }
    }

    /// An exact copy.
    pub fn duplicate(&self) -> (r: Name)
        ensures
            r == *self,
    {
        match self {
            Name::Literal { literal } => Name::Literal { literal: literal.clone() },
            Name::Person(p) => Name::Person(
                PersonName {
                    family: match &p.family {
                        Some(s) => Some(s.clone()),
                        None => None,
                    },
                    given: match &p.given {
                        Some(s) => Some(s.clone()),
                        None => None,
                    },
                    non_dropping_particle: match &p.non_dropping_particle {
                        Some(s) => Some(s.clone()),
                        None => None,
                    },
                    dropping_particle: match &p.dropping_particle {
                        Some(s) => Some(s.clone()),
                        None => None,
                    },
                    suffix: match &p.suffix {
                        Some(s) => Some(s.clone()),
                        None => None,
                    },
                },
            ),
        }
    }

    /// The person's given name; empty for a literal or when absent.
    pub fn given_str<'a>(&'a self) -> (r: &'a str)
        ensures
            r@ == spec_name_given(*self),
    {
        proof {
            reveal_strlit("");
        }
        match self {
            Name::Literal { literal: _ } => "",
            Name::Person(p) => match &p.given {
                Some(g) => g.as_str(),
                None => "",
            },
        }
    }
}

} // verus!
