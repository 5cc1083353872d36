//! The typed bibliographic record: four variable namespaces over one id.

use vstd::prelude::*;
use crate::assoc::{pairs_to_map, lemma_pairs_absent, lemma_pairs_first};
use crate::locale::Lang;
use crate::names::Name;
use crate::numeric::{NumericValue, NumericModel};
use crate::style::{AnyVariable, CslType, DateVariable, NameVariable, NumberVariable, Variable};

verus! {

/// A structured date value.
#[derive(Debug, Clone, Copy, PartialEq, Eq, Structural)]
pub struct DateValue {
    pub year: i32,
    /// 1 to 12; 0 when unknown.
    pub month: u8,
    /// 1 to 31; 0 when unknown.
    pub day: u8,
    pub uncertain: bool,
}

/// A bibliographic record.  Each namespace is a pair list read as a map in
/// which the first occurrence of a key wins.
#[derive(Debug)]
pub struct Reference {
    pub id: String,
    pub csl_type: CslType,
    pub language: Option<Lang>,
    pub ordinary: Vec<(Variable, String)>,
    pub number: Vec<(NumberVariable, NumericValue)>,
    pub name: Vec<(NameVariable, Vec<Name>)>,
    pub date: Vec<(DateVariable, DateValue)>,
}

/// The ordinary pairs of a record, by view.
pub open spec fn ord_pairs(s: Seq<(Variable, String)>) -> Seq<(Variable, Seq<char>)> {
    s.map_values(|p: (Variable, String)| (p.0, p.1@))
}

/// The number pairs of a record, by view.
pub open spec fn num_pairs(s: Seq<(NumberVariable, NumericValue)>) -> Seq<
    (NumberVariable, NumericModel),
> {
    s.map_values(|p: (NumberVariable, NumericValue)| (p.0, p.1@))
}

/// The name pairs of a record, by view.
pub open spec fn name_pairs(s: Seq<(NameVariable, Vec<Name>)>) -> Seq<
    (NameVariable, Seq<Name>),
> {
    s.map_values(|p: (NameVariable, Vec<Name>)| (p.0, p.1@))
}

impl Reference {
    pub open spec fn ordinary_map(&self) -> Map<Variable, Seq<char>> {
        pairs_to_map(ord_pairs(self.ordinary@))
    }

    pub open spec fn number_map(&self) -> Map<NumberVariable, NumericModel> {
        pairs_to_map(num_pairs(self.number@))
    }

    pub open spec fn name_map(&self) -> Map<NameVariable, Seq<Name>> {
        pairs_to_map(name_pairs(self.name@))
    }

    pub open spec fn date_map(&self) -> Map<DateVariable, DateValue> {
        pairs_to_map(self.date@)
    }

    /// Which namespaces of this record hold the given variable.
    pub open spec fn spec_has_variable(&self, var: AnyVariable) -> bool {
        match var {
            AnyVariable::Ordinary(v) => self.ordinary_map().contains_key(v),
            AnyVariable::Number(v) => self.number_map().contains_key(v),
            AnyVariable::Name(v) => self.name_map().contains_key(v),
            AnyVariable::Date(v) => self.date_map().contains_key(v),
        }
    }

    /// Looks an ordinary variable up; the first pair with the key wins.
    pub fn ordinary_get<'a>(&'a self, var: Variable) -> (r: Option<&'a String>)
        ensures
            match r {
                Some(v) => self.ordinary_map().contains_key(var) && self.ordinary_map()[var]
                    == v@,
                None => !self.ordinary_map().contains_key(var),
            },
    {
        let n = self.ordinary.len();
        let mut i: usize = 0;
        while i < n
            invariant
                0 <= i <= n,
                n == self.ordinary@.len(),
                forall|j: int| 0 <= j < i ==> (#[trigger] self.ordinary@[j]).0 != var,
            decreases n - i,
        {
            if self.ordinary[i].0 == var {
                proof {
                    assert(forall|j: int|
                        0 <= j < i ==> (#[trigger] ord_pairs(self.ordinary@)[j]).0 != ord_pairs(
                            self.ordinary@,
                        )[i as int].0);
                    lemma_pairs_first(ord_pairs(self.ordinary@), i as int);
                }
                return Some(&self.ordinary[i].1);
            }
            i = i + 1;
        }
        proof {
            assert(forall|j: int|
                0 <= j < ord_pairs(self.ordinary@).len() ==> (#[trigger] ord_pairs(self.ordinary@)[j]).0 != var);
            lemma_pairs_absent(ord_pairs(self.ordinary@), var);
        }
        None
    }

    /// Looks a number variable up; the first pair with the key wins.
    pub fn number_get<'a>(&'a self, var: NumberVariable) -> (r: Option<&'a NumericValue>)
        ensures
            match r {
                Some(v) => self.number_map().contains_key(var) && self.number_map()[var] == v@,
                None => !self.number_map().contains_key(var),
            },
    {
        let n = self.number.len();
        let mut i: usize = 0;
        while i < n
            invariant
                0 <= i <= n,
                n == self.number@.len(),
                forall|j: int| 0 <= j < i ==> (#[trigger] self.number@[j]).0 != var,
            decreases n - i,
        {
            if self.number[i].0 == var {
                proof {
                    assert(forall|j: int|
                        0 <= j < i ==> (#[trigger] num_pairs(self.number@)[j]).0 != num_pairs(
                            self.number@,
                        )[i as int].0);
                    lemma_pairs_first(num_pairs(self.number@), i as int);
                }
                return Some(&self.number[i].1);
            }
            i = i + 1;
        }
        proof {
            assert(forall|j: int|
                0 <= j < num_pairs(self.number@).len() ==> (#[trigger] num_pairs(self.number@)[j]).0 != var);
            lemma_pairs_absent(num_pairs(self.number@), var);
        }
        None
    }

    /// Looks a name variable up; the first pair with the key wins.
    pub fn name_get<'a>(&'a self, var: NameVariable) -> (r: Option<&'a Vec<Name>>)
        ensures
            match r {
                Some(v) => self.name_map().contains_key(var) && self.name_map()[var] == v@,
                None => !self.name_map().contains_key(var),
            },
    {
        let n = self.name.len();
        let mut i: usize = 0;
        while i < n
            invariant
                0 <= i <= n,
                n == self.name@.len(),
                forall|j: int| 0 <= j < i ==> (#[trigger] self.name@[j]).0 != var,
            decreases n - i,
        {
            if self.name[i].0 == var {
                proof {
                    assert(forall|j: int|
                        0 <= j < i ==> (#[trigger] name_pairs(self.name@)[j]).0 != name_pairs(
                            self.name@,
                        )[i as int].0);
                    lemma_pairs_first(name_pairs(self.name@), i as int);
                }
                return Some(&self.name[i].1);
            }
            i = i + 1;
        }
        proof {
            assert(forall|j: int|
                0 <= j < name_pairs(self.name@).len() ==> (#[trigger] name_pairs(self.name@)[j]).0 != var);
            lemma_pairs_absent(name_pairs(self.name@), var);
        }
        None
    }

    /// Looks a date variable up; the first pair with the key wins.
    pub fn date_get(&self, var: DateVariable) -> (r: Option<DateValue>)
        ensures
            match r {
                Some(v) => self.date_map().contains_key(var) && self.date_map()[var] == v,
                None => !self.date_map().contains_key(var),
            },
    {
        let n = self.date.len();
        let mut i: usize = 0;
        while i < n
            invariant
                0 <= i <= n,
                n == self.date@.len(),
                forall|j: int| 0 <= j < i ==> (#[trigger] self.date@[j]).0 != var,
            decreases n - i,
        {
            if self.date[i].0 == var {
                proof {
                    lemma_pairs_first(self.date@, i as int);
                }
                return Some(self.date[i].1);
            }
            i = i + 1;
        }
        proof {
            lemma_pairs_absent(self.date@, var);
        }
        None
    }

    /// Whether the record holds the variable, in the matching namespace.
    /// Cite-level presence, such as the locator, is the cite context's
    /// affair, not this record's.
    pub fn has_variable(&self, var: &AnyVariable) -> (r: bool)
        ensures
            r == self.spec_has_variable(*var),
    {
        match var {
            AnyVariable::Ordinary(v) => self.ordinary_get(*v).is_some(),
            AnyVariable::Number(v) => self.number_get(*v).is_some(),
            AnyVariable::Name(v) => self.name_get(*v).is_some(),
            AnyVariable::Date(v) => self.date_get(*v).is_some(),
        }
    }
}

} // verus!
