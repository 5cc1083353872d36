//! Association lists read as maps.  A list of key-value pairs denotes the
//! map in which the first occurrence of a key wins; lookups scan from the
//! front, so duplicates need no side condition.

use vstd::prelude::*;

verus! {

/// The map a pair list denotes: the first occurrence of a key wins.
pub open spec fn pairs_to_map<K, V>(s: Seq<(K, V)>) -> Map<K, V>
    decreases s.len(),
{
    if s.len() == 0 {
        Map::empty()
    } else {
        pairs_to_map(s.drop_first()).insert(s.first().0, s.first().1)
    }
}

pub proof fn lemma_pairs_absent<K, V>(s: Seq<(K, V)>, k: K)
    requires
        forall|j: int| 0 <= j < s.len() ==> (#[trigger] s[j]).0 != k,
    ensures
        !pairs_to_map(s).contains_key(k),
    decreases s.len(),
{
    if s.len() > 0 {
        assert(forall|j: int|
            0 <= j < s.drop_first().len() ==> (#[trigger] s.drop_first()[j]).0 != k) by {
            assert(forall|j: int|
                0 <= j < s.drop_first().len() ==> s.drop_first()[j] == s[j + 1]);
        }
        lemma_pairs_absent(s.drop_first(), k);
    }
}

pub proof fn lemma_pairs_first<K, V>(s: Seq<(K, V)>, i: int)
    requires
        0 <= i < s.len(),
        forall|j: int| 0 <= j < i ==> (#[trigger] s[j]).0 != s[i].0,
    ensures
        pairs_to_map(s).contains_key(s[i].0),
        pairs_to_map(s)[s[i].0] == s[i].1,
    decreases s.len(),
{
    if i == 0 {
    } else {
        assert(forall|j: int|
            0 <= j < s.drop_first().len() ==> s.drop_first()[j] == s[j + 1]);
        assert(s.drop_first()[i - 1] == s[i]);
        lemma_pairs_first(s.drop_first(), i - 1);
        assert(s.first().0 != s[i].0);
    }
}

/// Concatenating pair lists merges their maps; the left list wins.
pub proof fn lemma_pairs_concat<K, V>(a: Seq<(K, V)>, b: Seq<(K, V)>)
    ensures
        pairs_to_map(a + b) =~= pairs_to_map(b).union_prefer_right(pairs_to_map(a)),
    decreases a.len(),
{
    if a.len() == 0 {
        assert(a + b =~= b);
    } else {
        assert((a + b).drop_first() =~= a.drop_first() + b);
        lemma_pairs_concat(a.drop_first(), b);
        assert((a + b).first() == a.first());
    }
}

} // verus!
