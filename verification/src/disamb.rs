//! Add-names disambiguation: cites whose shown name prefixes collide
//! expand until they differ or their name lists are exhausted.

use vstd::prelude::*;
use crate::names::{spec_name_family, spec_name_given, Name};

verus! {

/// The family names of one cite's list, by characters.
pub open spec fn sp_fams(l: Seq<Name>) -> Seq<Seq<char>> {
    l.map_values(|n: Name| spec_name_family(n))
}

/// The prefix of a cite's families that its shown count exposes.
pub open spec fn sp_prefix(lists: Seq<Vec<Name>>, shown: Seq<u32>, i: int) -> Seq<Seq<char>> {
    let fams = sp_fams(lists[i]@);
    if shown[i] <= fams.len() {
        fams.take(shown[i] as int)
    } else {
        fams
    }
}

/// Whether cite `i` collides with some other cite: equal shown prefixes
/// over different full name lists.
pub open spec fn sp_collides(lists: Seq<Vec<Name>>, shown: Seq<u32>, i: int) -> bool {
    exists|j: int|
        0 <= j < lists.len() && j != i && #[trigger] sp_prefix(lists, shown, j) == sp_prefix(
            lists,
            shown,
            i,
        ) && sp_fams(lists[j]@) != sp_fams(lists[i]@)
}

/// How many names the whole document could still expose.
pub open spec fn sp_slack(lists: Seq<Vec<Name>>, shown: Seq<u32>) -> int
    decreases lists.len(),
{
    if lists.len() == 0 {
        0
    } else {
        (if shown[0] < lists[0]@.len() {
            lists[0]@.len() - shown[0]
        } else {
            0
        }) + sp_slack(lists.drop_first(), shown.drop_first())
    }
}

fn seqs_eq(a: &Vec<String>, b: &Vec<String>) -> (r: bool)
    ensures
        r == (a@.map_values(|s: String| s@) == b@.map_values(|s: String| s@)),
{
    let n = a.len();
    if n != b.len() {
        proof {
            assert(a@.map_values(|s: String| s@).len() != b@.map_values(|s: String| s@).len());
        }
        return false;
    }
    let mut i: usize = 0;
    while i < n
        invariant
            0 <= i <= n,
            n == a@.len(),
            n == b@.len(),
            forall|k: int| 0 <= k < i ==> (#[trigger] a@[k])@ == b@[k]@,
        decreases n - i,
    {
        if !crate::strutil::string_eq(&a[i], &b[i]) {
            proof {
                assert(a@.map_values(|s: String| s@)[i as int] == a@[i as int]@);
                assert(b@.map_values(|s: String| s@)[i as int] == b@[i as int]@);
            }
            return false;
        }
        i = i + 1;
    }
    proof {
        assert(a@.map_values(|s: String| s@) =~= b@.map_values(|s: String| s@));
    }
    true
}

/// The shown family-name prefix of one cite, as owned strings.
fn prefix_of(lists: &Vec<Vec<Name>>, shown: &Vec<u32>, i: usize) -> (r: Vec<String>)
    requires
        i < lists@.len(),
        shown@.len() == lists@.len(),
    ensures
        r@.map_values(|s: String| s@) == sp_prefix(lists@, shown@, i as int),
{
    let len = lists[i].len();
    let k: usize = if (shown[i] as usize) <= len {
        shown[i] as usize
    } else {
        len
    };
    let mut r: Vec<String> = Vec::new();
    let mut j: usize = 0;
    while j < k
        invariant
            0 <= j <= k <= lists@[i as int]@.len(),
            i < lists@.len(),
            r@.len() == j,
            forall|m: int| 0 <= m < j ==> (#[trigger] r@[m])@ == sp_fams(lists@[i as int]@)[m],
        decreases k - j,
    {
        r.push(lists[i][j].family_str().to_owned());
        j = j + 1;
    }
    proof {
        if shown@[i as int] <= sp_fams(lists@[i as int]@).len() {
            assert(r@.map_values(|s: String| s@) =~= sp_fams(lists@[i as int]@).take(
                shown@[i as int] as int,
            ));
        } else {
            assert(r@.map_values(|s: String| s@) =~= sp_fams(lists@[i as int]@));
        }
    }
    r
}

/// Whether cite `i` collides with another cite under the shown counts.
fn collides(lists: &Vec<Vec<Name>>, shown: &Vec<u32>, i: usize) -> (r: bool)
    requires
        i < lists@.len(),
        shown@.len() == lists@.len(),
    ensures
        r == sp_collides(lists@, shown@, i as int),
{
    let mine = prefix_of(lists, shown, i);
    let n = lists.len();
    let mut j: usize = 0;
    while j < n
        invariant
            0 <= j <= n,
            n == lists@.len(),
            i < n,
            shown@.len() == n,
            mine@.map_values(|s: String| s@) == sp_prefix(lists@, shown@, i as int),
            forall|k: int|
                0 <= k < j && k != i ==> !(#[trigger] sp_prefix(lists@, shown@, k) == sp_prefix(
                    lists@,
                    shown@,
                    i as int,
                ) && sp_fams(lists@[k]@) != sp_fams(lists@[i as int]@)),
        decreases n - j,
    {
        if j != i {
            let theirs = prefix_of(lists, shown, j);
            if seqs_eq(&mine, &theirs) {
                let fa = full_families(lists, i);
                let fb = full_families(lists, j);
                if !seqs_eq(&fa, &fb) {
                    return true;
                }
            }
        }
        j = j + 1;
    }
    false
}

/// All the family names of one cite's list.
fn full_families(lists: &Vec<Vec<Name>>, i: usize) -> (r: Vec<String>)
    requires
        i < lists@.len(),
    ensures
        r@.map_values(|s: String| s@) == sp_fams(lists@[i as int]@),
{
    let len = lists[i].len();
    let mut r: Vec<String> = Vec::new();
    let mut j: usize = 0;
    while j < len
        invariant
            0 <= j <= len,
            i < lists@.len(),
            len == lists@[i as int]@.len(),
            r@.len() == j,
            forall|m: int| 0 <= m < j ==> (#[trigger] r@[m])@ == sp_fams(lists@[i as int]@)[m],
        decreases len - j,
    {
        r.push(lists[i][j].family_str().to_owned());
        j = j + 1;
    }
    proof {
        assert(r@.map_values(|s: String| s@) =~= sp_fams(lists@[i as int]@));
    }
    r
}

/// One round of add-names: every colliding cite that can show one more
/// name does.  Returns whether anything expanded.
pub fn add_names_round(lists: &Vec<Vec<Name>>, shown: &mut Vec<u32>) -> (changed: bool)
    requires
        old(shown)@.len() == lists@.len(),
        forall|i: int| 0 <= i < lists@.len() ==> (#[trigger] lists@[i])@.len() < 4294967295,
    ensures
        final(shown)@.len() == lists@.len(),
        changed == exists|i: int|
            0 <= i < lists@.len() && #[trigger] sp_collides(lists@, old(shown)@, i) && old(
                shown,
            )@[i] < lists@[i]@.len(),
        forall|i: int|
            0 <= i < lists@.len() ==> final(shown)@[i] == if sp_collides(
                lists@,
                old(shown)@,
                i,
            ) && old(shown)@[i] < lists@[i]@.len() {
                (old(shown)@[i] + 1) as u32
            } else {
                old(shown)@[i]
            },
{
    let n = lists.len();
    let mut next: Vec<u32> = Vec::new();
    let mut changed = false;
    let mut i: usize = 0;
    while i < n
        invariant
            0 <= i <= n,
            n == lists@.len(),
            shown@ == old(shown)@,
            shown@.len() == n,
            forall|k: int| 0 <= k < n ==> (#[trigger] lists@[k])@.len() < 4294967295,
            next@.len() == i,
            forall|k: int|
                0 <= k < i ==> next@[k] == if sp_collides(lists@, shown@, k) && shown@[k]
                    < lists@[k]@.len() {
                    (shown@[k] + 1) as u32
                } else {
                    shown@[k]
                },
            changed == exists|k: int|
                0 <= k < i && #[trigger] sp_collides(lists@, shown@, k) && shown@[k] < lists@[
                    k]@.len(),
        decreases n - i,
    {
        let c = collides(lists, shown, i);
        if c && (shown[i] as usize) < lists[i].len() {
            next.push(shown[i] + 1);
            changed = true;
        } else {
            next.push(shown[i]);
        }
        i = i + 1;
    }
    *shown = next;
    changed
}

/// The family-name lists of all cites, as plain characters.
pub open spec fn sp_fams_all(lists: Seq<Vec<Name>>) -> Seq<Seq<Seq<char>>> {
    lists.map_values(|l: Vec<Name>| sp_fams(l@))
}

/// The shown prefix of one family list, over plain data.
pub open spec fn sp_prefix_v(f: Seq<Seq<Seq<char>>>, shown: Seq<u32>, i: int) -> Seq<Seq<char>> {
    if shown[i] <= f[i].len() {
        f[i].take(shown[i] as int)
    } else {
        f[i]
    }
}

/// Family-level collision over plain data: equal shown prefixes over
/// different full family lists.
pub open spec fn sp_collides_v(f: Seq<Seq<Seq<char>>>, shown: Seq<u32>, i: int) -> bool {
    exists|j: int|
        0 <= j < f.len() && j != i && #[trigger] sp_prefix_v(f, shown, j) == sp_prefix_v(f, shown, i)
            && f[j] != f[i]
}

/// One add-names round over plain data: every colliding cite that can
/// show one more name does.
pub open spec fn sp_round_v(f: Seq<Seq<Seq<char>>>, shown: Seq<u32>) -> Seq<u32> {
    Seq::new(
        shown.len(),
        |i: int|
            if sp_collides_v(f, shown, i) && shown[i] < f[i].len() {
                (shown[i] + 1) as u32
            } else {
                shown[i]
            },
    )
}

/// The add-names fixed point: rounds applied until none changes anything.
/// The fuel only bounds the recursion; it exceeds the rounds any document
/// the counts admit could take, so the fixed point is always reached.
pub open spec fn sp_fix_v(f: Seq<Seq<Seq<char>>>, shown: Seq<u32>, fuel: nat) -> Seq<u32>
    decreases fuel,
{
    if fuel == 0 {
        shown
    } else {
        let next = sp_round_v(f, shown);
        if next == shown {
            shown
        } else {
            sp_fix_v(f, next, (fuel - 1) as nat)
        }
    }
}

proof fn lemma_collides_v(lists: Seq<Vec<Name>>, shown: Seq<u32>, i: int)
    requires
        0 <= i < lists.len(),
    ensures
        sp_collides_v(sp_fams_all(lists), shown, i) == sp_collides(lists, shown, i),
{
    let f = sp_fams_all(lists);
    assert(f.len() == lists.len());
    assert forall|k: int| 0 <= k < lists.len() implies #[trigger] sp_prefix_v(f, shown, k)
        == sp_prefix(lists, shown, k) by {
        assert(f[k] == sp_fams(lists[k]@));
    }
    if sp_collides(lists, shown, i) {
        let j = choose|j: int|
            0 <= j < lists.len() && j != i && #[trigger] sp_prefix(lists, shown, j) == sp_prefix(
                lists,
                shown,
                i,
            ) && sp_fams(lists[j]@) != sp_fams(lists[i]@);
        assert(f[j] == sp_fams(lists[j]@) && f[i] == sp_fams(lists[i]@));
        assert(sp_prefix_v(f, shown, j) == sp_prefix_v(f, shown, i) && f[j] != f[i]);
        assert(sp_collides_v(f, shown, i));
    }
    if sp_collides_v(f, shown, i) {
        let j = choose|j: int|
            0 <= j < f.len() && j != i && #[trigger] sp_prefix_v(f, shown, j) == sp_prefix_v(
                f,
                shown,
                i,
            ) && f[j] != f[i];
        assert(f[j] == sp_fams(lists[j]@) && f[i] == sp_fams(lists[i]@));
        assert(sp_prefix(lists, shown, j) == sp_prefix(lists, shown, i) && sp_fams(lists[j]@)
            != sp_fams(lists[i]@));
        assert(sp_collides(lists, shown, i));
    }
}

/// A cite's names as pairs of family and given characters.
pub open spec fn sp_pairs(l: Seq<Name>) -> Seq<(Seq<char>, Seq<char>)> {
    l.map_values(|n: Name| (spec_name_family(n), spec_name_given(n)))
}

/// Every cite's name pairs.
pub open spec fn sp_pairs_all(lists: Seq<Vec<Name>>) -> Seq<Seq<(Seq<char>, Seq<char>)>> {
    lists.map_values(|l: Vec<Name>| sp_pairs(l@))
}

/// The family components of a pair list.
pub open spec fn sp_pair_fams(p: Seq<(Seq<char>, Seq<char>)>) -> Seq<Seq<char>> {
    p.map_values(|x: (Seq<char>, Seq<char>)| x.0)
}

/// The shown family prefix of one pair list.
pub open spec fn sp_prefix_p(pl: Seq<Seq<(Seq<char>, Seq<char>)>>, shown: Seq<u32>, i: int) -> Seq<
    Seq<char>,
> {
    let fams = sp_pair_fams(pl[i]);
    if shown[i] <= fams.len() {
        fams.take(shown[i] as int)
    } else {
        fams
    }
}

/// Whether cite `i` stays ambiguous once its names are shown: another cite
/// shows the same family prefix while the full name pairs differ, so only
/// given names or hidden names could still tell the two apart.
pub open spec fn sp_gn_collides(pl: Seq<Seq<(Seq<char>, Seq<char>)>>, shown: Seq<u32>, i: int) -> bool {
    exists|j: int|
        0 <= j < pl.len() && j != i && #[trigger] sp_prefix_p(pl, shown, j) == sp_prefix_p(
            pl,
            shown,
            i,
        ) && pl[j] != pl[i]
}

/// Whether two name lists carry the same family and given characters.
fn pairs_eq(a: &Vec<Name>, b: &Vec<Name>) -> (r: bool)
    ensures
        r == (sp_pairs(a@) == sp_pairs(b@)),
{
    let n = a.len();
    if n != b.len() {
        proof {
            assert(sp_pairs(a@).len() != sp_pairs(b@).len());
        }
        return false;
    }
    let mut i: usize = 0;
    while i < n
        invariant
            0 <= i <= n,
            n == a@.len(),
            n == b@.len(),
            forall|k: int|
                0 <= k < i ==> spec_name_family(#[trigger] a@[k]) == spec_name_family(b@[k])
                    && crate::names::spec_name_given(a@[k]) == crate::names::spec_name_given(
                    b@[k],
                ),
        decreases n - i,
    {
        if !crate::strutil::str_eq(a[i].family_str(), b[i].family_str()) || !crate::strutil::str_eq(
            a[i].given_str(),
            b[i].given_str(),
        ) {
            proof {
                assert(sp_pairs(a@)[i as int] == (
                    spec_name_family(a@[i as int]),
                    crate::names::spec_name_given(a@[i as int]),
                ));
                assert(sp_pairs(b@)[i as int] == (
                    spec_name_family(b@[i as int]),
                    crate::names::spec_name_given(b@[i as int]),
                ));
            }
            return false;
        }
        i = i + 1;
    }
    proof {
        assert(sp_pairs(a@) =~= sp_pairs(b@));
    }
    true
}

/// Whether cite `i` stays ambiguous under the shown counts.
pub fn gn_collides(lists: &Vec<Vec<Name>>, shown: &Vec<u32>, i: usize) -> (r: bool)
    requires
        i < lists@.len(),
        shown@.len() == lists@.len(),
    ensures
        r == sp_gn_collides(sp_pairs_all(lists@), shown@, i as int),
{
    proof {
        lemma_prefix_p_is_prefix(lists@, shown@);
    }
    let mine = prefix_of(lists, shown, i);
    let n = lists.len();
    let ghost pl = sp_pairs_all(lists@);
    let mut j: usize = 0;
    while j < n
        invariant
            0 <= j <= n,
            n == lists@.len(),
            i < n,
            shown@.len() == n,
            pl == sp_pairs_all(lists@),
            forall|k: int|
                0 <= k < lists@.len() ==> #[trigger] sp_prefix_p(pl, shown@, k) == sp_prefix(
                    lists@,
                    shown@,
                    k,
                ) && pl[k] == sp_pairs(lists@[k]@),
            mine@.map_values(|s: String| s@) == sp_prefix(lists@, shown@, i as int),
            forall|k: int|
                0 <= k < j && k != i ==> !(#[trigger] sp_prefix_p(pl, shown@, k) == sp_prefix_p(
                    pl,
                    shown@,
                    i as int,
                ) && pl[k] != pl[i as int]),
        decreases n - j,
    {
        if j != i {
            let theirs = prefix_of(lists, shown, j);
            if seqs_eq(&mine, &theirs) {
                if !pairs_eq(&lists[i], &lists[j]) {
                    proof {
                        assert(sp_prefix_p(pl, shown@, j as int) == sp_prefix_p(
                            pl,
                            shown@,
                            i as int,
                        ));
                        assert(pl[j as int] != pl[i as int]);
                        assert(sp_gn_collides(pl, shown@, i as int));
                    }
                    return true;
                }
            }
        }
        j = j + 1;
    }
    false
}

proof fn lemma_prefix_p_is_prefix(lists: Seq<Vec<Name>>, shown: Seq<u32>)
    ensures
        forall|k: int|
            0 <= k < lists.len() ==> #[trigger] sp_prefix_p(sp_pairs_all(lists), shown, k)
                == sp_prefix(lists, shown, k) && sp_pairs_all(lists)[k] == sp_pairs(lists[k]@),
{
    let pl = sp_pairs_all(lists);
    assert forall|k: int|
        0 <= k < lists.len() implies #[trigger] sp_prefix_p(pl, shown, k) == sp_prefix(
        lists,
        shown,
        k,
    ) && pl[k] == sp_pairs(lists[k]@) by {
        assert(pl[k] == sp_pairs(lists[k]@));
        assert(sp_pair_fams(sp_pairs(lists[k]@)) =~= sp_fams(lists[k]@));
    }
}

proof fn lemma_slack_decreases(lists: Seq<Vec<Name>>, a: Seq<u32>, b: Seq<u32>)
    requires
        a.len() == lists.len(),
        b.len() == lists.len(),
        forall|i: int| 0 <= i < lists.len() ==> a[i] <= #[trigger] b[i],
        forall|i: int| 0 <= i < lists.len() ==> #[trigger] b[i] <= lists[i]@.len() || b[i] == a[i],
    ensures
        sp_slack(lists, b) <= sp_slack(lists, a),
        (exists|i: int| 0 <= i < lists.len() && a[i] < #[trigger] b[i] && b[i] <= lists[i]@.len())
            ==> sp_slack(lists, b) < sp_slack(lists, a),
    decreases lists.len(),
{
    if lists.len() > 0 {
        assert(forall|i: int|
            0 <= i < lists.drop_first().len() ==> #[trigger] lists.drop_first()[i] == lists[i
                + 1]);
        assert(forall|i: int|
            0 <= i < a.drop_first().len() ==> #[trigger] a.drop_first()[i] == a[i + 1]);
        assert(forall|i: int|
            0 <= i < b.drop_first().len() ==> #[trigger] b.drop_first()[i] == b[i + 1]);
        lemma_slack_decreases(lists.drop_first(), a.drop_first(), b.drop_first());
        if exists|i: int|
            0 <= i < lists.len() && a[i] < #[trigger] b[i] && b[i] <= lists[i]@.len() {
            let i = choose|i: int|
                0 <= i < lists.len() && a[i] < #[trigger] b[i] && b[i] <= lists[i]@.len();
            if i == 0 {
            } else {
                assert(a.drop_first()[i - 1] < b.drop_first()[i - 1]);
            }
        }
    }
}

proof fn lemma_slack_nonneg(lists: Seq<Vec<Name>>, a: Seq<u32>)
    ensures
        sp_slack(lists, a) >= 0,
    decreases lists.len(),
{
    if lists.len() > 0 {
        lemma_slack_nonneg(lists.drop_first(), a.drop_first());
    }
}

proof fn lemma_slack_upper(lists: Seq<Vec<Name>>, a: Seq<u32>)
    requires
        forall|i: int| 0 <= i < lists.len() ==> (#[trigger] lists[i])@.len() < 1000000,
    ensures
        sp_slack(lists, a) <= lists.len() * 1000000,
    decreases lists.len(),
{
    if lists.len() > 0 {
        assert(forall|i: int|
            0 <= i < lists.drop_first().len() ==> #[trigger] lists.drop_first()[i] == lists[i
                + 1]);
        lemma_slack_upper(lists.drop_first(), a.drop_first());
        assert(lists[0]@.len() < 1000000);
        assert((lists.len() - 1) * 1000000 == lists.len() * 1000000 - 1000000) by (nonlinear_arith);
    }
}

/// Law: add-names reaches its fixed point, in a bounded number of rounds.
/// Each productive round exposes at least one more name, so the rounds
/// never exceed the total number of names still hidden, plus the final
/// settling round.  The counts only grow, and never past a list's length.
pub fn add_names(lists: &Vec<Vec<Name>>, initial: u32) -> (r: (Vec<u32>, u64))
    requires
        forall|i: int| 0 <= i < lists@.len() ==> (#[trigger] lists@[i])@.len() < 1000000,
        lists@.len() < 1000000,
    ensures
        r.0@.len() == lists@.len(),
        r.0@ == sp_fix_v(
            sp_fams_all(lists@),
            Seq::new(lists@.len(), |i: int| initial),
            1000000000000nat,
        ),
        r.1 as int <= 1 + sp_slack(lists@, Seq::new(lists@.len(), |i: int| initial)),
        forall|i: int| 0 <= i < lists@.len() ==> initial <= #[trigger] r.0@[i],
        !(exists|i: int|
            0 <= i < lists@.len() && #[trigger] sp_collides(lists@, r.0@, i) && r.0@[i] < lists@[
                i]@.len()),
{
    let n = lists.len();
    let mut shown: Vec<u32> = Vec::new();
    let mut i: usize = 0;
    while i < n
        invariant
            0 <= i <= n,
            n == lists@.len(),
            shown@.len() == i,
            forall|k: int| 0 <= k < i ==> #[trigger] shown@[k] == initial,
        decreases n - i,
    {
        shown.push(initial);
        i = i + 1;
    }
    proof {
        assert(shown@ =~= Seq::new(lists@.len(), |i: int| initial));
        lemma_slack_nonneg(lists@, shown@);
        lemma_slack_upper(lists@, shown@);
        assert(lists@.len() * 1000000 < 1000000000000int) by (nonlinear_arith)
            requires lists@.len() < 1000000;
    }
    let ghost init_shown = shown@;
    let ghost fams = sp_fams_all(lists@);
    let mut rounds: u64 = 0;
    let mut settled = false;
    while !settled
        invariant
            shown@.len() == lists@.len(),
            n == lists@.len(),
            fams == sp_fams_all(lists@),
            forall|k: int| 0 <= k < lists@.len() ==> (#[trigger] lists@[k])@.len() < 4294967295,
            forall|k: int| 0 <= k < lists@.len() ==> initial <= #[trigger] shown@[k],
            sp_slack(lists@, shown@) >= 0,
            rounds as int <= 1 + sp_slack(lists@, init_shown) - sp_slack(lists@, shown@),
            sp_slack(lists@, init_shown) >= sp_slack(lists@, shown@),
            sp_slack(lists@, init_shown) < 1000000000000int,
            rounds as int + 1 + sp_slack(lists@, shown@) <= 1000000000000int,
            sp_fix_v(fams, init_shown, 1000000000000nat) == sp_fix_v(
                fams,
                shown@,
                (1000000000000int - rounds as int) as nat,
            ),
            settled ==> sp_round_v(fams, shown@) == shown@,
            settled ==> !(exists|i: int|
                0 <= i < lists@.len() && #[trigger] sp_collides(lists@, shown@, i) && shown@[i]
                    < lists@[i]@.len()),
        decreases 2 * sp_slack(lists@, shown@) + (if settled {
            0int
        } else {
            1int
        }),
    {
        let ghost before = shown@;
        let changed = add_names_round(lists, &mut shown);
        proof {
            assert(forall|k: int| 0 <= k < lists@.len() ==> before[k] <= #[trigger] shown@[k]);
            lemma_slack_decreases(lists@, before, shown@);
            lemma_slack_nonneg(lists@, shown@);
            assert forall|k: int| 0 <= k < lists@.len() implies #[trigger] sp_round_v(
                fams,
                before,
            )[k] == shown@[k] by {
                lemma_collides_v(lists@, before, k);
                assert(fams[k] == sp_fams(lists@[k]@));
                assert(fams[k].len() == lists@[k]@.len());
            }
            assert(sp_round_v(fams, before) =~= shown@);
            if changed {
                let i = choose|i: int|
                    0 <= i < lists@.len() && #[trigger] sp_collides(lists@, before, i) && before[
                        i] < lists@[i]@.len();
                assert(before[i] < shown@[i] && shown@[i] <= lists@[i]@.len());
                assert(sp_slack(lists@, shown@) < sp_slack(lists@, before));
                assert(shown@ != before);
                let ghost fuel = (1000000000000int - rounds as int) as nat;
                assert(fuel >= 1);
                assert(sp_fix_v(fams, before, fuel) == sp_fix_v(
                    fams,
                    shown@,
                    (fuel - 1) as nat,
                ));
            }
        }
        if !changed {
            proof {
                assert(shown@ =~= before);
                assert(sp_round_v(fams, shown@) == shown@);
            }
            settled = true;
        } else {
            rounds = rounds + 1;
        }
    }
    proof {
        let ghost fuel = (1000000000000int - rounds as int) as nat;
        assert(sp_fix_v(fams, shown@, fuel) == shown@);
    }
    (shown, rounds)
}

} // verus!
