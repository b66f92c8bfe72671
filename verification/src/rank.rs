//! Ranking aspects by their playcount.
//!
//! Aspects are ranked by plays (descending), and aspects with the same
//! number of plays by name (ascending, see the order of [`Music::order_key`]).

use core::cmp::Ordering;

use vstd::prelude::*;

use crate::aspect::{lemma_keys_lt_total, ordering_between, Music};
use crate::text::keys_lt;

verus! {

/// `a` ranks before `b`: it has more plays, or as many and comes first by name.
pub open spec fn ranked_before<T: Music>(a: (T, usize), b: (T, usize)) -> bool {
    ||| a.1 > b.1
    ||| a.1 == b.1 && keys_lt(T::order_key(a.0@), T::order_key(b.0@))
}

/// No element of `v` ranks before an earlier one.
pub open spec fn is_ranked<T: Music>(v: Seq<(T, usize)>) -> bool {
    forall|i: int, j: int| 0 <= i < j < v.len() ==> !ranked_before(#[trigger] v[j], #[trigger] v[i])
}

/// Compares two aspects with their plays by rank.
fn compare_ranked<T: Music>(a: &(T, usize), b: &(T, usize)) -> (r: Ordering)
    ensures
        r == Ordering::Less <==> ranked_before(*a, *b),
        r == Ordering::Greater <==> ranked_before(*b, *a),
{
    proof {
        T::lemma_order_key_injective(a.0@, b.0@);
        lemma_keys_lt_total(T::order_key(a.0@), T::order_key(b.0@));
    }
    if a.1 > b.1 {
        Ordering::Less
    } else if a.1 < b.1 {
        Ordering::Greater
    } else {
        ordering_between(&a.0, &b.0)
    }
}

/// Sorts aspects with their plays by rank.
///
/// Trusted: calls `slice::sort_unstable_by` with [`compare_ranked`] as the
/// comparison, which std documents as sorting the slice (reordering its
/// elements) so that each element compares as no greater than the next.
#[verifier::external_body]
fn sort_ranked<T: Music>(v: &mut Vec<(T, usize)>)
    ensures
        final(v)@.to_multiset() == old(v)@.to_multiset(),
        is_ranked(final(v)@),
{
    v.sort_unstable_by(|a, b| compare_ranked(a, b));
}

/// `r` holds the `num` best ranked elements of `v` (all of them if there are
/// fewer), by rank.
pub open spec fn is_top<T: Music>(r: Seq<(T, usize)>, v: Seq<(T, usize)>, num: nat) -> bool {
    &&& r.len() == if num < v.len() { num } else { v.len() }
    &&& is_ranked(r)
    &&& forall|i: int| 0 <= i < r.len() ==> v.contains(#[trigger] r[i])
    &&& r.to_multiset().subset_of(v.to_multiset())
    &&& forall|k: int, i: int| 0 <= k < v.len() && 0 <= i < r.len() && !r.contains(v[k])
            ==> !ranked_before(#[trigger] v[k], #[trigger] r[i])
}

/// Returns the `num` best ranked aspects of `tally` (all of them if there
/// are fewer), by rank: sorted by plays descending and then by name.
pub fn sorted_by_plays<T: Music>(tally: Vec<(T, usize)>, num: usize) -> (r: Vec<(T, usize)>)
    ensures
        is_top(r@, tally@, num as nat),
{
    let ghost v = tally@;
    let mut sorted = tally;
    sort_ranked(&mut sorted);
    let ghost s = sorted@;
    proof {
        v.to_multiset_ensures();
        s.to_multiset_ensures();
        assert forall|i: int| 0 <= i < s.len() implies v.contains(#[trigger] s[i]) by {
            assert(s.contains(s[i]));
            assert(s.to_multiset().count(s[i]) > 0);
        }
        assert forall|k: int| 0 <= k < v.len() implies s.contains(#[trigger] v[k]) by {
            assert(v.contains(v[k]));
            assert(v.to_multiset().count(v[k]) > 0);
        }
    }
    if num < sorted.len() {
        sorted.truncate(num);
    }
    proof {
        let r = sorted@;
        assert(r == s.take(r.len() as int));
        assert(s =~= r + s.skip(r.len() as int));
        vstd::seq_lib::lemma_multiset_commutative(r, s.skip(r.len() as int));
        assert(r.to_multiset().subset_of(v.to_multiset())) by {
            assert forall|x: (T, usize)| r.to_multiset().count(x) <= v.to_multiset().count(x) by {
                assert(s.to_multiset() =~= r.to_multiset().add(s.skip(r.len() as int).to_multiset()));
            }
        }
        assert forall|i: int| 0 <= i < r.len() implies v.contains(#[trigger] r[i]) by {
            assert(r[i] == s[i]);
        }
        assert forall|k: int, i: int| 0 <= k < v.len() && 0 <= i < r.len() && !r.contains(v[k])
            implies !ranked_before(#[trigger] v[k], #[trigger] r[i]) by {
            assert(s.contains(v[k]));
            let p = choose|p: int| 0 <= p < s.len() && s[p] == v[k];
            if p < r.len() {
                assert(r[p] == v[k]);
            } else {
                assert(r[i] == s[i]);
            }
        }
    }
    sorted
}

/// A ranking: every element of `v` with its position (counted from 1).
pub open spec fn positions<T: Music>(r: Seq<(T, usize, usize)>, v: Seq<(T, usize)>) -> bool {
    &&& r.len() == v.len()
    &&& forall|i: int| 0 <= i < r.len() ==> #[trigger] r[i].0@ == v[i].0@ && r[i].1 == v[i].1 && r[i].2 == i + 1
}

/// Ranks all aspects of `tally`: each with its plays and its position
/// (counted from 1) in the order of [`sorted_by_plays`].
pub fn ranking<T: Music>(tally: Vec<(T, usize)>) -> (r: Vec<(T, usize, usize)>)
    ensures
        exists|sorted: Seq<(T, usize)>| #[trigger] is_top(sorted, tally@, tally@.len()) && positions(r@, sorted),
{
    let n = tally.len();
    let sorted = sorted_by_plays(tally, n);
    let mut r: Vec<(T, usize, usize)> = Vec::new();
    let mut i: usize = 0;
    while i < sorted.len()
        invariant
            i <= sorted@.len(),
            r@.len() == i,
            forall|k: int| 0 <= k < i ==> #[trigger] r@[k].0@ == sorted@[k].0@ && r@[k].1 == sorted@[k].1 && r@[k].2 == k + 1,
        decreases sorted@.len() - i,
    {
        r.push((sorted[i].0.duplicate(), sorted[i].1, i + 1));
        i = i + 1;
    }
    r
}

} // verus!
