//! Gathering artists, albums and songs with their playcounts.
//!
//! These functions take a slice of [`SongEntry`]s: the whole dataset, or the
//! part between two dates that [`SongEntries::between`][crate::entry::SongEntries::between]
//! returns. Aspects with playcounts are listed in the order of their first play.

use vstd::prelude::*;

use crate::aspect::{Album, Artist, HasSongs, Music, Song};
use crate::entry::SongEntry;
use crate::text::{chars_lt, lemma_chars_lt_total, lemma_chars_lt_transitive, order_of, Order};

verus! {

/// The aspects (of kind `T`) of the entries of `s`, in order.
pub open spec fn views<T: Music>(s: Seq<SongEntry>) -> Seq<T::V>
    decreases s.len(),
{
    if s.len() == 0 {
        seq![]
    } else {
        views::<T>(s.drop_last()).push(T::of_entry(s.last()))
    }
}

/// The aspects (of kind `T`) of the entries of `s` that are plays of `a` (of kind `A`), in order.
pub open spec fn views_where<A: Music, T: Music>(s: Seq<SongEntry>, a: A::V) -> Seq<T::V>
    decreases s.len(),
{
    if s.len() == 0 {
        seq![]
    } else if A::of_entry(s.last()) == a {
        views_where::<A, T>(s.drop_last(), a).push(T::of_entry(s.last()))
    } else {
        views_where::<A, T>(s.drop_last(), a)
    }
}

/// The distinct values of `s`, in the order of their first occurrence.
pub open spec fn distinct<V>(s: Seq<V>) -> Seq<V>
    decreases s.len(),
{
    if s.len() == 0 {
        seq![]
    } else if distinct(s.drop_last()).contains(s.last()) {
        distinct(s.drop_last())
    } else {
        distinct(s.drop_last()).push(s.last())
    }
}

/// How often `v` occurs in `s`.
pub open spec fn count_in<V>(s: Seq<V>, v: V) -> nat
    decreases s.len(),
{
    if s.len() == 0 {
        0
    } else {
        count_in(s.drop_last(), v) + if s.last() == v { 1nat } else { 0nat }
    }
}

/// `r` lists each distinct value of `s` once, in the order of first
/// occurrence, each with how often it occurs in `s`.
pub open spec fn is_tally<T: Music>(r: Seq<(T, usize)>, s: Seq<T::V>) -> bool {
    &&& r.len() == distinct(s).len()
    &&& forall|i: int| 0 <= i < r.len() ==> #[trigger] r[i].0@ == distinct(s)[i]
    &&& forall|i: int| 0 <= i < r.len() ==> #[trigger] r[i].1 == count_in(s, r[i].0@)
}

/// The number of plays of `a` among the entries of `s`.
pub open spec fn plays_in<A: Music>(s: Seq<SongEntry>, a: A::V) -> nat {
    count_in(views::<A>(s), a)
}

/// The total time played over the entries of `s`, in milliseconds.
pub open spec fn total_time(s: Seq<SongEntry>) -> int
    decreases s.len(),
{
    if s.len() == 0 {
        0
    } else {
        total_time(s.drop_last()) + s.last().time_played
    }
}

/// Every running total of the time played over `s` fits in the range of a duration.
pub open spec fn time_sums_fit(s: Seq<SongEntry>) -> bool {
    forall|i: int| 0 <= i <= s.len() ==> -i64::MAX <= #[trigger] total_time(s.take(i)) <= i64::MAX
}

pub(crate) proof fn lemma_take_last<V>(s: Seq<V>, i: int)
    requires
        0 <= i < s.len(),
    ensures
        s.take(i + 1).drop_last() == s.take(i),
        s.take(i + 1).last() == s[i],
{
    assert(s.take(i + 1).drop_last() =~= s.take(i));
}

pub proof fn lemma_distinct_facts<V>(s: Seq<V>)
    ensures
        forall|i: int, j: int| 0 <= i < j < distinct(s).len() ==> distinct(s)[i] != distinct(s)[j],
        forall|v: V| #[trigger] distinct(s).contains(v) <==> s.contains(v),
        distinct(s).len() <= s.len(),
    decreases s.len(),
{
    if s.len() > 0 {
        lemma_distinct_facts(s.drop_last());
        assert forall|v: V| #[trigger] distinct(s).contains(v) <==> s.contains(v) by {
            if s.contains(v) {
                let k = choose|k: int| 0 <= k < s.len() && s[k] == v;
                if k < s.len() - 1 {
                    assert(s.drop_last()[k] == v);
                    assert(s.drop_last().contains(v));
                }
            }
            if distinct(s.drop_last()).contains(v) {
                let k = choose|k: int| 0 <= k < s.drop_last().len() && s.drop_last()[k] == v;
                assert(s[k] == v);
            }
            if !distinct(s.drop_last()).contains(s.last()) {
                assert(distinct(s)[distinct(s).len() - 1] == s.last());
                if distinct(s).contains(v) && v != s.last() {
                    let k = choose|k: int| 0 <= k < distinct(s).len() && distinct(s)[k] == v;
                    assert(distinct(s.drop_last())[k] == v);
                }
                if distinct(s.drop_last()).contains(v) {
                    let k = choose|k: int| 0 <= k < distinct(s.drop_last()).len() && distinct(s.drop_last())[k] == v;
                    assert(distinct(s)[k] == v);
                }
            }
        }
    }
}


/// `keys` and `counts` hold the tally of `s`.
pub open spec fn tally_state<T: Music>(keys: Seq<T>, counts: Seq<usize>, s: Seq<T::V>) -> bool {
    &&& keys.len() == counts.len()
    &&& keys.len() == distinct(s).len()
    &&& forall|j: int| 0 <= j < keys.len() ==> #[trigger] keys[j]@ == distinct(s)[j]
    &&& forall|j: int| 0 <= j < keys.len() ==> #[trigger] counts[j] == count_in(s, keys[j]@)
}

/// The index of the key that `e` is a play of, if any.
pub(crate) fn position_of<T: Music>(keys: &Vec<T>, e: &SongEntry) -> (r: Option<usize>)
    ensures
        match r {
            Some(j) => j < keys@.len() && keys@[j as int]@ == T::of_entry(*e),
            None => forall|k: int| 0 <= k < keys@.len() ==> keys@[k]@ != T::of_entry(*e),
        },
{
    let mut j: usize = 0;
    while j < keys.len()
        invariant
            j <= keys@.len(),
            forall|k: int| 0 <= k < j ==> keys@[k]@ != T::of_entry(*e),
        decreases keys@.len() - j,
    {
        if keys[j].is_entry(e) {
            return Some(j);
        }
        j = j + 1;
    }
    None
}

proof fn lemma_count_le_len<V>(s: Seq<V>, v: V)
    ensures
        count_in(s, v) <= s.len(),
    decreases s.len(),
{
    if s.len() > 0 {
        lemma_count_le_len(s.drop_last(), v);
    }
}

/// Adds the aspect of `e` to a tally.
fn add_to_tally<T: Music>(keys: &mut Vec<T>, counts: &mut Vec<usize>, e: &SongEntry, Ghost(prev): Ghost<Seq<T::V>>)
    requires
        tally_state(old(keys)@, old(counts)@, prev),
        prev.len() < usize::MAX,
    ensures
        tally_state(final(keys)@, final(counts)@, prev.push(T::of_entry(*e))),
{
    let ghost x = T::of_entry(*e);
    let ghost next = prev.push(x);
    proof {
        lemma_distinct_facts(prev);
        assert(next.drop_last() == prev);
    }
    match position_of(keys, e) {
        Some(j) => {
            proof {
                assert(distinct(prev).contains(x)) by {
                    assert(distinct(prev)[j as int] == x);
                }
                assert(distinct(next) == distinct(prev));
                lemma_count_le_len(prev, x);
            }
            let c = counts[j];
            counts.set(j, c + 1);
        },
        None => {
            proof {
                assert(!distinct(prev).contains(x)) by {
                    if distinct(prev).contains(x) {
                        let k = choose|k: int| 0 <= k < distinct(prev).len() && distinct(prev)[k] == x;
                        assert(keys@[k]@ == x);
                    }
                }
                assert(distinct(next) == distinct(prev).push(x));
                lemma_count_absent(prev, x);
            }
            keys.push(T::from_entry(e));
            counts.push(1);
        },
    }
}

/// Pairs up the keys and counts of a tally.
fn tally_pairs<T: Music>(keys: &Vec<T>, counts: &Vec<usize>, Ghost(s): Ghost<Seq<T::V>>) -> (r: Vec<(T, usize)>)
    requires
        tally_state(keys@, counts@, s),
    ensures
        is_tally(r@, s),
{
    let mut r: Vec<(T, usize)> = Vec::new();
    let mut j: usize = 0;
    while j < keys.len()
        invariant
            j <= keys@.len(),
            tally_state(keys@, counts@, s),
            r@.len() == j,
            forall|k: int| 0 <= k < j ==> #[trigger] r@[k].0@ == keys@[k]@ && r@[k].1 == counts@[k],
        decreases keys@.len() - j,
    {
        r.push((keys[j].duplicate(), counts[j]));
        j = j + 1;
    }
    r
}

/// Tallies the aspects of kind `T` of all entries.
fn tally_all<T: Music>(entries: &[SongEntry]) -> (r: Vec<(T, usize)>)
    ensures
        is_tally(r@, views::<T>(entries@)),
{
    let mut keys: Vec<T> = Vec::new();
    let mut counts: Vec<usize> = Vec::new();
    let mut i: usize = 0;
    while i < entries.len()
        invariant
            i <= entries@.len(),
            tally_state(keys@, counts@, views::<T>(entries@.take(i as int))),
        decreases entries@.len() - i,
    {
        proof {
            lemma_take_last(entries@, i as int);
            lemma_views_len::<T>(entries@.take(i as int));
        }
        add_to_tally(&mut keys, &mut counts, &entries[i], Ghost(views::<T>(entries@.take(i as int))));
        i = i + 1;
    }
    assert(entries@.take(entries@.len() as int) == entries@);
    tally_pairs(&keys, &counts, Ghost(views::<T>(entries@)))
}

/// Tallies the aspects of kind `T` of the entries that are plays of `aspect`.
fn tally_where<A: Music, T: Music>(entries: &[SongEntry], aspect: &A) -> (r: Vec<(T, usize)>)
    ensures
        is_tally(r@, views_where::<A, T>(entries@, aspect@)),
{
    let mut keys: Vec<T> = Vec::new();
    let mut counts: Vec<usize> = Vec::new();
    let mut i: usize = 0;
    while i < entries.len()
        invariant
            i <= entries@.len(),
            tally_state(keys@, counts@, views_where::<A, T>(entries@.take(i as int), aspect@)),
        decreases entries@.len() - i,
    {
        proof {
            lemma_take_last(entries@, i as int);
            lemma_views_where_len::<A, T>(entries@.take(i as int), aspect@);
        }
        if aspect.is_entry(&entries[i]) {
            add_to_tally(&mut keys, &mut counts, &entries[i], Ghost(views_where::<A, T>(entries@.take(i as int), aspect@)));
        }
        i = i + 1;
    }
    assert(entries@.take(entries@.len() as int) == entries@);
    tally_pairs(&keys, &counts, Ghost(views_where::<A, T>(entries@, aspect@)))
}

/// The aspects of the entries of `s` are those of each entry in turn.
pub(crate) proof fn lemma_views_seq<T: Music>(s: Seq<SongEntry>)
    ensures
        views::<T>(s) == Seq::new(s.len(), |i: int| T::of_entry(s[i])),
    decreases s.len(),
{
    if s.len() > 0 {
        lemma_views_seq::<T>(s.drop_last());
        assert(views::<T>(s) =~= Seq::new(s.len(), |i: int| T::of_entry(s[i])));
    } else {
        assert(views::<T>(s) =~= Seq::new(s.len(), |i: int| T::of_entry(s[i])));
    }
}

pub(crate) proof fn lemma_views_len<T: Music>(s: Seq<SongEntry>)
    ensures
        views::<T>(s).len() == s.len(),
    decreases s.len(),
{
    if s.len() > 0 {
        lemma_views_len::<T>(s.drop_last());
    }
}

proof fn lemma_views_where_len<A: Music, T: Music>(s: Seq<SongEntry>, a: A::V)
    ensures
        views_where::<A, T>(s, a).len() <= s.len(),
    decreases s.len(),
{
    if s.len() > 0 {
        lemma_views_where_len::<A, T>(s.drop_last(), a);
    }
}

/// Returns all [`Song`]s with their playcount
/// (a song being a track of one particular album).
pub fn songs(entries: &[SongEntry]) -> (r: Vec<(Song, usize)>)
    ensures
        is_tally(r@, views::<Song>(entries@)),
{
    tally_all(entries)
}

/// Returns all [`Album`]s with their playcount.
pub fn albums(entries: &[SongEntry]) -> (r: Vec<(Album, usize)>)
    ensures
        is_tally(r@, views::<Album>(entries@)),
{
    tally_all(entries)
}

/// Returns all [`Artist`]s with their playcount.
pub fn artists(entries: &[SongEntry]) -> (r: Vec<(Artist, usize)>)
    ensures
        is_tally(r@, views::<Artist>(entries@)),
{
    tally_all(entries)
}

/// Returns the [`Song`]s of `aspect` (an artist or an album) with their playcount.
pub fn songs_from<Asp: HasSongs>(entries: &[SongEntry], aspect: &Asp) -> (r: Vec<(Song, usize)>)
    ensures
        is_tally(r@, views_where::<Asp, Song>(entries@, aspect@)),
{
    tally_where(entries, aspect)
}

/// Returns the [`Album`]s of `art` with their playcount.
pub fn albums_from_artist(entries: &[SongEntry], art: &Artist) -> (r: Vec<(Album, usize)>)
    ensures
        is_tally(r@, views_where::<Artist, Album>(entries@, art@)),
{
    tally_where(entries, art)
}

proof fn lemma_count_absent<V>(s: Seq<V>, v: V)
    requires
        !distinct(s).contains(v),
    ensures
        count_in(s, v) == 0,
    decreases s.len(),
{
    lemma_distinct_facts(s);
    if s.len() > 0 {
        lemma_distinct_facts(s.drop_last());
        assert(!s.drop_last().contains(v)) by {
            if s.drop_last().contains(v) {
                let k = choose|k: int| 0 <= k < s.drop_last().len() && s.drop_last()[k] == v;
                assert(s[k] == v);
            }
        }
        assert(s.last() != v) by {
            assert(s[s.len() - 1] == s.last());
        }
        lemma_count_absent(s.drop_last(), v);
    }
}


/// The number of entries of `s` that are plays of any of `aspects`.
pub open spec fn plays_of_any<A: Music>(s: Seq<SongEntry>, aspects: Seq<A::V>) -> nat
    decreases s.len(),
{
    if s.len() == 0 {
        0
    } else {
        plays_of_any::<A>(s.drop_last(), aspects) + if aspects.contains(A::of_entry(s.last())) {
            1nat
        } else {
            0nat
        }
    }
}

/// The views of a slice of aspects.
pub open spec fn aspect_views<A: Music>(s: Seq<A>) -> Seq<A::V> {
    Seq::new(s.len(), |i: int| s[i]@)
}

/// Counts up the plays of an [`Artist`], [`Album`] or [`Song`].
pub fn plays<Asp: Music>(entries: &[SongEntry], aspect: &Asp) -> (r: usize)
    ensures
        r == plays_in::<Asp>(entries@, aspect@),
{
    let mut n: usize = 0;
    let mut i: usize = 0;
    while i < entries.len()
        invariant
            i <= entries@.len(),
            n == plays_in::<Asp>(entries@.take(i as int), aspect@),
            n <= i,
        decreases entries@.len() - i,
    {
        proof {
            lemma_take_last(entries@, i as int);
            let v = views::<Asp>(entries@.take(i + 1));
            assert(v == views::<Asp>(entries@.take(i as int)).push(Asp::of_entry(entries@[i as int])));
            assert(v.drop_last() == views::<Asp>(entries@.take(i as int)));
        }
        if aspect.is_entry(&entries[i]) {
            n = n + 1;
        }
        i = i + 1;
    }
    assert(entries@.take(entries@.len() as int) == entries@);
    n
}

/// Counts up the plays of all aspects in a collection.
pub fn plays_of_many<Asp: Music>(entries: &[SongEntry], aspects: &[Asp]) -> (r: usize)
    ensures
        r == plays_of_any::<Asp>(entries@, aspect_views(aspects@)),
{
    let mut n: usize = 0;
    let mut i: usize = 0;
    while i < entries.len()
        invariant
            i <= entries@.len(),
            n == plays_of_any::<Asp>(entries@.take(i as int), aspect_views(aspects@)),
            n <= i,
        decreases entries@.len() - i,
    {
        proof {
            lemma_take_last(entries@, i as int);
        }
        let e = &entries[i];
        let mut j: usize = 0;
        let mut any = false;
        while j < aspects.len()
            invariant
                j <= aspects@.len(),
                any == exists|k: int| 0 <= k < j && aspects@[k]@ == Asp::of_entry(*e),
            decreases aspects@.len() - j,
        {
            if aspects[j].is_entry(e) {
                any = true;
            }
            j = j + 1;
        }
        proof {
            let vs = aspect_views(aspects@);
            if any {
                let k = choose|k: int| 0 <= k < aspects@.len() && aspects@[k]@ == Asp::of_entry(*e);
                assert(vs[k] == Asp::of_entry(*e));
            } else {
                assert(!vs.contains(Asp::of_entry(*e))) by {
                    if vs.contains(Asp::of_entry(*e)) {
                        let k = choose|k: int| 0 <= k < vs.len() && vs[k] == Asp::of_entry(*e);
                        assert(aspects@[k]@ == Asp::of_entry(*e));
                    }
                }
            }
        }
        if any {
            n = n + 1;
        }
        i = i + 1;
    }
    assert(entries@.take(entries@.len() as int) == entries@);
    n
}

/// Sums all plays: the number of entries.
pub fn all_plays(entries: &[SongEntry]) -> (r: usize)
    ensures
        r == entries@.len(),
{
    entries.len()
}

/// Returns the total time listened, in milliseconds.
pub fn listening_time(entries: &[SongEntry]) -> (r: i64)
    requires
        time_sums_fit(entries@),
    ensures
        r == total_time(entries@),
{
    let mut t: i64 = 0;
    let mut i: usize = 0;
    assert(entries@.take(0) =~= Seq::<SongEntry>::empty());
    while i < entries.len()
        invariant
            i <= entries@.len(),
            time_sums_fit(entries@),
            t == total_time(entries@.take(i as int)),
        decreases entries@.len() - i,
    {
        proof {
            lemma_take_last(entries@, i as int);
            assert(-i64::MAX <= total_time(entries@.take(i + 1)) <= i64::MAX);
        }
        t = t + entries[i].time_played;
        i = i + 1;
    }
    assert(entries@.take(entries@.len() as int) == entries@);
    t
}

/// Returns the total time listened, in milliseconds, or `None` when a running
/// total leaves the range of a duration (where summing the durations overflows).
pub fn listening_time_checked(entries: &[SongEntry]) -> (r: Option<i64>)
    ensures
        r == (if time_sums_fit(entries@) { Some(total_time(entries@) as i64) } else { None::<i64> }),
{
    let mut t: i64 = 0;
    let mut i: usize = 0;
    assert(entries@.take(0) =~= Seq::<SongEntry>::empty());
    while i < entries.len()
        invariant
            i <= entries@.len(),
            t == total_time(entries@.take(i as int)),
            forall|j: int| 0 <= j <= i ==> -i64::MAX <= #[trigger] total_time(entries@.take(j)) <= i64::MAX,
        decreases entries@.len() - i,
    {
        proof {
            lemma_take_last(entries@, i as int);
        }
        let next: i128 = t as i128 + entries[i].time_played as i128;
        if next < -(i64::MAX as i128) || next > i64::MAX as i128 {
            assert(!(-i64::MAX <= total_time(entries@.take(i + 1)) <= i64::MAX));
            return None;
        }
        t = next as i64;
        i = i + 1;
    }
    assert(entries@.take(entries@.len() as int) == entries@);
    Some(t)
}

/// The total playcount in a tally is the number of tallied values.
pub proof fn lemma_tally_sum<V>(s: Seq<V>)
    ensures
        sum_counts(s, distinct(s)) == s.len(),
    decreases s.len(),
{
    if s.len() > 0 {
        let p = s.drop_last();
        let x = s.last();
        assert(s =~= p.push(x));
        lemma_tally_sum(p);
        lemma_distinct_facts(p);
        lemma_sum_counts_step(p, distinct(p), x);
        if distinct(p).contains(x) {
            assert(distinct(s) == distinct(p));
        } else {
            assert(distinct(s) == distinct(p).push(x));
            lemma_sum_counts_push(s, distinct(p), x);
            lemma_count_absent(p, x);
            assert(count_in(s, x) == 1) by {
                assert(s.drop_last() == p);
            }
        }
    }
}

/// The sum of the counts in `s` of the values of `keys`.
pub open spec fn sum_counts<V>(s: Seq<V>, keys: Seq<V>) -> nat
    decreases keys.len(),
{
    if keys.len() == 0 {
        0
    } else {
        sum_counts(s, keys.drop_last()) + count_in(s, keys.last())
    }
}

proof fn lemma_sum_counts_push<V>(s: Seq<V>, keys: Seq<V>, x: V)
    ensures
        sum_counts(s, keys.push(x)) == sum_counts(s, keys) + count_in(s, x),
{
    assert(keys.push(x).drop_last() == keys);
}

/// Adding one value `x` to `s` adds one to the counts when `x` is among `keys`
/// (given without repetition), and nothing otherwise.
proof fn lemma_sum_counts_step<V>(p: Seq<V>, keys: Seq<V>, x: V)
    requires
        forall|i: int, j: int| 0 <= i < j < keys.len() ==> keys[i] != keys[j],
    ensures
        sum_counts(p.push(x), keys) == sum_counts(p, keys) + if keys.contains(x) { 1nat } else { 0nat },
    decreases keys.len(),
{
    if keys.len() > 0 {
        let k = keys.drop_last();
        lemma_sum_counts_step(p, k, x);
        assert(p.push(x).drop_last() == p);
        if keys.last() == x {
            assert(!k.contains(x)) by {
                if k.contains(x) {
                    let i = choose|i: int| 0 <= i < k.len() && k[i] == x;
                    assert(keys[i] == keys[keys.len() - 1]);
                }
            }
            assert(keys.contains(x)) by {
                assert(keys[keys.len() - 1] == x);
            }
        } else {
            assert(keys.contains(x) == k.contains(x)) by {
                if keys.contains(x) {
                    let i = choose|i: int| 0 <= i < keys.len() && keys[i] == x;
                    assert(i < keys.len() - 1);
                    assert(k[i] == x);
                }
                if k.contains(x) {
                    let i = choose|i: int| 0 <= i < k.len() && k[i] == x;
                    assert(keys[i] == x);
                }
            }
        }
    }
}

/// The playcounts of a tally add up to the number of entries tallied:
/// e.g. the playcounts of all artists add up to the number of plays.
pub proof fn lemma_tally_total<T: Music>(r: Seq<(T, usize)>, s: Seq<T::V>)
    requires
        is_tally(r, s),
    ensures
        tally_total(r) == s.len(),
{
    lemma_tally_sum(s);
    lemma_tally_total_eq(r, s, r.len() as int);
    assert(r.take(r.len() as int) =~= r);
    assert(distinct(s).take(r.len() as int) =~= distinct(s));
}

/// The aspects of the plays of `a` are as many as the plays of `a`.
proof fn lemma_views_where_count<A: Music, T: Music>(s: Seq<SongEntry>, a: A::V)
    ensures
        views_where::<A, T>(s, a).len() == plays_in::<A>(s, a),
    decreases s.len(),
{
    if s.len() > 0 {
        lemma_views_where_count::<A, T>(s.drop_last(), a);
        assert(views::<A>(s).drop_last() =~= views::<A>(s.drop_last()));
    }
}

/// The playcounts of the albums of an artist add up to the artist's plays
/// (and so do those of its songs).
pub proof fn lemma_artist_tally_total<T: Music>(r: Seq<(T, usize)>, s: Seq<SongEntry>, a: crate::aspect::ArtistView)
    requires
        is_tally(r, views_where::<Artist, T>(s, a)),
    ensures
        tally_total(r) == plays_in::<Artist>(s, a),
{
    lemma_tally_total(r, views_where::<Artist, T>(s, a));
    lemma_views_where_count::<Artist, T>(s, a);
}

/// The sum of the counts of a tally.
pub open spec fn tally_total<T: Music>(r: Seq<(T, usize)>) -> nat
    decreases r.len(),
{
    if r.len() == 0 {
        0
    } else {
        tally_total(r.drop_last()) + r.last().1 as nat
    }
}

proof fn lemma_tally_total_eq<T: Music>(r: Seq<(T, usize)>, s: Seq<T::V>, n: int)
    requires
        is_tally(r, s),
        0 <= n <= r.len(),
    ensures
        tally_total(r.take(n)) == sum_counts(s, distinct(s).take(n)),
    decreases n,
{
    if n > 0 {
        lemma_tally_total_eq(r, s, n - 1);
        assert(r.take(n).drop_last() == r.take(n - 1));
        assert(distinct(s).take(n).drop_last() == distinct(s).take(n - 1));
        assert(r[n - 1].1 == count_in(s, r[n - 1].0@));
    } else {
        assert(r.take(0) =~= Seq::<(T, usize)>::empty());
        assert(distinct(s).take(0) =~= Seq::<T::V>::empty());
    }
    if n == r.len() {
        assert(r.take(n) == r);
        assert(distinct(s).take(n) == distinct(s));
    }
}


/// The song name and artist name of each entry of `s`, in order.
pub open spec fn song_names_artists(s: Seq<SongEntry>) -> Seq<(Seq<char>, Seq<char>)>
    decreases s.len(),
{
    if s.len() == 0 {
        seq![]
    } else {
        song_names_artists(s.drop_last()).push((s.last().track@, s.last().artist@))
    }
}

/// `album` is the album from which the song `name` by `artist` has been
/// played the most in `s`; of several such albums, the alphabetically last.
pub open spec fn is_top_album(s: Seq<SongEntry>, name: Seq<char>, artist: Seq<char>, album: Seq<char>) -> bool {
    let p = plays_in::<Song>(s, (name, album, artist));
    &&& p > 0
    &&& forall|x: Seq<char>| #[trigger] plays_in::<Song>(s, (name, x, artist)) < p
            || (plays_in::<Song>(s, (name, x, artist)) == p && (x == album || chars_lt(x, album)))
}

/// `r` lists every song (by name and artist, whatever the album) once, in
/// the order of first play, with its plays summed over all albums and the
/// album it has been played the most from.
pub open spec fn is_summed_across_albums(r: Seq<(Song, usize)>, s: Seq<SongEntry>) -> bool {
    let keys = distinct(song_names_artists(s));
    &&& r.len() == keys.len()
    &&& forall|i: int| 0 <= i < r.len() ==> (#[trigger] r[i].0@.0, r[i].0@.2) == keys[i]
    &&& forall|i: int| 0 <= i < r.len() ==> #[trigger] r[i].1 == count_in(song_names_artists(s), keys[i])
    &&& forall|i: int| 0 <= i < r.len() ==> is_top_album(s, keys[i].0, keys[i].1, #[trigger] r[i].0@.1)
}

/// A value of `distinct(s)` occurs in `s`.
proof fn lemma_count_distinct_pos<V>(s: Seq<V>, v: V)
    requires
        distinct(s).contains(v),
    ensures
        count_in(s, v) >= 1,
    decreases s.len(),
{
    lemma_distinct_facts(s);
    if s.len() > 0 {
        if s.last() != v {
            lemma_distinct_facts(s.drop_last());
            assert(s.drop_last().contains(v)) by {
                let k = choose|k: int| 0 <= k < s.len() && s[k] == v;
                assert(k < s.len() - 1);
                assert(s.drop_last()[k] == v);
            }
            lemma_count_distinct_pos(s.drop_last(), v);
        }
    }
}

/// Counts the entries of the song `name` by `artist`, whatever the album.
fn count_name_artist(entries: &[SongEntry], name: &String, artist: &String) -> (r: usize)
    ensures
        r == count_in(song_names_artists(entries@), (name@, artist@)),
{
    let mut n: usize = 0;
    let mut i: usize = 0;
    while i < entries.len()
        invariant
            i <= entries@.len(),
            n == count_in(song_names_artists(entries@.take(i as int)), (name@, artist@)),
            n <= i,
        decreases entries@.len() - i,
    {
        proof {
            lemma_take_last(entries@, i as int);
            let v = song_names_artists(entries@.take(i + 1));
            assert(v.drop_last() == song_names_artists(entries@.take(i as int)));
        }
        if entries[i].track == *name && entries[i].artist == *artist {
            n = n + 1;
        }
        i = i + 1;
    }
    assert(entries@.take(entries@.len() as int) == entries@);
    n
}

/// The album from which the song `name` by `artist` has been played the most
/// (of several, the alphabetically last), found in the tally of all songs.
fn top_album(entries: &[SongEntry], songs: &Vec<(Song, usize)>, name: &String, artist: &String) -> (r: String)
    requires
        is_tally(songs@, views::<Song>(entries@)),
        exists|k: int| 0 <= k < songs@.len() && #[trigger] songs@[k].0@.0 == name@ && songs@[k].0@.2 == artist@,
    ensures
        is_top_album(entries@, name@, artist@, r@),
{
    let ghost vs = views::<Song>(entries@);
    let mut best: usize = 0;
    let mut found = false;
    let mut k: usize = 0;
    while k < songs.len()
        invariant
            is_tally(songs@, vs),
            vs == views::<Song>(entries@),
            k <= songs@.len(),
            found ==> best < k && songs@[best as int].0@.0 == name@ && songs@[best as int].0@.2 == artist@,
            !found ==> forall|j: int| 0 <= j < k ==> !(#[trigger] songs@[j].0@.0 == name@ && songs@[j].0@.2 == artist@),
            found ==> forall|j: int| 0 <= j < k && #[trigger] songs@[j].0@.0 == name@ && songs@[j].0@.2 == artist@ ==> {
                ||| songs@[j].1 < songs@[best as int].1
                ||| songs@[j].1 == songs@[best as int].1 && (songs@[j].0@.1 == songs@[best as int].0@.1 || chars_lt(songs@[j].0@.1, songs@[best as int].0@.1))
            },
        decreases songs@.len() - k,
    {
        let s = &songs[k].0;
        if s.name == *name && s.album.artist.name == *artist {
            let better = if !found {
                true
            } else if songs[k].1 > songs[best].1 {
                true
            } else if songs[k].1 == songs[best].1 {
                match order_of(s.album.name.as_str(), songs[best].0.album.name.as_str()) {
                    Order::Greater => true,
                    _ => false,
                }
            } else {
                false
            };
            if better {
                proof {
                    if found {
                        let b = best as int;
                        lemma_chars_lt_total(songs@[k as int].0@.1, songs@[b].0@.1);
                        assert forall|j: int| 0 <= j < k + 1 && #[trigger] songs@[j].0@.0 == name@ && songs@[j].0@.2 == artist@ implies {
                            ||| songs@[j].1 < songs@[k as int].1
                            ||| songs@[j].1 == songs@[k as int].1 && (songs@[j].0@.1 == songs@[k as int].0@.1 || chars_lt(songs@[j].0@.1, songs@[k as int].0@.1))
                        } by {
                            if j < k && songs@[j].1 == songs@[k as int].1 && songs@[j].0@.1 != songs@[b].0@.1 && songs@[j].1 == songs@[b].1 {
                                lemma_chars_lt_transitive(songs@[j].0@.1, songs@[b].0@.1, songs@[k as int].0@.1);
                            }
                        }
                    }
                }
                best = k;
                found = true;
            } else {
                proof {
                    let b = best as int;
                    lemma_chars_lt_total(songs@[k as int].0@.1, songs@[b].0@.1);
                }
            }
        }
        k = k + 1;
    }
    assert(found) by {
        if !found {
            let k0 = choose|k0: int| 0 <= k0 < songs@.len() && #[trigger] songs@[k0].0@.0 == name@ && songs@[k0].0@.2 == artist@;
            assert(!(songs@[k0].0@.0 == name@ && songs@[k0].0@.2 == artist@));
        }
    }
    proof {
        let b = best as int;
        let name_v = name@;
        let artist_v = artist@;
        let album_v = songs@[b].0@.1;
        lemma_distinct_facts(vs);
        assert(songs@[b].0@ == (name_v, album_v, artist_v));
        assert(songs@[b].1 == count_in(vs, songs@[b].0@));
        assert forall|x: Seq<char>| #[trigger] plays_in::<Song>(entries@, (name_v, x, artist_v)) < plays_in::<Song>(entries@, (name_v, album_v, artist_v))
            || (plays_in::<Song>(entries@, (name_v, x, artist_v)) == plays_in::<Song>(entries@, (name_v, album_v, artist_v)) && (x == album_v || chars_lt(x, album_v))) by {
            let v = (name_v, x, artist_v);
            if distinct(vs).contains(v) {
                let j = choose|j: int| 0 <= j < distinct(vs).len() && distinct(vs)[j] == v;
                assert(songs@[j].0@ == v);
                assert(songs@[j].0@.0 == name_v && songs@[j].0@.2 == artist_v);
                assert(songs@[j].1 == count_in(vs, v));
            } else {
                lemma_count_absent(vs, v);
                assert(distinct(vs)[b] == songs@[b].0@);
                assert(distinct(vs).contains(songs@[b].0@));
                lemma_count_distinct_pos(vs, songs@[b].0@);
            }
        }
        assert(distinct(vs)[b] == songs@[b].0@);
        assert(distinct(vs).contains(songs@[b].0@));
        lemma_count_distinct_pos(vs, songs@[b].0@);
    }
    songs[best].0.album.name.clone()
}

/// Like [`songs`], but sums up the plays of a song over all the albums it
/// is in: songs are told apart by song name and artist name only (still
/// case-sensitive). Each song is returned with the album it has been played
/// the most from (of several such albums, the alphabetically last), in the
/// order of the song's first play.
pub fn songs_summed_across_albums(entries: &[SongEntry]) -> (r: Vec<(Song, usize)>)
    ensures
        is_summed_across_albums(r@, entries@),
{
    let ghost s = entries@;
    let songs = songs(entries);
    let mut r: Vec<(Song, usize)> = Vec::new();
    let mut i: usize = 0;
    proof {
        lemma_views_seq::<Song>(s);
        lemma_distinct_facts(views::<Song>(s));
    }
    while i < entries.len()
        invariant
            s == entries@,
            i <= s.len(),
            is_tally(songs@, views::<Song>(s)),
            views::<Song>(s) == Seq::new(s.len(), |j: int| Song::of_entry(s[j])),
            forall|v: (Seq<char>, Seq<char>, Seq<char>)| #[trigger] distinct(views::<Song>(s)).contains(v) <==> views::<Song>(s).contains(v),
            r@.len() == distinct(song_names_artists(s.take(i as int))).len(),
            forall|m: int| 0 <= m < r@.len() ==> (#[trigger] r@[m].0@.0, r@[m].0@.2) == distinct(song_names_artists(s.take(i as int)))[m],
            forall|m: int| 0 <= m < r@.len() ==> #[trigger] r@[m].1 == count_in(song_names_artists(s), (r@[m].0@.0, r@[m].0@.2)),
            forall|m: int| 0 <= m < r@.len() ==> is_top_album(s, r@[m].0@.0, r@[m].0@.2, #[trigger] r@[m].0@.1),
        decreases s.len() - i,
    {
        let ghost prev = song_names_artists(s.take(i as int));
        proof {
            lemma_take_last(s, i as int);
            lemma_distinct_facts(prev);
            assert(song_names_artists(s.take(i + 1)) == prev.push((s[i as int].track@, s[i as int].artist@)));
            assert(prev.push((s[i as int].track@, s[i as int].artist@)).drop_last() == prev);
        }
        let e = &entries[i];
        let mut m: usize = 0;
        let mut seen = false;
        while m < r.len()
            invariant
                m <= r@.len(),
                !seen ==> forall|q: int| 0 <= q < m ==> (#[trigger] r@[q].0@.0, r@[q].0@.2) != (e.track@, e.artist@),
                seen ==> exists|q: int| 0 <= q < r@.len() && (#[trigger] r@[q].0@.0, r@[q].0@.2) == (e.track@, e.artist@),
            decreases r@.len() - m,
        {
            if r[m].0.name == e.track && r[m].0.album.artist.name == e.artist {
                assert((r@[m as int].0@.0, r@[m as int].0@.2) == (e.track@, e.artist@));
                seen = true;
            }
            m = m + 1;
        }
        let ghost key = (e.track@, e.artist@);
        if seen {
            proof {
                let q = choose|q: int| 0 <= q < r@.len() && (#[trigger] r@[q].0@.0, r@[q].0@.2) == key;
                assert(distinct(prev)[q] == key);
                assert(distinct(prev).contains(key));
                assert(distinct(prev.push(key)) == distinct(prev));
            }
        } else {
            proof {
                assert(!distinct(prev).contains(key)) by {
                    if distinct(prev).contains(key) {
                        let q = choose|q: int| 0 <= q < distinct(prev).len() && distinct(prev)[q] == key;
                        assert((r@[q].0@.0, r@[q].0@.2) == key);
                    }
                }
                assert(distinct(prev.push(key)) == distinct(prev).push(key));
                assert(views::<Song>(s)[i as int] == Song::of_entry(s[i as int]));
                assert(views::<Song>(s).contains(Song::of_entry(s[i as int])));
                assert(distinct(views::<Song>(s)).contains(Song::of_entry(s[i as int])));
                let j = choose|j: int| 0 <= j < distinct(views::<Song>(s)).len() && distinct(views::<Song>(s))[j] == Song::of_entry(s[i as int]);
                assert(songs@[j].0@ == Song::of_entry(s[i as int]));
                assert(songs@[j].0@.0 == e.track@ && songs@[j].0@.2 == e.artist@);
            }
            let total = count_name_artist(entries, &e.track, &e.artist);
            let album = top_album(entries, &songs, &e.track, &e.artist);
            r.push((Song { name: e.track.clone(), album: Album { name: album, artist: Artist { name: e.artist.clone() } } }, total));
        }
        i = i + 1;
    }
    assert(s.take(s.len() as int) == s);
    r
}


/// `e` is a play of one of `aspects`.
pub open spec fn is_play_of_any<A: Music>(e: SongEntry, aspects: Seq<A::V>) -> bool {
    aspects.contains(A::of_entry(e))
}

/// `r` is the first entry of `s` that satisfies `p`, or `None` if none does.
pub open spec fn is_first_where(r: Option<&SongEntry>, s: Seq<SongEntry>, p: spec_fn(SongEntry) -> bool) -> bool {
    match r {
        None => forall|k: int| 0 <= k < s.len() ==> !p(#[trigger] s[k]),
        Some(e) => exists|k: int| {
            &&& 0 <= k < s.len()
            &&& *e == #[trigger] s[k]
            &&& p(s[k])
            &&& forall|j: int| 0 <= j < k ==> !p(#[trigger] s[j])
        },
    }
}

/// `r` is the last entry of `s` that satisfies `p`, or `None` if none does.
pub open spec fn is_last_where(r: Option<&SongEntry>, s: Seq<SongEntry>, p: spec_fn(SongEntry) -> bool) -> bool {
    match r {
        None => forall|k: int| 0 <= k < s.len() ==> !p(#[trigger] s[k]),
        Some(e) => exists|k: int| {
            &&& 0 <= k < s.len()
            &&& *e == #[trigger] s[k]
            &&& p(s[k])
            &&& forall|j: int| k < j < s.len() ==> !p(#[trigger] s[j])
        },
    }
}

/// Whether `e` is a play of one of `aspects`.
pub(crate) fn is_entry_of_any<Asp: Music>(aspects: &[Asp], e: &SongEntry) -> (r: bool)
    ensures
        r == is_play_of_any::<Asp>(*e, aspect_views(aspects@)),
{
    let mut j: usize = 0;
    while j < aspects.len()
        invariant
            j <= aspects@.len(),
            forall|k: int| 0 <= k < j ==> #[trigger] aspects@[k]@ != Asp::of_entry(*e),
        decreases aspects@.len() - j,
    {
        if aspects[j].is_entry(e) {
            assert(aspect_views(aspects@)[j as int] == Asp::of_entry(*e));
            return true;
        }
        j = j + 1;
    }
    assert(!aspect_views(aspects@).contains(Asp::of_entry(*e))) by {
        if aspect_views(aspects@).contains(Asp::of_entry(*e)) {
            let k = choose|k: int| 0 <= k < aspect_views(aspects@).len() && aspect_views(aspects@)[k] == Asp::of_entry(*e);
            assert(aspects@[k]@ == Asp::of_entry(*e));
        }
    }
    false
}

/// Returns the first entry of `aspect`, if there is one.
pub fn first_entry_of<'a, Asp: Music>(entries: &'a [SongEntry], aspect: &Asp) -> (r: Option<&'a SongEntry>)
    ensures
        is_first_where(r, entries@, |e: SongEntry| Asp::of_entry(e) == aspect@),
{
    let mut i: usize = 0;
    while i < entries.len()
        invariant
            i <= entries@.len(),
            forall|j: int| 0 <= j < i ==> Asp::of_entry(#[trigger] entries@[j]) != aspect@,
        decreases entries@.len() - i,
    {
        if aspect.is_entry(&entries[i]) {
            return Some(&entries[i]);
        }
        i = i + 1;
    }
    None
}

/// Returns the last entry of `aspect`, if there is one.
pub fn last_entry_of<'a, Asp: Music>(entries: &'a [SongEntry], aspect: &Asp) -> (r: Option<&'a SongEntry>)
    ensures
        is_last_where(r, entries@, |e: SongEntry| Asp::of_entry(e) == aspect@),
{
    let mut i: usize = entries.len();
    while i > 0
        invariant
            i <= entries@.len(),
            forall|j: int| i <= j < entries@.len() ==> Asp::of_entry(#[trigger] entries@[j]) != aspect@,
        decreases i,
    {
        if aspect.is_entry(&entries[i - 1]) {
            return Some(&entries[i - 1]);
        }
        i = i - 1;
    }
    None
}

/// Returns the first entry of any of `aspects`, if there is one.
pub fn first_entry_of_many<'a, Asp: Music>(entries: &'a [SongEntry], aspects: &[Asp]) -> (r: Option<&'a SongEntry>)
    ensures
        is_first_where(r, entries@, |e: SongEntry| is_play_of_any::<Asp>(e, aspect_views(aspects@))),
{
    let mut i: usize = 0;
    while i < entries.len()
        invariant
            i <= entries@.len(),
            forall|j: int| 0 <= j < i ==> !is_play_of_any::<Asp>(#[trigger] entries@[j], aspect_views(aspects@)),
        decreases entries@.len() - i,
    {
        if is_entry_of_any(aspects, &entries[i]) {
            return Some(&entries[i]);
        }
        i = i + 1;
    }
    None
}

/// Returns the last entry of any of `aspects`, if there is one.
pub fn last_entry_of_many<'a, Asp: Music>(entries: &'a [SongEntry], aspects: &[Asp]) -> (r: Option<&'a SongEntry>)
    ensures
        is_last_where(r, entries@, |e: SongEntry| is_play_of_any::<Asp>(e, aspect_views(aspects@))),
{
    let mut i: usize = entries.len();
    while i > 0
        invariant
            i <= entries@.len(),
            forall|j: int| i <= j < entries@.len() ==> !is_play_of_any::<Asp>(#[trigger] entries@[j], aspect_views(aspects@)),
        decreases i,
    {
        if is_entry_of_any(aspects, &entries[i - 1]) {
            return Some(&entries[i - 1]);
        }
        i = i - 1;
    }
    None
}

/// The total time played over the entries of `s` that satisfy `p`.
pub open spec fn total_time_where(s: Seq<SongEntry>, p: spec_fn(SongEntry) -> bool) -> int
    decreases s.len(),
{
    if s.len() == 0 {
        0
    } else {
        total_time_where(s.drop_last(), p) + if p(s.last()) { s.last().time_played as int } else { 0 }
    }
}

/// Every running total of the time played over the entries of `s` that
/// satisfy `p` fits in the range of a duration.
pub open spec fn time_sums_fit_where(s: Seq<SongEntry>, p: spec_fn(SongEntry) -> bool) -> bool {
    forall|i: int| 0 <= i <= s.len() ==> -i64::MAX <= #[trigger] total_time_where(s.take(i), p) <= i64::MAX
}

/// Returns the time spent listening to `aspect`, in milliseconds.
pub fn listening_time_of<Asp: Music>(entries: &[SongEntry], aspect: &Asp) -> (r: i64)
    requires
        time_sums_fit_where(entries@, |e: SongEntry| Asp::of_entry(e) == aspect@),
    ensures
        r == total_time_where(entries@, |e: SongEntry| Asp::of_entry(e) == aspect@),
{
    let ghost p = |e: SongEntry| Asp::of_entry(e) == aspect@;
    let mut t: i64 = 0;
    let mut i: usize = 0;
    assert(entries@.take(0) =~= Seq::<SongEntry>::empty());
    while i < entries.len()
        invariant
            i <= entries@.len(),
            p == (|e: SongEntry| Asp::of_entry(e) == aspect@),
            time_sums_fit_where(entries@, p),
            t == total_time_where(entries@.take(i as int), p),
        decreases entries@.len() - i,
    {
        proof {
            lemma_take_last(entries@, i as int);
            assert(-i64::MAX <= total_time_where(entries@.take(i + 1), p) <= i64::MAX);
        }
        if aspect.is_entry(&entries[i]) {
            t = t + entries[i].time_played;
        }
        i = i + 1;
    }
    assert(entries@.take(entries@.len() as int) == entries@);
    t
}

/// Returns the time spent listening to any of `aspects`, in milliseconds.
pub fn listening_time_of_many<Asp: Music>(entries: &[SongEntry], aspects: &[Asp]) -> (r: i64)
    requires
        time_sums_fit_where(entries@, |e: SongEntry| is_play_of_any::<Asp>(e, aspect_views(aspects@))),
    ensures
        r == total_time_where(entries@, |e: SongEntry| is_play_of_any::<Asp>(e, aspect_views(aspects@))),
{
    let ghost p = |e: SongEntry| is_play_of_any::<Asp>(e, aspect_views(aspects@));
    let mut t: i64 = 0;
    let mut i: usize = 0;
    assert(entries@.take(0) =~= Seq::<SongEntry>::empty());
    while i < entries.len()
        invariant
            i <= entries@.len(),
            p == (|e: SongEntry| is_play_of_any::<Asp>(e, aspect_views(aspects@))),
            time_sums_fit_where(entries@, p),
            t == total_time_where(entries@.take(i as int), p),
        decreases entries@.len() - i,
    {
        proof {
            lemma_take_last(entries@, i as int);
            assert(-i64::MAX <= total_time_where(entries@.take(i + 1), p) <= i64::MAX);
        }
        if is_entry_of_any(aspects, &entries[i]) {
            t = t + entries[i].time_played;
        }
        i = i + 1;
    }
    assert(entries@.take(entries@.len() as int) == entries@);
    t
}


/// Returns the time spent listening to any of `aspects`, in milliseconds,
/// or `None` when a running total leaves the range of a duration.
pub fn listening_time_of_many_checked<Asp: Music>(entries: &[SongEntry], aspects: &[Asp]) -> (r: Option<i64>)
    ensures
        r == (if time_sums_fit_where(entries@, |e: SongEntry| is_play_of_any::<Asp>(e, aspect_views(aspects@))) {
            Some(total_time_where(entries@, |e: SongEntry| is_play_of_any::<Asp>(e, aspect_views(aspects@))) as i64)
        } else {
            None::<i64>
        }),
{
    let ghost p = |e: SongEntry| is_play_of_any::<Asp>(e, aspect_views(aspects@));
    let mut t: i64 = 0;
    let mut i: usize = 0;
    assert(entries@.take(0) =~= Seq::<SongEntry>::empty());
    while i < entries.len()
        invariant
            i <= entries@.len(),
            p == (|e: SongEntry| is_play_of_any::<Asp>(e, aspect_views(aspects@))),
            t == total_time_where(entries@.take(i as int), p),
            forall|j: int| 0 <= j <= i ==> -i64::MAX <= #[trigger] total_time_where(entries@.take(j), p) <= i64::MAX,
        decreases entries@.len() - i,
    {
        proof {
            lemma_take_last(entries@, i as int);
        }
        if is_entry_of_any(aspects, &entries[i]) {
            let next: i128 = t as i128 + entries[i].time_played as i128;
            if next < -(i64::MAX as i128) || next > i64::MAX as i128 {
                assert(!(-i64::MAX <= total_time_where(entries@.take(i + 1), p) <= i64::MAX));
                return None;
            }
            t = next as i64;
        }
        i = i + 1;
    }
    assert(entries@.take(entries@.len() as int) == entries@);
    Some(t)
}

} // verus!
