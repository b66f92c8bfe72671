//! The points of plot traces: how the plays of an aspect add up over time.
//!
//! An absolute trace has a point for every play of the aspect, with the
//! number of its plays so far. A relative trace has a point for every play
//! of a base (all entries, or the entries of an artist or album) from the
//! first play of the aspect on, with the plays of the aspect and of the base
//! so far; their ratio is the relative amount.

use vstd::prelude::*;

use crate::aspect::{Album, HasArtist, Music, Song};
use crate::entry::SongEntry;
use crate::gather::{lemma_take_last, plays_in, views};

verus! {

/// How many entries of `s` are plays of `a` (of kind `A`) and of `b` (of kind `B`).
pub open spec fn count_both<A: Music, B: Music>(s: Seq<SongEntry>, a: A::V, b: B::V) -> nat
    decreases s.len(),
{
    if s.len() == 0 {
        0
    } else {
        count_both::<A, B>(s.drop_last(), a, b) + if A::of_entry(s.last()) == a && B::of_entry(s.last()) == b { 1nat } else { 0nat }
    }
}

/// How many entries of `s` are plays of `a`.
pub open spec fn count_of<A: Music>(s: Seq<SongEntry>, a: A::V) -> nat
    decreases s.len(),
{
    if s.len() == 0 {
        0
    } else {
        count_of::<A>(s.drop_last(), a) + if A::of_entry(s.last()) == a { 1nat } else { 0nat }
    }
}

/// The plays of `a` counted entry by entry are its plays in the dataset.
proof fn lemma_count_of_plays<A: Music>(s: Seq<SongEntry>, a: A::V)
    ensures
        count_of::<A>(s, a) == plays_in::<A>(s, a),
    decreases s.len(),
{
    if s.len() > 0 {
        lemma_count_of_plays::<A>(s.drop_last(), a);
        assert(views::<A>(s).drop_last() =~= views::<A>(s.drop_last()));
    }
}

/// The points of the absolute trace of `a`: for every play, its timestamp
/// and the number of plays of `a` up to and including it.
pub open spec fn absolute_points<A: Music>(s: Seq<SongEntry>, a: A::V) -> Seq<(i64, nat)>
    decreases s.len(),
{
    if s.len() == 0 {
        seq![]
    } else if A::of_entry(s.last()) == a {
        absolute_points::<A>(s.drop_last(), a).push((s.last().timestamp, count_of::<A>(s, a)))
    } else {
        absolute_points::<A>(s.drop_last(), a)
    }
}

/// The points of the relative trace of `a` within the plays of `b`: for
/// every play of `b` from the first play of `a` on, its timestamp, the plays
/// of `a` and the plays of `b` up to and including it.
pub open spec fn relative_points<A: Music, B: Music>(s: Seq<SongEntry>, a: A::V, b: B::V) -> Seq<(i64, nat, nat)>
    decreases s.len(),
{
    if s.len() == 0 {
        seq![]
    } else if B::of_entry(s.last()) == b && count_both::<A, B>(s, a, b) > 0 {
        relative_points::<A, B>(s.drop_last(), a, b).push((s.last().timestamp, count_both::<A, B>(s, a, b), count_of::<B>(s, b)))
    } else {
        relative_points::<A, B>(s.drop_last(), a, b)
    }
}

/// The points of the relative trace of `a` within all plays: for every
/// entry from the first play of `a` on, its timestamp, the plays of `a` and
/// the number of entries up to and including it.
pub open spec fn relative_to_all_points<A: Music>(s: Seq<SongEntry>, a: A::V) -> Seq<(i64, nat, nat)>
    decreases s.len(),
{
    if s.len() == 0 {
        seq![]
    } else if count_of::<A>(s, a) > 0 {
        relative_to_all_points::<A>(s.drop_last(), a).push((s.last().timestamp, count_of::<A>(s, a), s.len()))
    } else {
        relative_to_all_points::<A>(s.drop_last(), a)
    }
}

/// The points of the absolute trace of a song summed over all albums: for
/// every play of a song called `name` by `artist`, its timestamp and the
/// number of such plays up to and including it.
pub open spec fn absolute_points_ignoring_album(s: Seq<SongEntry>, name: Seq<char>, artist: Seq<char>) -> Seq<(i64, nat)>
    decreases s.len(),
{
    if s.len() == 0 {
        seq![]
    } else if s.last().track@ == name && s.last().artist@ == artist {
        let prev = absolute_points_ignoring_album(s.drop_last(), name, artist);
        prev.push((s.last().timestamp, prev.len() + 1))
    } else {
        absolute_points_ignoring_album(s.drop_last(), name, artist)
    }
}

/// A count never exceeds the number of entries.
proof fn lemma_count_of_bound<A: Music>(s: Seq<SongEntry>, a: A::V)
    ensures
        count_of::<A>(s, a) <= s.len(),
    decreases s.len(),
{
    if s.len() > 0 {
        lemma_count_of_bound::<A>(s.drop_last(), a);
    }
}

/// A count of plays of two aspects never exceeds the number of entries.
proof fn lemma_count_both_bound<A: Music, B: Music>(s: Seq<SongEntry>, a: A::V, b: B::V)
    ensures
        count_both::<A, B>(s, a, b) <= s.len(),
    decreases s.len(),
{
    if s.len() > 0 {
        lemma_count_both_bound::<A, B>(s.drop_last(), a, b);
    }
}

/// A trace's points are never more than the entries.
proof fn lemma_ignoring_album_bound(s: Seq<SongEntry>, name: Seq<char>, artist: Seq<char>)
    ensures
        absolute_points_ignoring_album(s, name, artist).len() <= s.len(),
    decreases s.len(),
{
    if s.len() > 0 {
        lemma_ignoring_album_bound(s.drop_last(), name, artist);
    }
}

/// Points with a count are those of the spec, counts taken as plain numbers.
pub open spec fn same_points2(r: Seq<(i64, usize)>, p: Seq<(i64, nat)>) -> bool {
    &&& r.len() == p.len()
    &&& forall|i: int| 0 <= i < r.len() ==> #[trigger] r[i].0 == p[i].0 && r[i].1 == p[i].1
}

/// Points with two counts are those of the spec, counts taken as plain numbers.
pub open spec fn same_points3(r: Seq<(i64, usize, usize)>, p: Seq<(i64, nat, nat)>) -> bool {
    &&& r.len() == p.len()
    &&& forall|i: int| 0 <= i < r.len() ==> #[trigger] r[i].0 == p[i].0 && r[i].1 == p[i].1 && r[i].2 == p[i].2
}

/// The absolute trace of `a` has a point for each of its plays, and its
/// last point counts all of them.
pub proof fn lemma_absolute_counts_plays<A: Music>(s: Seq<SongEntry>, a: A::V)
    ensures
        absolute_points::<A>(s, a).len() == plays_in::<A>(s, a),
        absolute_points::<A>(s, a).len() > 0 ==> absolute_points::<A>(s, a).last().1 == plays_in::<A>(s, a),
    decreases s.len(),
{
    lemma_count_of_plays::<A>(s, a);
    if s.len() > 0 {
        lemma_absolute_counts_plays::<A>(s.drop_last(), a);
        lemma_count_of_plays::<A>(s.drop_last(), a);
    }
}

/// Creates the points of the absolute trace of the plays of `aspect`
/// (empty if it is not in `entries`).
pub fn absolute<A: Music>(entries: &[SongEntry], aspect: &A) -> (r: Vec<(i64, usize)>)
    ensures
        same_points2(r@, absolute_points::<A>(entries@, aspect@)),
{
    let ghost s = entries@;
    let mut r: Vec<(i64, usize)> = Vec::new();
    let mut plays: usize = 0;
    let mut i: usize = 0;
    while i < entries.len()
        invariant
            s == entries@,
            i <= s.len(),
            plays == count_of::<A>(s.take(i as int), aspect@),
            plays <= i,
            same_points2(r@, absolute_points::<A>(s.take(i as int), aspect@)),
        decreases s.len() - i,
    {
        proof {
            lemma_take_last(s, i as int);
        }
        if aspect.is_entry(&entries[i]) {
            plays = plays + 1;
            r.push((entries[i].timestamp, plays));
        }
        i = i + 1;
    }
    assert(s.take(s.len() as int) == s);
    r
}

/// Creates the points of the absolute trace of the plays of `song` summed
/// over all the albums it is in (empty if it is not in `entries`).
pub fn absolute_ignore_album(entries: &[SongEntry], song: &Song) -> (r: Vec<(i64, usize)>)
    ensures
        same_points2(r@, absolute_points_ignoring_album(entries@, song.name@, song.album.artist.name@)),
{
    let ghost s = entries@;
    let mut r: Vec<(i64, usize)> = Vec::new();
    let mut plays: usize = 0;
    let mut i: usize = 0;
    while i < entries.len()
        invariant
            s == entries@,
            i <= s.len(),
            plays == absolute_points_ignoring_album(s.take(i as int), song.name@, song.album.artist.name@).len(),
            plays <= i,
            same_points2(r@, absolute_points_ignoring_album(s.take(i as int), song.name@, song.album.artist.name@)),
        decreases s.len() - i,
    {
        proof {
            lemma_take_last(s, i as int);
            lemma_ignoring_album_bound(s.take(i as int), song.name@, song.album.artist.name@);
        }
        if song.album.artist.name == entries[i].artist && song.name == entries[i].track {
            plays = plays + 1;
            r.push((entries[i].timestamp, plays));
        }
        i = i + 1;
    }
    assert(s.take(s.len() as int) == s);
    r
}

/// Creates the points of the trace of the plays of `aspect` relative to all
/// plays (empty if it is not in `entries`).
pub fn relative_to_all<A: Music>(entries: &[SongEntry], aspect: &A) -> (r: Vec<(i64, usize, usize)>)
    ensures
        same_points3(r@, relative_to_all_points::<A>(entries@, aspect@)),
{
    let ghost s = entries@;
    let mut r: Vec<(i64, usize, usize)> = Vec::new();
    let mut plays: usize = 0;
    let mut i: usize = 0;
    while i < entries.len()
        invariant
            s == entries@,
            i <= s.len(),
            plays == count_of::<A>(s.take(i as int), aspect@),
            plays <= i,
            same_points3(r@, relative_to_all_points::<A>(s.take(i as int), aspect@)),
        decreases s.len() - i,
    {
        proof {
            lemma_take_last(s, i as int);
        }
        if aspect.is_entry(&entries[i]) {
            plays = plays + 1;
        }
        assert(plays == count_of::<A>(s.take(i + 1), aspect@));
        assert(s.take(i + 1).len() == i + 1);
        if plays > 0 {
            r.push((entries[i].timestamp, plays, i + 1));
        }
        i = i + 1;
    }
    assert(s.take(s.len() as int) == s);
    r
}

/// Creates the points of the trace of the plays of `aspect` relative to
/// the plays of `base` (empty if `aspect` is not among the plays of `base`).
fn relative_within<A: Music, B: Music>(entries: &[SongEntry], aspect: &A, base: &B) -> (r: Vec<(i64, usize, usize)>)
    ensures
        same_points3(r@, relative_points::<A, B>(entries@, aspect@, base@)),
{
    let ghost s = entries@;
    let mut r: Vec<(i64, usize, usize)> = Vec::new();
    let mut plays: usize = 0;
    let mut base_plays: usize = 0;
    let mut i: usize = 0;
    while i < entries.len()
        invariant
            s == entries@,
            i <= s.len(),
            plays == count_both::<A, B>(s.take(i as int), aspect@, base@),
            base_plays == count_of::<B>(s.take(i as int), base@),
            plays <= i,
            base_plays <= i,
            same_points3(r@, relative_points::<A, B>(s.take(i as int), aspect@, base@)),
        decreases s.len() - i,
    {
        proof {
            lemma_take_last(s, i as int);
            lemma_count_both_bound::<A, B>(s.take(i as int), aspect@, base@);
            lemma_count_of_bound::<B>(s.take(i as int), base@);
        }
        if base.is_entry(&entries[i]) {
            base_plays = base_plays + 1;
            if aspect.is_entry(&entries[i]) {
                plays = plays + 1;
            }
            assert(plays == count_both::<A, B>(s.take(i + 1), aspect@, base@));
            assert(base_plays == count_of::<B>(s.take(i + 1), base@));
            if plays > 0 {
                let ghost before = r@;
                r.push((entries[i].timestamp, plays, base_plays));
                assert(relative_points::<A, B>(s.take(i + 1), aspect@, base@) == relative_points::<A, B>(s.take(i as int), aspect@, base@).push(
                    (s[i as int].timestamp, plays as nat, base_plays as nat)));
                assert(r@ == before.push((entries[i as int].timestamp, plays, base_plays)));
            } else {
                assert(relative_points::<A, B>(s.take(i + 1), aspect@, base@) == relative_points::<A, B>(s.take(i as int), aspect@, base@));
            }
        } else {
            assert(relative_points::<A, B>(s.take(i + 1), aspect@, base@) == relative_points::<A, B>(s.take(i as int), aspect@, base@));
        }
        i = i + 1;
    }
    assert(s.take(s.len() as int) == s);
    r
}

/// Creates the points of the trace of the plays of an album or song
/// relative to the plays of its artist (empty if it is not in `entries`).
pub fn relative_to_artist<A: HasArtist>(entries: &[SongEntry], aspect: &A) -> (r: Vec<(i64, usize, usize)>)
    ensures
        same_points3(r@, relative_points::<A, crate::aspect::Artist>(entries@, aspect@, A::artist_name_of(aspect@))),
{
    relative_within(entries, aspect, aspect.artist())
}

/// Creates the points of the trace of the plays of a song relative to the
/// plays of its album (empty if it is not in `entries`).
pub fn relative_to_album(entries: &[SongEntry], song: &Song) -> (r: Vec<(i64, usize, usize)>)
    ensures
        same_points3(r@, relative_points::<Song, Album>(entries@, song@, song.album@)),
{
    relative_within(entries, song, &song.album)
}

/// What the plays of a relative trace are counted against.
#[derive(Clone, Copy, Debug, PartialEq, Eq)]
pub enum RelativeTo {
    /// All plays
    All,
    /// The plays of the artist
    Artist,
    /// The plays of the album
    Album,
}

/// At most how many relative traces a plot of many aspects shows: 10
/// relative to all plays, 100 relative to the artist, 1000 relative to the album.
pub open spec fn relative_cap(to: RelativeTo) -> nat {
    match to {
        RelativeTo::All => 10,
        RelativeTo::Artist => 100,
        RelativeTo::Album => 1000,
    }
}

/// How many of `n` aspects a plot of relative traces shows, and whether
/// that is all of them (fewer than the cap).
pub fn relative_limit(to: RelativeTo, n: usize) -> (r: (usize, bool))
    ensures
        r.1 == (n < relative_cap(to)),
        r.0 == if r.1 { n as nat } else { relative_cap(to) },
{
    let cap: usize = match to {
        RelativeTo::All => 10,
        RelativeTo::Artist => 100,
        RelativeTo::Album => 1000,
    };
    if n < cap {
        (n, true)
    } else {
        (cap, false)
    }
}

} // verus!
