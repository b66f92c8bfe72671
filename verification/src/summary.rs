//! The data of an artist's summary page: top songs and albums, plays,
//! listening time, and the first and last plays.

use vstd::prelude::*;

use crate::aspect::{Artist, Music};
use crate::entry::{SongEntries, SongEntry};
use crate::gather::{self, aspect_views, is_play_of_any, lemma_take_last, time_sums_fit_where, total_time_where};
use crate::rank::{is_top, sorted_by_plays};

verus! {

/// The entries of `s` that are plays of `a`, in order.
pub open spec fn plays_list<A: Music>(s: Seq<SongEntry>, a: A::V) -> Seq<SongEntry>
    decreases s.len(),
{
    if s.len() == 0 {
        seq![]
    } else if A::of_entry(s.last()) == a {
        plays_list::<A>(s.drop_last(), a).push(s.last())
    } else {
        plays_list::<A>(s.drop_last(), a)
    }
}

/// Returns the entries that are plays of `aspect`, in order.
pub fn entries_of<A: Music>(entries: &[SongEntry], aspect: &A) -> (r: Vec<SongEntry>)
    ensures
        r@ == plays_list::<A>(entries@, aspect@),
{
    let mut r: Vec<SongEntry> = Vec::new();
    let mut i: usize = 0;
    while i < entries.len()
        invariant
            i <= entries@.len(),
            r@ == plays_list::<A>(entries@.take(i as int), aspect@),
        decreases entries@.len() - i,
    {
        proof {
            lemma_take_last(entries@, i as int);
        }
        if aspect.is_entry(&entries[i]) {
            r.push(entries[i].duplicate());
        }
        i = i + 1;
    }
    assert(entries@.take(entries@.len() as int) == entries@);
    r
}

/// The names of `v`'s aspects with their plays.
pub open spec fn names_with_plays<A: Music>(r: Seq<(String, usize)>, v: Seq<(A, usize)>) -> bool {
    &&& r.len() == v.len()
    &&& forall|i: int| 0 <= i < r.len() ==> #[trigger] r[i].0@ == A::name_of(v[i].0@) && r[i].1 == v[i].1
}

/// Makes a list of the names of the `top` best ranked aspects of a tally,
/// with their plays: sorted by plays descending, then by name.
pub fn sorted_playcount_list<A: Music>(tally: Vec<(A, usize)>, top: usize) -> (r: Vec<(String, usize)>)
    ensures
        exists|sorted: Seq<(A, usize)>| #[trigger] is_top(sorted, tally@, top as nat) && names_with_plays(r@, sorted),
{
    let sorted = sorted_by_plays(tally, top);
    let mut r: Vec<(String, usize)> = Vec::new();
    let mut i: usize = 0;
    while i < sorted.len()
        invariant
            i <= sorted@.len(),
            r@.len() == i,
            forall|k: int| 0 <= k < i ==> #[trigger] r@[k].0@ == A::name_of(sorted@[k].0@) && r@[k].1 == sorted@[k].1,
        decreases sorted@.len() - i,
    {
        r.push((sorted[i].0.name(), sorted[i].1));
        i = i + 1;
    }
    r
}

/// The data of an artist's summary page.
pub struct ArtistSummary {
    /// Top songs (summed over albums) with their plays
    pub songs: Vec<(String, usize)>,
    /// Top albums with their plays
    pub albums: Vec<(String, usize)>,
    /// Plays of the artist
    pub plays: usize,
    /// Time spent listening to the artist, in milliseconds
    pub time_played: i64,
    /// The first plays of the artist (at most `top`), oldest first
    pub first_listens: Vec<SongEntry>,
    /// The last plays of the artist (at most `top`), newest first
    pub last_listens: Vec<SongEntry>,
}

/// The number of top songs, albums and plays on a summary page.
pub const SUMMARY_TOP: usize = 10;

/// The first `n` elements of `s` (all of them if there are fewer).
pub open spec fn first_n<T>(s: Seq<T>, n: nat) -> Seq<T> {
    if n < s.len() {
        s.take(n as int)
    } else {
        s
    }
}

/// `summary` is the summary of `artist` in `s`: its top songs (summed over
/// albums) and albums, plays, listening time, and first and last plays.
pub open spec fn is_artist_summary(summary: ArtistSummary, s: Seq<SongEntry>, artist: Artist) -> bool {
    let own = plays_list::<Artist>(s, artist@);
    &&& summary.plays == own.len()
    &&& summary.time_played == total_time_where(s, |e: SongEntry| is_play_of_any::<Artist>(e, seq![artist@]))
    &&& summary.first_listens@ == first_n(own, 10)
    &&& summary.last_listens@ == first_n(own.reverse(), 10)
    &&& exists|songs: Seq<(crate::aspect::Song, usize)>, top: Seq<(crate::aspect::Song, usize)>| {
        &&& gather::is_summed_across_albums(songs, own)
        &&& #[trigger] is_top(top, songs, 10)
        &&& names_with_plays(summary.songs@, top)
    }
    &&& exists|albums: Seq<(crate::aspect::Album, usize)>, top: Seq<(crate::aspect::Album, usize)>| {
        &&& gather::is_tally(albums, gather::views_where::<Artist, crate::aspect::Album>(s, artist@))
        &&& #[trigger] is_top(top, albums, 10)
        &&& names_with_plays(summary.albums@, top)
    }
}

/// Computes the data of the summary page of `artist`, or `None` when the
/// time spent listening to it cannot be summed (the sum overflows).
pub fn artist_summary(entries: &SongEntries, artist: &Artist) -> (r: Option<ArtistSummary>)
    ensures
        r is Some <==> time_sums_fit_where(entries@, |e: SongEntry| is_play_of_any::<Artist>(e, seq![artist@])),
        r matches Some(summary) ==> is_artist_summary(summary, entries@, *artist),
{
    let s = entries.entries();
    let one = vec![artist.duplicate()];
    assert(aspect_views(one@) =~= seq![artist@]);
    let time = match gather::listening_time_of_many_checked(s, one.as_slice()) {
        Some(t) => t,
        None => return None,
    };
    proof {
        assert((|e: SongEntry| is_play_of_any::<Artist>(e, aspect_views(one@))) =~= (|e: SongEntry| is_play_of_any::<Artist>(e, seq![artist@])));
        assert(s@.take(s@.len() as int) =~= s@);
        assert(-i64::MAX <= total_time_where(s@.take(s@.len() as int), |e: SongEntry| is_play_of_any::<Artist>(e, seq![artist@])) <= i64::MAX);
    }
    let own = entries_of(s, artist);
    let song_tally = gather::songs_summed_across_albums(own.as_slice());
    let ghost st = song_tally@;
    let songs = sorted_playcount_list(song_tally, SUMMARY_TOP);
    let album_tally = gather::albums_from_artist(s, artist);
    let ghost at = album_tally@;
    let albums = sorted_playcount_list(album_tally, SUMMARY_TOP);
    let mut first_listens: Vec<SongEntry> = Vec::new();
    let mut i: usize = 0;
    while i < own.len() && i < SUMMARY_TOP
        invariant
            i <= own@.len(),
            i <= SUMMARY_TOP,
            first_listens@ == own@.take(i as int),
        decreases own@.len() - i,
    {
        first_listens.push(own[i].duplicate());
        i = i + 1;
        assert(first_listens@ =~= own@.take(i as int));
    }
    assert(first_listens@ =~= first_n(own@, 10));
    let mut last_listens: Vec<SongEntry> = Vec::new();
    let mut j: usize = 0;
    while j < own.len() && j < SUMMARY_TOP
        invariant
            j <= own@.len(),
            j <= SUMMARY_TOP,
            last_listens@ == own@.reverse().take(j as int),
        decreases own@.len() - j,
    {
        last_listens.push(own[own.len() - 1 - j].duplicate());
        j = j + 1;
        assert(last_listens@ =~= own@.reverse().take(j as int));
    }
    assert(last_listens@ =~= first_n(own@.reverse(), 10));
    let summary = ArtistSummary {
        songs,
        albums,
        plays: own.len(),
        time_played: time,
        first_listens,
        last_listens,
    };
    proof {
        let ts = choose|top: Seq<(crate::aspect::Song, usize)>| #[trigger] is_top(top, st, 10) && names_with_plays(summary.songs@, top);
        assert(gather::is_summed_across_albums(st, own@) && is_top(ts, st, 10) && names_with_plays(summary.songs@, ts));
        let ta = choose|top: Seq<(crate::aspect::Album, usize)>| #[trigger] is_top(top, at, 10) && names_with_plays(summary.albums@, top);
        assert(gather::is_tally(at, gather::views_where::<Artist, crate::aspect::Album>(s@, artist@)) && is_top(ta, at, 10) && names_with_plays(summary.albums@, ta));
    }
    Some(summary)
}

} // verus!
