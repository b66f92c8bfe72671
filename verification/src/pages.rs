//! What the pages of the web interface show: the chosen version of an
//! artist or album, the statistics of a song page, and the dates of the
//! listening history.

use vstd::prelude::*;

use crate::aspect::{lemma_keys_lt_total, lemma_keys_lt_transitive, Artist, Music, Song, SongView};
use crate::display::trunc_div;
use crate::entry::{duration_in, SongEntries, SongEntry};
use crate::gather::{
    aspect_views, first_entry_of_many, is_first_where, is_last_where, is_play_of_any, last_entry_of_many,
    plays, plays_in, plays_of_many, plays_of_any, time_sums_fit_where, total_time_where,
    is_summed_across_albums, is_tally, songs_from, songs_summed_across_albums, views_where,
};
use crate::rank::{is_top, sorted_by_plays};
use crate::summary::{entries_of, plays_list};
use crate::text::{append_string, keys_lt, push_decimal};
use vstd::utf8::encode_utf8;

verus! {

/// Chooses one of several versions (differently capitalized names) of an
/// artist or album: the only one if there is one, else the one at position
/// `id` if given and valid. Returns its position.
pub fn select_by_id<T>(versions: &Vec<T>, id: Option<usize>) -> (r: Option<usize>)
    ensures
        r == (if versions@.len() == 1 {
            Some(0usize)
        } else {
            match id {
                Some(i) => if i < versions@.len() { Some(i) } else { None },
                None => None,
            }
        }),
{
    if versions.len() == 1 {
        Some(0)
    } else {
        match id {
            Some(i) => if i < versions.len() { Some(i) } else { None },
            None => None,
        }
    }
}

/// One version of a song (the song in one album) on a song page.
pub struct SongVersion {
    /// The song
    pub song: Song,
    /// Its plays
    pub plays: usize,
    /// The time spent listening to it, in milliseconds
    pub time_played: i64,
    /// Timestamp of its first play
    pub first_listen: i64,
    /// Timestamp of its last play
    pub last_listen: i64,
}

/// The statistics of a song page: a song summed over all its versions.
pub struct SongPage {
    /// The version with the most plays (of several, the first by name)
    pub base_song: Song,
    /// Plays of all versions
    pub plays: usize,
    /// Time spent listening to all versions, in milliseconds
    pub time_played: i64,
    /// Timestamp of the first play of any version
    pub first_listen: i64,
    /// Timestamp of the last play of any version
    pub last_listen: i64,
    /// Duration of the base song, in milliseconds
    pub duration: i64,
    /// Average time played per play, in milliseconds (rounded towards zero)
    pub avg_time_played: i64,
    /// Plays of any version lasting at least the duration
    pub full_listens: usize,
    /// Plays of any version lasting at least 90% of the duration
    pub ninety_listens: usize,
    /// The versions of the song by the chosen artist, in the order given
    pub song_versions: Vec<SongVersion>,
}

/// Why a song page cannot be shown.
#[derive(Clone, Copy, Debug, PartialEq, Eq)]
pub enum SongPageError {
    /// None of the versions is by the chosen artist
    NoVersion,
    /// None of the versions has been played, or the base song has no duration
    NotPlayed,
    /// A listening time or the average cannot be computed: a sum overflows,
    /// or the number of plays taken as an `i32` is zero
    Overflow,
}

/// Song `a` with `pa` plays ranks before song `b` with `pb` plays: it has
/// more plays, or as many and comes first by name.
pub open spec fn song_ranked_before(a: SongView, pa: nat, b: SongView, pb: nat) -> bool {
    pa > pb || (pa == pb && keys_lt(Song::order_key(a), Song::order_key(b)))
}

/// The song at position `k` of `songs` competes to be the base song: the
/// first one, and every one by `artist`.
pub open spec fn is_candidate(songs: Seq<Song>, artist: Seq<char>, k: int) -> bool {
    0 <= k < songs.len() && (k == 0 || songs[k].album.artist.name@ == artist)
}

/// The entries that are plays of the song `v`.
pub open spec fn plays_of_song(v: SongView) -> spec_fn(SongEntry) -> bool {
    |e: SongEntry| Song::of_entry(e) == v
}

/// The entries that are plays of one of the songs `vs`.
pub open spec fn plays_of_songs(vs: Seq<SongView>) -> spec_fn(SongEntry) -> bool {
    |e: SongEntry| is_play_of_any::<Song>(e, vs)
}

/// `t` is the timestamp of the first entry of `s` that satisfies `p`.
pub open spec fn is_first_time(t: i64, s: Seq<SongEntry>, p: spec_fn(SongEntry) -> bool) -> bool {
    exists|k: int| {
        &&& 0 <= k < s.len()
        &&& p(#[trigger] s[k])
        &&& t == s[k].timestamp
        &&& forall|j: int| 0 <= j < k ==> !p(#[trigger] s[j])
    }
}

/// `t` is the timestamp of the last entry of `s` that satisfies `p`.
pub open spec fn is_last_time(t: i64, s: Seq<SongEntry>, p: spec_fn(SongEntry) -> bool) -> bool {
    exists|k: int| {
        &&& 0 <= k < s.len()
        &&& p(#[trigger] s[k])
        &&& t == s[k].timestamp
        &&& forall|j: int| k < j < s.len() ==> !p(#[trigger] s[j])
    }
}

/// The statistics `v` are those of the version `song` in `s`.
pub open spec fn is_version_stats(v: SongVersion, song: Song, s: Seq<SongEntry>) -> bool {
    &&& v.song@ == song@
    &&& v.plays == plays_in::<Song>(s, song@)
    &&& v.time_played == total_time_where(s, plays_of_songs(seq![song@]))
    &&& is_first_time(v.first_listen, s, plays_of_song(song@))
    &&& is_last_time(v.last_listen, s, plays_of_song(song@))
}

/// The version `song` can be shown: it has been played, and its listening
/// time can be summed.
pub open spec fn version_ok(song: Song, s: Seq<SongEntry>) -> bool {
    &&& time_sums_fit_where(s, plays_of_songs(seq![song@]))
    &&& exists|k: int| 0 <= k < s.len() && plays_of_song(song@)(#[trigger] s[k])
}

/// The versions of `songs` by the artist called `artist`, in order.
pub open spec fn versions_by(songs: Seq<Song>, artist: Seq<char>) -> Seq<Song>
    decreases songs.len(),
{
    if songs.len() == 0 {
        seq![]
    } else if songs.last().album.artist.name@ == artist {
        versions_by(songs.drop_last(), artist).push(songs.last())
    } else {
        versions_by(songs.drop_last(), artist)
    }
}

/// An entry that satisfies `p` comes first or last in `s`.
proof fn lemma_first_last_time(r: Option<&SongEntry>, s: Seq<SongEntry>, p: spec_fn(SongEntry) -> bool, first: bool)
    requires
        first ==> is_first_where(r, s, p),
        !first ==> is_last_where(r, s, p),
        r is Some,
    ensures
        first ==> is_first_time(r.unwrap().timestamp, s, p),
        !first ==> is_last_time(r.unwrap().timestamp, s, p),
{
    let e = r.unwrap();
    if first {
        let k = choose|k: int| {
            &&& 0 <= k < s.len()
            &&& *e == #[trigger] s[k]
            &&& p(s[k])
            &&& forall|j: int| 0 <= j < k ==> !p(#[trigger] s[j])
        };
        assert(p(s[k]) && e.timestamp == s[k].timestamp);
    } else {
        let k = choose|k: int| {
            &&& 0 <= k < s.len()
            &&& *e == #[trigger] s[k]
            &&& p(s[k])
            &&& forall|j: int| k < j < s.len() ==> !p(#[trigger] s[j])
        };
        assert(p(s[k]) && e.timestamp == s[k].timestamp);
    }
}

/// Computes the statistics of one version of a song.
fn version_stats(entries: &[SongEntry], song: &Song) -> (r: Result<SongVersion, SongPageError>)
    ensures
        match r {
            Ok(v) => version_ok(*song, entries@) && is_version_stats(v, *song, entries@),
            Err(e) => !version_ok(*song, entries@) && (e == SongPageError::Overflow || e == SongPageError::NotPlayed),
        },
{
    let one = vec![song.duplicate()];
    assert(aspect_views(one@) =~= seq![song@]);
    let p = plays(entries, song);
    let time = match crate::gather::listening_time_of_many_checked(entries, one.as_slice()) {
        Some(t) => t,
        None => return Err(SongPageError::Overflow),
    };
    let first = crate::gather::first_entry_of(entries, song);
    let last = crate::gather::last_entry_of(entries, song);
    proof {
        assert(plays_of_song(song@) =~= (|e: SongEntry| Song::of_entry(e) == song@));
        assert(plays_of_songs(seq![song@]) =~= (|e: SongEntry| is_play_of_any::<Song>(e, aspect_views(one@))));
        assert(entries@.take(entries@.len() as int) =~= entries@);
        assert(-i64::MAX <= total_time_where(entries@.take(entries@.len() as int), plays_of_songs(seq![song@])) <= i64::MAX);
    }
    match (first, last) {
        (Some(f), Some(l)) => {
            proof {
                lemma_first_last_time(first, entries@, plays_of_song(song@), true);
                lemma_first_last_time(last, entries@, plays_of_song(song@), false);
                let k = choose|k: int| {
                    &&& 0 <= k < entries@.len()
                    &&& plays_of_song(song@)(#[trigger] entries@[k])
                    &&& f.timestamp == entries@[k].timestamp
                    &&& forall|j: int| 0 <= j < k ==> !plays_of_song(song@)(#[trigger] entries@[j])
                };
                assert(plays_of_song(song@)(entries@[k]));
            }
            Ok(SongVersion { song: song.duplicate(), plays: p, time_played: time, first_listen: f.timestamp, last_listen: l.timestamp })
        },
        _ => {
            proof {
                assert(first is None);
            }
            Err(SongPageError::NotPlayed)
        },
    }
}


/// The song at position `k` of `songs` is the base song: a candidate that
/// no other candidate ranks before, by plays in `s` and then by name.
pub open spec fn is_base_song(songs: Seq<Song>, artist: Seq<char>, s: Seq<SongEntry>, k: int) -> bool {
    &&& is_candidate(songs, artist, k)
    &&& forall|j: int| #[trigger] is_candidate(songs, artist, j) ==> !song_ranked_before(
        songs[j]@,
        plays_in::<Song>(s, songs[j]@),
        songs[k]@,
        plays_in::<Song>(s, songs[k]@),
    )
}

/// How many entries of `s` are plays of one of `songs` lasting at least
/// `tenths` tenths of `d` milliseconds.
pub open spec fn listens_at_least(s: Seq<SongEntry>, songs: Seq<SongView>, d: int, tenths: int) -> nat
    decreases s.len(),
{
    if s.len() == 0 {
        0
    } else {
        listens_at_least(s.drop_last(), songs, d, tenths)
            + if is_play_of_any::<Song>(s.last(), songs) && 10 * s.last().time_played >= tenths * d { 1nat } else { 0nat }
    }
}

/// `page` shows the song `songs` (all its versions) for the artist called
/// `artist` in the dataset `d`.
pub open spec fn is_song_page(page: SongPage, d: SongEntries, songs: Seq<Song>, artist: Seq<char>) -> bool {
    let s = d@;
    let all = aspect_views(songs);
    let vs = versions_by(songs, artist);
    &&& exists|k: int| is_base_song(songs, artist, s, k) && page.base_song@ == #[trigger] songs[k]@
    &&& page.plays == plays_of_any::<Song>(s, all)
    &&& page.time_played == total_time_where(s, plays_of_songs(all))
    &&& is_first_time(page.first_listen, s, plays_of_songs(all))
    &&& is_last_time(page.last_listen, s, plays_of_songs(all))
    &&& page.duration == duration_in(d.durations_view(), page.base_song@)
    &&& page.avg_time_played == trunc_div(page.time_played as int, page.plays as int)
    &&& page.full_listens == listens_at_least(s, all, page.duration as int, 10)
    &&& page.ninety_listens == listens_at_least(s, all, page.duration as int, 9)
    &&& page.song_versions@.len() == vs.len()
    &&& forall|i: int| 0 <= i < vs.len() ==> is_version_stats(#[trigger] page.song_versions@[i], vs[i], s)
}


/// The song page for the artist called `artist` can be shown: some version
/// is by that artist, every such version has been played and its listening
/// time can be summed, so can the listening time of all versions, the base
/// song has a duration, and the plays fit in an `i32`.
pub open spec fn song_page_ok(d: SongEntries, songs: Seq<Song>, artist: Seq<char>) -> bool {
    let s = d@;
    let all = aspect_views(songs);
    &&& forall|k: int| 0 <= k < songs.len() && #[trigger] songs[k].album.artist.name@ == artist ==> version_ok(songs[k], s)
    &&& exists|k: int| 0 <= k < songs.len() && #[trigger] songs[k].album.artist.name@ == artist
    &&& time_sums_fit_where(s, plays_of_songs(all))
    &&& exists|k: int| #[trigger] is_base_song(songs, artist, s, k) && listed_song(d, songs[k]@)
    &&& plays_of_any::<Song>(s, all) <= i32::MAX
}

/// The dataset knows the duration of the song `v`.
pub open spec fn listed_song(d: SongEntries, v: SongView) -> bool {
    crate::entry::listed(d.durations_view(), v)
}

/// Two base songs are the same song.
proof fn lemma_base_unique(songs: Seq<Song>, artist: Seq<char>, s: Seq<SongEntry>, a: int, b: int)
    requires
        is_base_song(songs, artist, s, a),
        is_base_song(songs, artist, s, b),
    ensures
        songs[a]@ == songs[b]@,
{
    assert(is_candidate(songs, artist, a) && is_candidate(songs, artist, b));
    Song::lemma_order_key_injective(songs[a]@, songs[b]@);
    lemma_keys_lt_total(Song::order_key(songs[a]@), Song::order_key(songs[b]@));
}

/// Counts the plays of any of `songs` lasting at least `tenths` tenths of `d` milliseconds.
fn count_listens(entries: &[SongEntry], songs: &[Song], d: i64, tenths: i64) -> (r: usize)
    requires
        0 <= tenths <= 10,
    ensures
        r == listens_at_least(entries@, aspect_views(songs@), d as int, tenths as int),
{
    let mut n: usize = 0;
    let mut i: usize = 0;
    while i < entries.len()
        invariant
            0 <= tenths <= 10,
            i <= entries@.len(),
            n <= i,
            n == listens_at_least(entries@.take(i as int), aspect_views(songs@), d as int, tenths as int),
        decreases entries@.len() - i,
    {
        proof {
            crate::gather::lemma_take_last(entries@, i as int);
        }
        let t = entries[i].time_played;
        assert((tenths as i128) * (d as i128) <= 10 * 9223372036854775807i128
            && (tenths as i128) * (d as i128) >= -10 * 9223372036854775808i128) by (nonlinear_arith)
            requires
                0 <= tenths <= 10,
                -9223372036854775808i128 <= d as i128 <= 9223372036854775807i128,
        ;
        if crate::gather::is_entry_of_any(songs, &entries[i]) && 10 * (t as i128) >= (tenths as i128) * (d as i128) {
            n = n + 1;
        }
        i = i + 1;
    }
    assert(entries@.take(entries@.len() as int) =~= entries@);
    n
}

/// The statistics of the song page of a song (all versions in `songs`, as
/// `find` returns them) for the artist called `artist` (one version of the
/// artist's name).
///
/// The base song is the version with the most plays (of several, the first
/// by name) among the first version and those by the artist. The page lists
/// the versions by the artist; the totals are over all versions.
pub fn song_page(entries: &SongEntries, songs: &[Song], artist: &Artist) -> (r: Result<SongPage, SongPageError>)
    requires
        entries.wf(),
        songs@.len() > 0,
    ensures
        r is Ok <==> song_page_ok(*entries, songs@, artist@),
        r matches Ok(page) ==> is_song_page(page, *entries, songs@, artist@),
        r == Err::<SongPage, SongPageError>(SongPageError::NoVersion) ==> forall|k: int| 0 <= k < songs@.len() ==> #[trigger] songs@[k].album.artist.name@ != artist@,
{
    let ghost d = *entries;
    let ghost sq = songs@;
    let s = entries.entries();
    let mut best: usize = 0;
    let mut best_plays: usize = plays(s, &songs[0]);
    let mut versions: Vec<SongVersion> = Vec::new();
    let mut k: usize = 0;
    proof {
        lemma_keys_lt_total(Song::order_key(sq[0]@), Song::order_key(sq[0]@));
    }
    while k < songs.len()
        invariant
            d == *entries,
            s@ == d@,
            sq == songs@,
            sq.len() > 0,
            k <= sq.len(),
            best < sq.len(),
            is_candidate(sq, artist@, best as int),
            best_plays == plays_in::<Song>(s@, sq[best as int]@),
            forall|j: int| 0 <= j < sq.len() && (j < k || j == 0) && #[trigger] is_candidate(sq, artist@, j) ==> !song_ranked_before(
                sq[j]@, plays_in::<Song>(s@, sq[j]@), sq[best as int]@, plays_in::<Song>(s@, sq[best as int]@)),
            forall|j: int| 0 <= j < k && #[trigger] sq[j].album.artist.name@ == artist@ ==> version_ok(sq[j], s@),
            versions@.len() == versions_by(sq.take(k as int), artist@).len(),
            forall|i: int| 0 <= i < versions@.len() ==> is_version_stats(#[trigger] versions@[i], versions_by(sq.take(k as int), artist@)[i], s@),
        decreases sq.len() - k,
    {
        proof {
            crate::gather::lemma_take_last(sq, k as int);
        }
        let song = &songs[k];
        if song.album.artist.same_as(artist) {
            let p = plays(s, song);
            proof {
                Song::lemma_order_key_injective(song@, sq[best as int]@);
                lemma_keys_lt_total(Song::order_key(song@), Song::order_key(sq[best as int]@));
            }
            let better = if p == best_plays { song.comes_before(&songs[best]) } else { p > best_plays };
            if better {
                proof {
                    assert forall|j: int| 0 <= j < sq.len() && (j < k + 1 || j == 0) && #[trigger] is_candidate(sq, artist@, j) implies !song_ranked_before(
                        sq[j]@, plays_in::<Song>(s@, sq[j]@), sq[k as int]@, plays_in::<Song>(s@, sq[k as int]@)) by {
                        if j != k {
                            let b = best as int;
                            Song::lemma_order_key_injective(sq[j]@, sq[b]@);
                            lemma_keys_lt_total(Song::order_key(sq[j]@), Song::order_key(sq[b]@));
                            lemma_keys_lt_total(Song::order_key(sq[j]@), Song::order_key(sq[k as int]@));
                            if keys_lt(Song::order_key(sq[j]@), Song::order_key(sq[k as int]@)) && keys_lt(Song::order_key(sq[k as int]@), Song::order_key(sq[b]@)) {
                                lemma_keys_lt_transitive(Song::order_key(sq[j]@), Song::order_key(sq[k as int]@), Song::order_key(sq[b]@));
                            }
                        } else {
                            lemma_keys_lt_total(Song::order_key(sq[j]@), Song::order_key(sq[j]@));
                        }
                    }
                }
                best = k;
                best_plays = p;
            }
            match version_stats(s, song) {
                Ok(v) => {
                    versions.push(v);
                },
                Err(e) => {
                    proof {
                        assert(sq[k as int] == *song);
                        assert(!version_ok(sq[k as int], d@));
                        assert(sq[k as int].album.artist.name@ == artist@);
                        assert(!song_page_ok(d, sq, artist@));
                    }
                    return Err(e);
                },
            }
        }
        k = k + 1;
    }
    assert(sq.take(sq.len() as int) =~= sq);
    if versions.len() == 0 {
        proof {
            assert forall|j: int| 0 <= j < sq.len() implies #[trigger] sq[j].album.artist.name@ != artist@ by {
                lemma_versions_by_member(sq, artist@, j);
            }
        }
        return Err(SongPageError::NoVersion);
    }
    proof {
        assert(is_base_song(sq, artist@, s@, best as int));
        assert(exists|j: int| 0 <= j < sq.len() && #[trigger] sq[j].album.artist.name@ == artist@) by {
            if forall|j: int| 0 <= j < sq.len() ==> #[trigger] sq[j].album.artist.name@ != artist@ {
                lemma_versions_by_none(sq, artist@);
            }
        }
    }
    let total_plays = plays_of_many(s, songs);
    let time = match crate::gather::listening_time_of_many_checked(s, songs) {
        Some(t) => t,
        None => {
            return Err(SongPageError::Overflow);
        },
    };
    let first = first_entry_of_many(s, songs);
    let last = last_entry_of_many(s, songs);
    proof {
        let all = aspect_views(sq);
        assert(plays_of_songs(all) =~= (|e: SongEntry| is_play_of_any::<Song>(e, aspect_views(songs@))));
        assert(s@.take(s@.len() as int) =~= s@);
        assert(-i64::MAX <= total_time_where(s@.take(s@.len() as int), plays_of_songs(all)) <= i64::MAX);
        let j = choose|j: int| 0 <= j < sq.len() && #[trigger] sq[j].album.artist.name@ == artist@;
        assert(version_ok(sq[j], s@));
        let e = choose|e: int| 0 <= e < s@.len() && plays_of_song(sq[j]@)(#[trigger] s@[e]);
        assert(all[j] == sq[j]@);
        assert(is_play_of_any::<Song>(s@[e], all));
        lemma_plays_of_any_pos(s@, all, e);
        assert(first is Some);
        assert(last is Some);
        lemma_first_last_time(first, s@, plays_of_songs(all), true);
        lemma_first_last_time(last, s@, plays_of_songs(all), false);
    }
    let first_listen = first.unwrap().timestamp;
    let last_listen = last.unwrap().timestamp;
    let duration = match entries.duration_of(&songs[best]) {
        Some(dur) => dur,
        None => {
            proof {
                assert forall|q: int| #[trigger] is_base_song(sq, artist@, s@, q) implies !listed_song(d, sq[q]@) by {
                    lemma_base_unique(sq, artist@, s@, q, best as int);
                }
            }
            return Err(SongPageError::NotPlayed);
        },
    };
    if total_plays > 2147483647 {
        return Err(SongPageError::Overflow);
    }
    let avg = crate::display::div_trunc(time, total_plays as i64);
    let full = count_listens(s, songs, duration, 10);
    let ninety = count_listens(s, songs, duration, 9);
    let page = SongPage {
        base_song: songs[best].duplicate(),
        plays: total_plays,
        time_played: time,
        first_listen,
        last_listen,
        duration,
        avg_time_played: avg,
        full_listens: full,
        ninety_listens: ninety,
        song_versions: versions,
    };
    proof {
        assert(listed_song(d, sq[best as int]@));
        assert(is_base_song(sq, artist@, s@, best as int) && listed_song(d, sq[best as int]@));
        assert(page.base_song@ == sq[best as int]@);
    }
    Ok(page)
}

/// Whether some song of `songs` is by the artist called `artist`.
proof fn lemma_versions_by_member(songs: Seq<Song>, artist: Seq<char>, j: int)
    requires
        0 <= j < songs.len(),
    ensures
        versions_by(songs, artist).len() == 0 ==> songs[j].album.artist.name@ != artist,
    decreases songs.len(),
{
    if j < songs.len() - 1 {
        lemma_versions_by_member(songs.drop_last(), artist, j);
        assert(songs.drop_last()[j] == songs[j]);
    }
}

/// Without songs by the artist, there are no versions by the artist.
proof fn lemma_versions_by_none(songs: Seq<Song>, artist: Seq<char>)
    requires
        forall|j: int| 0 <= j < songs.len() ==> #[trigger] songs[j].album.artist.name@ != artist,
    ensures
        versions_by(songs, artist).len() == 0,
    decreases songs.len(),
{
    if songs.len() > 0 {
        assert(songs.last() == songs[songs.len() - 1]);
        assert forall|j: int| 0 <= j < songs.drop_last().len() implies #[trigger] songs.drop_last()[j].album.artist.name@ != artist by {
            assert(songs.drop_last()[j] == songs[j]);
        }
        lemma_versions_by_none(songs.drop_last(), artist);
    }
}

/// A play of one of `vs` makes their number of plays positive.
proof fn lemma_plays_of_any_pos(s: Seq<SongEntry>, vs: Seq<SongView>, k: int)
    requires
        0 <= k < s.len(),
        is_play_of_any::<Song>(s[k], vs),
    ensures
        plays_of_any::<Song>(s, vs) >= 1,
    decreases s.len(),
{
    if k < s.len() - 1 {
        lemma_plays_of_any_pos(s.drop_last(), vs, k);
        assert(s.drop_last()[k] == s[k]);
    }
}


/// A byte that URL encoding keeps: an ASCII letter or digit, `-`, `.`, `_` or `~`.
pub open spec fn url_safe(b: u8) -> bool {
    ||| 48 <= b <= 57
    ||| 65 <= b <= 90
    ||| 97 <= b <= 122
    ||| b == 45 || b == 46 || b == 95 || b == 126
}

/// The uppercase hexadecimal digit of `d` (below 16).
pub open spec fn hex_digit(d: u8) -> char {
    if d < 10 {
        (48 + d) as char
    } else {
        (55 + d) as char
    }
}

/// The percent-encoding of the bytes `b`: safe bytes as they are, every
/// other byte as `%` and two uppercase hexadecimal digits.
pub open spec fn percent_encoded(b: Seq<u8>) -> Seq<char>
    decreases b.len(),
{
    if b.len() == 0 {
        seq![]
    } else {
        let last = b.last();
        percent_encoded(b.drop_last()) + if url_safe(last) {
            seq![last as char]
        } else {
            seq!['%', hex_digit(last / 16), hex_digit(last % 16)]
        }
    }
}

/// Percent-encodes a string.
///
/// Trusted: calls `urlencoding::encode`, whose source encodes the UTF-8
/// bytes of the string one by one, keeping ASCII letters, digits and
/// `-`, `.`, `_`, `~`, and writing every other byte as `%` followed by two
/// uppercase hexadecimal digits.
#[verifier::external_body]
fn percent_encode(name: &str) -> (r: String)
    ensures
        r@ == percent_encoded(encode_utf8(name@)),
{
    urlencoding::encode(name).into_owned()
}

/// Encodes a name for use in a URL (e.g. the `/` in `AC/DC`).
pub fn encode_url(name: &str) -> (r: String)
    ensures
        r@ == percent_encoded(encode_utf8(name@)),
{
    percent_encode(name)
}

/// The link to a page: `base` followed by the encoded names, each after a
/// `/`, and by `?<key>=<id>` when an id is given.
pub open spec fn link_text(base: Seq<char>, names: Seq<Seq<char>>, key: Seq<char>, id: Option<usize>) -> Seq<char>
    decreases names.len(),
{
    if names.len() == 0 {
        base + match id {
            Some(i) => seq!['?'] + key + seq!['='] + crate::text::decimal(i as nat),
            None => Seq::empty(),
        }
    } else {
        link_text(base + seq!['/'] + percent_encoded(encode_utf8(names[0])), names.drop_first(), key, id)
    }
}

/// Builds the link to a page: `base` followed by each encoded name after a
/// `/`, and by `?<key>=<id>` when an id is given, e.g.
/// `/album/<artist>/<album>?artist_id=1`.
pub fn link(base: &str, names: &[&str], key: &str, id: Option<usize>) -> (r: String)
    ensures
        r@ == link_text(base@, names@.map_values(|n: &str| n@), key@, id),
{
    let ghost ns = names@.map_values(|n: &str| n@);
    let mut r = base.to_owned();
    let mut i: usize = 0;
    assert(ns.skip(0) =~= ns);
    while i < names.len()
        invariant
            i <= names@.len(),
            ns == names@.map_values(|n: &str| n@),
            link_text(base@, ns, key@, id) == link_text(r@, ns.skip(i as int), key@, id),
        decreases names@.len() - i,
    {
        proof {
            assert(ns.skip(i as int).drop_first() =~= ns.skip(i + 1));
            assert(ns.skip(i as int)[0] == names@[i as int]@);
        }
        let ghost before = r@;
        crate::text::push_char(&mut r, '/');
        let encoded = encode_url(names[i]);
        append_string(&mut r, &encoded);
        assert(r@ =~= before + seq!['/'] + percent_encoded(encode_utf8(ns.skip(i as int)[0])));
        i = i + 1;
    }
    assert(ns.skip(i as int) =~= Seq::<Seq<char>>::empty());
    match id {
        Some(n) => {
            crate::text::push_char(&mut r, '?');
            append_string(&mut r, &key.to_owned());
            crate::text::push_char(&mut r, '=');
            push_decimal(&mut r, n as u64);
        },
        None => {},
    }
    r
}

/// `t` holds `-->` at position `k`.
pub open spec fn closes_at(t: Seq<char>, k: int) -> bool {
    0 <= k && k + 3 <= t.len() && t[k] == '-' && t[k + 1] == '-' && t[k + 2] == '>'
}

/// `t` begins with `<!--`.
pub open spec fn opens_comment(t: Seq<char>) -> bool {
    4 <= t.len() && t[0] == '<' && t[1] == '!' && t[2] == '-' && t[3] == '-'
}

/// `t` with its HTML comments removed: from left to right, each `<!--`
/// that a later `-->` closes is removed together with everything up to and
/// including the first such `-->`, line breaks included; a `<!--` that no
/// `-->` closes stays.
pub open spec fn without_html_comments(t: Seq<char>) -> Seq<char>
    decreases t.len(),
{
    if t.len() == 0 {
        t
    } else if opens_comment(t) && exists|k: int| 4 <= k && #[trigger] closes_at(t, k) {
        rest_of_comment(t.skip(4))
    } else {
        seq![t[0]] + without_html_comments(t.drop_first())
    }
}

/// What follows the inside of a comment that `t` begins with, with its own
/// comments removed: `t` after its first `-->`.
pub open spec fn rest_of_comment(t: Seq<char>) -> Seq<char>
    decreases t.len(),
{
    if t.len() == 0 {
        t
    } else if closes_at(t, 0) {
        without_html_comments(t.skip(3))
    } else {
        rest_of_comment(t.drop_first())
    }
}

/// Removes HTML comments from a text.
///
/// Trusted: builds the regex `(?s)<!--.*?-->` with `regex::Regex::new`
/// (which accepts it) and calls `replace_all` with an empty replacement,
/// copying the result into a `String`. The regex crate finds the leftmost
/// matches one after another without overlap, and the lazy `.*?` (which with
/// the `s` flag also matches a line break) ends each match at the first
/// `-->` after its `<!--`, so what remains is [`without_html_comments`].
#[verifier::external_body]
fn replace_html_comments(text: &str) -> (r: String)
    ensures
        r@ == without_html_comments(text@),
{
    match regex::Regex::new(r"(?s)<!--.*?-->") {
        Ok(re) => re.replace_all(text, "").into_owned(),
        Err(_) => text.to_owned(),
    }
}

/// Removes HTML comments from an HTML response body; other content types
/// are left as they are.
pub fn remove_html_comments(content_type: &str, body: &str) -> (r: String)
    ensures
        r@ == (if crate::command::starts_with(content_type@, "text/html"@) {
            without_html_comments(body@)
        } else {
            body@
        }),
{
    if crate::command::has_prefix(content_type, "text/html") {
        replace_html_comments(body)
    } else {
        body.to_owned()
    }
}

/// How many songs an artist's page lists when no number is asked for.
pub const ARTIST_SONGS_TOP: usize = 1000;

/// `r` is the list of songs on the page of `artist`: its `top` best ranked
/// songs (with plays summed across albums when `summed`), each with the link
/// to its own page and its plays.
pub open spec fn is_artist_song_list(
    r: Seq<(String, Song, usize)>,
    s: Seq<SongEntry>,
    artist: Artist,
    top: nat,
    summed: bool,
    id: Option<usize>,
) -> bool {
    exists|tally: Seq<(Song, usize)>, sorted: Seq<(Song, usize)>| {
        &&& if summed {
            is_summed_across_albums(tally, plays_list::<Artist>(s, artist@))
        } else {
            is_tally(tally, views_where::<Artist, Song>(s, artist@))
        }
        &&& #[trigger] is_top(sorted, tally, top)
        &&& r.len() == sorted.len()
        &&& forall|i: int| 0 <= i < r.len() ==> {
            &&& (#[trigger] r[i]).1@ == sorted[i].0@
            &&& r[i].2 == sorted[i].1
            &&& r[i].0@ == link_text(
                "/song"@,
                seq![sorted[i].0.album.artist.name@, sorted[i].0.name@],
                "artist_id"@,
                id,
            )
        }
    }
}

/// The songs of an artist's page: the `top` best ranked songs of `artist`
/// (1000 when no number is given), with their plays summed across albums when
/// `summed`, each with the link to its page (carrying the artist's `id` when
/// one is given) and its plays.
pub fn artist_song_list(
    entries: &SongEntries,
    artist: &Artist,
    top: Option<usize>,
    summed: bool,
    id: Option<usize>,
) -> (r: Vec<(String, Song, usize)>)
    ensures
        is_artist_song_list(
            r@,
            entries@,
            *artist,
            match top {
                Some(n) => n as nat,
                None => ARTIST_SONGS_TOP as nat,
            },
            summed,
            id,
        ),
{
    let s = entries.entries();
    let num = match top {
        Some(n) => n,
        None => ARTIST_SONGS_TOP,
    };
    let tally = if summed {
        let own = entries_of(s, artist);
        songs_summed_across_albums(own.as_slice())
    } else {
        songs_from(s, artist)
    };
    let ghost t = tally@;
    let sorted = sorted_by_plays(tally, num);
    let mut r: Vec<(String, Song, usize)> = Vec::new();
    let mut i: usize = 0;
    while i < sorted.len()
        invariant
            i <= sorted@.len(),
            r@.len() == i,
            forall|k: int| 0 <= k < i ==> {
                &&& (#[trigger] r@[k]).1@ == sorted@[k].0@
                &&& r@[k].2 == sorted@[k].1
                &&& r@[k].0@ == link_text(
                    "/song"@,
                    seq![sorted@[k].0.album.artist.name@, sorted@[k].0.name@],
                    "artist_id"@,
                    id,
                )
            },
        decreases sorted@.len() - i,
    {
        let song = &sorted[i].0;
        let names = [song.album.artist.name.as_str(), song.name.as_str()];
        let url = link("/song", &names, "artist_id", id);
        proof {
            assert(names@.map_values(|n: &str| n@) =~= seq![song.album.artist.name@, song.name@]);
        }
        r.push((url, song.duplicate(), sorted[i].1));
        i = i + 1;
    }
    assert(is_top(sorted@, t, num as nat));
    r
}

} // verus!
