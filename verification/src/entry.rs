//! Single song streams ([`SongEntry`]) and the dataset of all of them ([`SongEntries`]).

use vstd::prelude::*;
use vstd::slice::slice_subrange;

use crate::aspect::{Album, Artist, HasSongs, Music, Song, SongView};
use crate::find;
use crate::parse::{entries_parsed, first_error, parse, parsed_stamps, EntryError, RawEntry};
use crate::gather::{self, aspect_views, plays_of_any, listening_time, listening_time_checked, time_sums_fit, total_time, distinct, is_tally, lemma_distinct_facts, lemma_take_last, views};

verus! {

/// A single stream of a song.
#[derive(Debug)]
pub struct SongEntry {
    /// When the stream happened, in milliseconds since the Unix epoch (UTC)
    pub timestamp: i64,
    /// For how long the song was played, in milliseconds
    pub time_played: i64,
    /// Name of the song
    pub track: String,
    /// Name of the album
    pub album: String,
    /// Name of the artist
    pub artist: String,
}

/// Timestamps of a dataset lie strictly between `-TIMESTAMP_LIMIT` and `TIMESTAMP_LIMIT`
/// (far beyond any date that a stream can have).
pub const TIMESTAMP_LIMIT: i64 = 0x4000_0000_0000_0000;

/// Milliseconds in one day.
pub const DAY_MS: i64 = 86_400_000;

impl SongEntry {
    /// A copy of the entry.
    pub fn duplicate(&self) -> (r: SongEntry)
        ensures
            r == *self,
    {
        SongEntry {
            timestamp: self.timestamp,
            time_played: self.time_played,
            track: self.track.clone(),
            album: self.album.clone(),
            artist: self.artist.clone(),
        }
    }

    /// Whether two entries are plays of the same song (same artist, album and track name).
    pub fn same_song(&self, other: &SongEntry) -> (r: bool)
        ensures
            r == (Song::of_entry(*self) == Song::of_entry(*other)),
    {
        self.artist == other.artist && self.album == other.album && self.track == other.track
    }
}

/// The timestamps of `s` strictly increase.
pub open spec fn strictly_sorted(s: Seq<SongEntry>) -> bool {
    forall|i: int, j: int| 0 <= i < j < s.len() ==> #[trigger] s[i].timestamp < #[trigger] s[j].timestamp
}

/// Every entry of `s` has a timestamp within the limits and a time played
/// that is a valid duration.
pub open spec fn entries_in_range(s: Seq<SongEntry>) -> bool {
    forall|i: int| 0 <= i < s.len() ==> {
        &&& -TIMESTAMP_LIMIT < #[trigger] s[i].timestamp < TIMESTAMP_LIMIT
        &&& -i64::MAX <= s[i].time_played
    }
}

/// How many entries of `s` are plays of `song` lasting exactly `d` milliseconds.
pub open spec fn playtime_count(s: Seq<SongEntry>, song: SongView, d: int) -> nat
    decreases s.len(),
{
    if s.len() == 0 {
        0
    } else {
        playtime_count(s.drop_last(), song, d) + if Song::of_entry(s.last()) == song && s.last().time_played == d {
            1nat
        } else {
            0nat
        }
    }
}

/// `d` is the duration of `song` in `s`: its most common playtime, and the
/// longest one among equally common playtimes.
pub open spec fn is_song_duration(s: Seq<SongEntry>, song: SongView, d: int) -> bool {
    &&& playtime_count(s, song, d) > 0
    &&& forall|d2: int| #[trigger] playtime_count(s, song, d2) < playtime_count(s, song, d)
            || (playtime_count(s, song, d2) == playtime_count(s, song, d) && d2 <= d)
}

/// `durs` lists every song of `s` once, in the order of first play, with its duration.
pub open spec fn are_song_durations(durs: Seq<(Song, i64)>, s: Seq<SongEntry>) -> bool {
    &&& durs.len() == distinct(views::<Song>(s)).len()
    &&& forall|i: int| 0 <= i < durs.len() ==> #[trigger] durs[i].0@ == distinct(views::<Song>(s))[i]
    &&& forall|i: int| 0 <= i < durs.len() ==> is_song_duration(s, #[trigger] durs[i].0@, durs[i].1 as int)
}

/// `song` is listed in `durs`.
pub open spec fn listed(durs: Seq<(Song, i64)>, song: SongView) -> bool {
    exists|j: int| 0 <= j < durs.len() && #[trigger] durs[j].0@ == song
}

/// Every song played in `s` has a duration listed in `durs`, and no song is listed twice.
pub open spec fn durations_cover(durs: Seq<(Song, i64)>, s: Seq<SongEntry>) -> bool {
    &&& forall|i: int| 0 <= i < s.len() ==> listed(durs, Song::of_entry(#[trigger] s[i]))
    &&& forall|i: int, j: int| 0 <= i < j < durs.len() ==> #[trigger] durs[i].0@ != #[trigger] durs[j].0@
    &&& forall|j: int| 0 <= j < durs.len() ==> -i64::MAX <= #[trigger] durs[j].1
}

/// The duration listed for `song` in `durs` (when listed).
pub open spec fn duration_in(durs: Seq<(Song, i64)>, song: SongView) -> int
    decreases durs.len(),
{
    if durs.len() == 0 {
        0
    } else if durs.last().0@ == song {
        durs.last().1 as int
    } else {
        duration_in(durs.drop_last(), song)
    }
}

/// Count of plays of `song` lasting `d`, and where one is.
proof fn lemma_playtime_witness(s: Seq<SongEntry>, song: SongView, d: int)
    requires
        playtime_count(s, song, d) > 0,
    ensures
        exists|k: int| 0 <= k < s.len() && Song::of_entry(#[trigger] s[k]) == song && s[k].time_played == d,
    decreases s.len(),
{
    if Song::of_entry(s.last()) == song && s.last().time_played == d {
        assert(Song::of_entry(s[s.len() - 1]) == song);
    } else {
        lemma_playtime_witness(s.drop_last(), song, d);
        let k = choose|k: int| 0 <= k < s.drop_last().len() && Song::of_entry(#[trigger] s.drop_last()[k]) == song && s.drop_last()[k].time_played == d;
        assert(s[k] == s.drop_last()[k]);
    }
}

/// An entry of `s` counts towards the number of plays of its song lasting its playtime.
proof fn lemma_playtime_positive(s: Seq<SongEntry>, k: int)
    requires
        0 <= k < s.len(),
    ensures
        playtime_count(s, Song::of_entry(s[k]), s[k].time_played as int) > 0,
    decreases s.len(),
{
    if k < s.len() - 1 {
        lemma_playtime_positive(s.drop_last(), k);
        assert(s.drop_last()[k] == s[k]);
    }
}

/// Counts the plays of `song` lasting exactly `d`.
fn count_playtime(entries: &[SongEntry], song: &Song, d: i64) -> (r: usize)
    ensures
        r == playtime_count(entries@, song@, d as int),
{
    let mut n: usize = 0;
    let mut i: usize = 0;
    while i < entries.len()
        invariant
            i <= entries@.len(),
            n == playtime_count(entries@.take(i as int), song@, d as int),
            n <= i,
        decreases entries@.len() - i,
    {
        proof {
            lemma_take_last(entries@, i as int);
        }
        if song.is_entry(&entries[i]) && entries[i].time_played == d {
            n = n + 1;
        }
        i = i + 1;
    }
    assert(entries@.take(entries@.len() as int) == entries@);
    n
}

/// The duration of a song that has been played in `entries`: its most common
/// playtime, and the longest of the equally most common ones (because skipping
/// through a song can make a play last longer than the song).
pub fn song_length_in(entries: &[SongEntry], song: &Song) -> (r: i64)
    requires
        exists|k: int| 0 <= k < entries@.len() && Song::of_entry(#[trigger] entries@[k]) == song@,
    ensures
        is_song_duration(entries@, song@, r as int),
{
    let mut best_d: i64 = 0;
    let mut best_c: usize = 0;
    let mut i: usize = 0;
    while i < entries.len()
        invariant
            i <= entries@.len(),
            best_c == 0 ==> forall|k: int| 0 <= k < i ==> Song::of_entry(#[trigger] entries@[k]) != song@,
            best_c > 0 ==> best_c == playtime_count(entries@, song@, best_d as int),
            forall|k: int| 0 <= k < i && Song::of_entry(#[trigger] entries@[k]) == song@ ==> {
                let c = playtime_count(entries@, song@, entries@[k].time_played as int);
                c < best_c || (c == best_c && entries@[k].time_played <= best_d)
            },
        decreases entries@.len() - i,
    {
        if song.is_entry(&entries[i]) {
            let d = entries[i].time_played;
            let c = count_playtime(entries, song, d);
            proof {
                lemma_playtime_positive(entries@, i as int);
            }
            if c > best_c || (c == best_c && d > best_d) {
                best_c = c;
                best_d = d;
            }
        }
        i = i + 1;
    }
    proof {
        let k0 = choose|k: int| 0 <= k < entries@.len() && Song::of_entry(#[trigger] entries@[k]) == song@;
        assert(Song::of_entry(entries@[k0]) == song@);
        assert forall|d2: int| #[trigger] playtime_count(entries@, song@, d2) < playtime_count(entries@, song@, best_d as int)
            || (playtime_count(entries@, song@, d2) == playtime_count(entries@, song@, best_d as int) && d2 <= best_d) by {
            if playtime_count(entries@, song@, d2) > 0 {
                lemma_playtime_witness(entries@, song@, d2);
                let k = choose|k: int| 0 <= k < entries@.len() && Song::of_entry(#[trigger] entries@[k]) == song@ && entries@[k].time_played == d2;
                assert(Song::of_entry(entries@[k]) == song@);
            }
        }
    }
    best_d
}

/// Lists every song of `entries` (in the order of first play) with its duration.
pub fn song_durations(entries: &[SongEntry]) -> (r: Vec<(Song, i64)>)
    ensures
        are_song_durations(r@, entries@),
{
    let songs = gather::songs(entries);
    let mut r: Vec<(Song, i64)> = Vec::new();
    let mut j: usize = 0;
    proof {
        lemma_distinct_facts(views::<Song>(entries@));
    }
    while j < songs.len()
        invariant
            j <= songs@.len(),
            is_tally(songs@, views::<Song>(entries@)),
            forall|v: SongView| #[trigger] distinct(views::<Song>(entries@)).contains(v) <==> views::<Song>(entries@).contains(v),
            r@.len() == j,
            forall|i: int| 0 <= i < j ==> #[trigger] r@[i].0@ == songs@[i].0@,
            forall|i: int| 0 <= i < j ==> is_song_duration(entries@, #[trigger] r@[i].0@, r@[i].1 as int),
        decreases songs@.len() - j,
    {
        let song = &songs[j].0;
        proof {
            assert(distinct(views::<Song>(entries@))[j as int] == song@);
            assert(distinct(views::<Song>(entries@)).contains(song@));
            assert(views::<Song>(entries@).contains(song@));
            lemma_views_member(entries@, song@);
        }
        let d = song_length_in(entries, song);
        r.push((song.duplicate(), d));
        j = j + 1;
    }
    r
}

/// A song among the songs of `s` is the song of one of its entries.
proof fn lemma_views_member(s: Seq<SongEntry>, v: SongView)
    requires
        views::<Song>(s).contains(v),
    ensures
        exists|k: int| 0 <= k < s.len() && Song::of_entry(#[trigger] s[k]) == v,
    decreases s.len(),
{
    if s.len() > 0 {
        if Song::of_entry(s.last()) == v {
            assert(Song::of_entry(s[s.len() - 1]) == v);
        } else {
            assert(views::<Song>(s.drop_last()).contains(v)) by {
                let k = choose|k: int| 0 <= k < views::<Song>(s).len() && views::<Song>(s)[k] == v;
                assert(views::<Song>(s) == views::<Song>(s.drop_last()).push(Song::of_entry(s.last())));
                assert(k < views::<Song>(s.drop_last()).len());
                assert(views::<Song>(s.drop_last())[k] == v);
            }
            lemma_views_member(s.drop_last(), v);
            let k = choose|k: int| 0 <= k < s.drop_last().len() && Song::of_entry(#[trigger] s.drop_last()[k]) == v;
            assert(s[k] == s.drop_last()[k]);
        }
    }
}


/// Every song played in `s` has one duration in `durs` (no song is listed twice),
/// and each duration is a valid duration.
pub open spec fn is_dataset(s: Seq<SongEntry>, durs: Seq<(Song, i64)>) -> bool {
    &&& strictly_sorted(s)
    &&& entries_in_range(s)
    &&& durations_cover(durs, s)
}

/// The durations computed from `s` cover `s`.
proof fn lemma_durations_cover(durs: Seq<(Song, i64)>, s: Seq<SongEntry>)
    requires
        are_song_durations(durs, s),
        entries_in_range(s),
    ensures
        durations_cover(durs, s),
{
    lemma_distinct_facts(views::<Song>(s));
    assert forall|i: int| 0 <= i < s.len() implies listed(durs, Song::of_entry(#[trigger] s[i])) by {
        lemma_views_index(s, i);
        let v = Song::of_entry(s[i]);
        assert(views::<Song>(s).contains(v));
        assert(distinct(views::<Song>(s)).contains(v));
        let j = choose|j: int| 0 <= j < distinct(views::<Song>(s)).len() && distinct(views::<Song>(s))[j] == v;
        assert(durs[j].0@ == v);
    }
    assert forall|j: int| 0 <= j < durs.len() implies -i64::MAX <= #[trigger] durs[j].1 by {
        assert(is_song_duration(s, durs[j].0@, durs[j].1 as int));
        lemma_playtime_witness(s, durs[j].0@, durs[j].1 as int);
        let k = choose|k: int| 0 <= k < s.len() && Song::of_entry(#[trigger] s[k]) == durs[j].0@ && s[k].time_played == durs[j].1;
        assert(-TIMESTAMP_LIMIT < s[k].timestamp < TIMESTAMP_LIMIT);
    }
}

/// The song of the `i`-th entry is the `i`-th element of the songs of `s`.
proof fn lemma_views_index(s: Seq<SongEntry>, i: int)
    requires
        0 <= i < s.len(),
    ensures
        views::<Song>(s).len() == s.len(),
        views::<Song>(s)[i] == Song::of_entry(s[i]),
    decreases s.len(),
{
    gather::lemma_views_len::<Song>(s.drop_last());
    if i < s.len() - 1 {
        lemma_views_index(s.drop_last(), i);
        assert(s.drop_last()[i] == s[i]);
    }
}

/// The whole dataset: all song entries, sorted by timestamp, with the
/// duration of every song.
pub struct SongEntries {
    /// The song entries, strictly sorted by timestamp
    entries: Vec<SongEntry>,
    /// Every song of the dataset with its duration
    durations: Vec<(Song, i64)>,
}

impl View for SongEntries {
    type V = Seq<SongEntry>;

    closed spec fn view(&self) -> Seq<SongEntry> {
        self.entries@
    }
}

impl SongEntries {
    /// The songs of the dataset with their durations.
    pub closed spec fn durations_view(&self) -> Seq<(Song, i64)> {
        self.durations@
    }

    /// The dataset is sorted, in range, and knows the duration of each of its songs.
    pub open spec fn wf(&self) -> bool {
        is_dataset(self@, self.durations_view())
    }

    /// Creates the dataset from song entries that are strictly sorted by timestamp,
    /// computing the durations of all songs.
    pub(crate) fn from_sorted(entries: Vec<SongEntry>) -> (r: SongEntries)
        requires
            strictly_sorted(entries@),
            entries_in_range(entries@),
        ensures
            r@ == entries@,
            are_song_durations(r.durations_view(), r@),
            r.wf(),
    {
        let durations = song_durations(entries.as_slice());
        proof {
            lemma_durations_cover(durations@, entries@);
        }
        SongEntries { entries, durations }
    }

    /// Creates the dataset from the entries of `endsong.json` files (all
    /// files' entries, in order), computing the durations of all songs.
    /// See [`parse`][crate::parse::parse] for which entries count, and when it fails.
    pub fn new(raw: &[RawEntry]) -> (r: Result<SongEntries, EntryError>)
        ensures
            match r {
                Ok(d) => {
                    &&& d.wf()
                    &&& entries_parsed(raw@, parsed_stamps(raw@), d@)
                    &&& are_song_durations(d.durations_view(), d@)
                },
                Err(e) => first_error(raw@, parsed_stamps(raw@), e),
            },
    {
        match parse(raw) {
            Ok(entries) => Ok(SongEntries::from_sorted(entries)),
            Err(e) => Err(e),
        }
    }

    /// The song entries, sorted by timestamp.
    pub fn entries(&self) -> (r: &[SongEntry])
        ensures
            r@ == self@,
    {
        self.entries.as_slice()
    }

    /// Every song of the dataset with its duration, in milliseconds.
    pub fn durations(&self) -> (r: &[(Song, i64)])
        ensures
            r@ == self.durations_view(),
    {
        self.durations.as_slice()
    }

    /// The number of song entries.
    pub fn len(&self) -> (r: usize)
        ensures
            r == self@.len(),
    {
        self.entries.len()
    }

    /// Returns the date of the first (time-wise) song entry.
    pub fn first_date(&self) -> (r: i64)
        requires
            self@.len() > 0,
        ensures
            r == self@[0].timestamp,
            self.wf() ==> forall|i: int| 0 <= i < self@.len() ==> r <= #[trigger] self@[i].timestamp,
    {
        self.entries[0].timestamp
    }

    /// Returns the date of the last (time-wise) song entry.
    pub fn last_date(&self) -> (r: i64)
        requires
            self@.len() > 0,
        ensures
            r == self@.last().timestamp,
            self.wf() ==> forall|i: int| 0 <= i < self@.len() ==> #[trigger] self@[i].timestamp <= r,
    {
        self.entries[self.entries.len() - 1].timestamp
    }

    /// Returns the entries between the given dates (inclusive); the start
    /// has to be before the end.
    ///
    /// Uses binary search to find the entries closest to the given dates.
    /// When no entry is at or after `start`, the last entry is returned;
    /// when no entry is at or before `end`, the first one.
    pub fn between<'a>(&'a self, start: i64, end: i64) -> (r: &'a [SongEntry])
        requires
            self.wf(),
            self@.len() > 0,
            start < end,
        ensures
            0 <= between_bounds(self@, start as int, end as int).0 <= between_bounds(self@, start as int, end as int).1 <= self@.len(),
            r@ == self@.subrange(between_bounds(self@, start as int, end as int).0, between_bounds(self@, start as int, end as int).1),
            count_before(self@, start as int) < self@.len() && count_before(self@, end + 1) > 0 ==> {
                forall|i: int| 0 <= i < self@.len() ==> (between_bounds(self@, start as int, end as int).0 <= i < between_bounds(self@, start as int, end as int).1
                    <==> start <= #[trigger] self@[i].timestamp <= end)
            },
    {
        let lb = partition_point(self.entries.as_slice(), start as i128);
        let ub = partition_point(self.entries.as_slice(), end as i128 + 1);
        proof {
            lemma_count_before_index(self@, start as int);
            lemma_count_before_index(self@, end + 1);
            lemma_count_before_monotone(self@, start as int, end + 1);
        }
        let begin = if lb < self.entries.len() { lb } else { self.entries.len() - 1 };
        let stop = if ub > 0 { ub - 1 } else { 0 };
        slice_subrange(self.entries.as_slice(), begin, stop + 1)
    }
}

/// The entries between the first and the last date of a dataset are all of its entries.
pub proof fn lemma_between_whole(s: Seq<SongEntry>)
    requires
        strictly_sorted(s),
        s.len() > 0,
    ensures
        between_bounds(s, s[0].timestamp as int, s.last().timestamp as int) == (0int, s.len() as int),
{
    lemma_count_before_index(s, s[0].timestamp as int);
    lemma_count_before_index(s, s.last().timestamp + 1);
    if count_before(s, s[0].timestamp as int) > 0 {
        assert(s[0].timestamp < s[0].timestamp);
    }
    if count_before(s, s.last().timestamp + 1) < s.len() {
        let k = count_before(s, s.last().timestamp + 1) as int;
        assert(!(s[k].timestamp < s.last().timestamp + 1));
        if k < s.len() - 1 {
            assert(s[k].timestamp < s[s.len() - 1].timestamp);
        }
    }
}

/// The number of entries of `s` with a timestamp before `t`.
pub open spec fn count_before(s: Seq<SongEntry>, t: int) -> nat
    decreases s.len(),
{
    if s.len() == 0 {
        0
    } else {
        count_before(s.drop_last(), t) + if s.last().timestamp < t { 1nat } else { 0nat }
    }
}

/// Where the entries between `start` and `end` begin and end (exclusive) in `s`:
/// from the first entry at or after `start` (the last entry if there is none)
/// to the last entry at or before `end` (the first entry if there is none).
pub open spec fn between_bounds(s: Seq<SongEntry>, start: int, end: int) -> (int, int) {
    let lb = count_before(s, start);
    let ub = count_before(s, end + 1);
    let begin = if lb < s.len() { lb as int } else { s.len() - 1 };
    let stop = if ub > 0 { ub - 1 } else { 0 };
    (begin, stop + 1)
}

/// In sorted entries, the entries before `t` are exactly the first `count_before(s, t)`.
proof fn lemma_count_before_index(s: Seq<SongEntry>, t: int)
    requires
        strictly_sorted(s),
    ensures
        count_before(s, t) <= s.len(),
        forall|i: int| 0 <= i < s.len() ==> (i < count_before(s, t) <==> #[trigger] s[i].timestamp < t),
    decreases s.len(),
{
    if s.len() > 0 {
        let p = s.drop_last();
        lemma_count_before_index(p, t);
        assert forall|i: int| 0 <= i < s.len() implies (i < count_before(s, t) <==> #[trigger] s[i].timestamp < t) by {
            if i < s.len() - 1 {
                assert(p[i] == s[i]);
                assert(s[i].timestamp < s[s.len() - 1].timestamp);
            } else {
                if p.len() > 0 {
                    assert(p[p.len() - 1] == s[s.len() - 2]);
                    assert(s[s.len() - 2].timestamp < s[s.len() - 1].timestamp);
                }
            }
        }
    }
}

/// Fewer entries lie before an earlier time.
proof fn lemma_count_before_monotone(s: Seq<SongEntry>, t1: int, t2: int)
    requires
        t1 <= t2,
    ensures
        count_before(s, t1) <= count_before(s, t2),
    decreases s.len(),
{
    if s.len() > 0 {
        lemma_count_before_monotone(s.drop_last(), t1, t2);
    }
}

/// The number of entries with a timestamp before `t`, found by binary search.
fn partition_point(entries: &[SongEntry], t: i128) -> (r: usize)
    requires
        strictly_sorted(entries@),
    ensures
        r == count_before(entries@, t as int),
{
    let mut lo: usize = 0;
    let mut hi: usize = entries.len();
    while lo < hi
        invariant
            lo <= hi <= entries@.len(),
            strictly_sorted(entries@),
            forall|i: int| 0 <= i < lo ==> #[trigger] entries@[i].timestamp < t,
            forall|i: int| hi <= i < entries@.len() ==> #[trigger] entries@[i].timestamp >= t,
        decreases hi - lo,
    {
        let mid = lo + (hi - lo) / 2;
        if (entries[mid].timestamp as i128) < t {
            assert forall|i: int| 0 <= i < mid + 1 implies #[trigger] entries@[i].timestamp < t by {
                if i < mid {
                    assert(entries@[i].timestamp < entries@[mid as int].timestamp);
                }
            }
            lo = mid + 1;
        } else {
            assert forall|i: int| mid <= i < entries@.len() implies #[trigger] entries@[i].timestamp >= t by {
                if i > mid {
                    assert(entries@[mid as int].timestamp < entries@[i].timestamp);
                }
            }
            hi = mid;
        }
    }
    proof {
        lemma_count_before_index(entries@, t as int);
        if count_before(entries@, t as int) < lo {
            let c = count_before(entries@, t as int) as int;
            assert(entries@[c].timestamp < t);
        }
        if count_before(entries@, t as int) > lo {
            assert(entries@[lo as int].timestamp < t);
        }
    }
    lo
}


/// The span of the windows that [`SongEntries::max_listening_time`] compares:
/// the requested one, but at least a day.
pub open spec fn actual_span(span: int) -> int {
    if span < 86_400_000 {
        86_400_000
    } else {
        span
    }
}

/// The start of the `k`-th window: `k` days after the first entry of `s`.
pub open spec fn window_start(s: Seq<SongEntry>, k: int) -> int {
    s[0].timestamp + k * 86_400_000
}

/// The `k`-th window of length `span` ends at or before the last entry of `s`.
pub open spec fn window_in(s: Seq<SongEntry>, span: int, k: int) -> bool {
    0 <= k && window_start(s, k) + span <= s.last().timestamp
}

/// The listening time of the entries between `start` and `end`, as
/// [`SongEntries::between`] returns them.
pub open spec fn window_time(s: Seq<SongEntry>, start: int, end: int) -> int {
    total_time(s.subrange(between_bounds(s, start, end).0, between_bounds(s, start, end).1))
}

/// The listening time of the entries between `start` and `end` can be summed
/// without leaving the range of a duration.
pub open spec fn window_fits(s: Seq<SongEntry>, start: int, end: int) -> bool {
    time_sums_fit(s.subrange(between_bounds(s, start, end).0, between_bounds(s, start, end).1))
}

/// Every listening time that [`SongEntries::max_listening_time`] sums for `span` can be summed.
pub open spec fn max_time_fits(s: Seq<SongEntry>, span: int) -> bool {
    if actual_span(span) >= s.last().timestamp - s[0].timestamp {
        time_sums_fit(s)
    } else {
        forall|k: int| window_in(s, actual_span(span), k)
            ==> #[trigger] window_fits(s, window_start(s, k), window_start(s, k) + actual_span(span))
    }
}

/// `r` is the listening time, start and end of the period of length `span`
/// (at least a day, starting a whole number of days after the first entry)
/// with the most listening time; the earliest such period, or the very first
/// window when no period has a positive listening time. A span (at least a
/// day) covering the whole dataset gives the whole dataset.
pub open spec fn is_max_listening(s: Seq<SongEntry>, span: int, r: (i64, i64, i64)) -> bool {
    let first = s[0].timestamp;
    let last = s.last().timestamp;
    let a = actual_span(span);
    if a >= last - first {
        r.0 == total_time(s) && r.1 == first && r.2 == last
    } else {
        &&& r.0 >= 0
        &&& r.2 == r.1 + a
        &&& forall|k: int| window_in(s, a as int, k) ==> #[trigger] window_time(s, window_start(s, k), window_start(s, k) + a) <= r.0
        &&& r.0 == 0 ==> r.1 == first
        &&& r.0 > 0 ==> exists|k: int| {
            &&& window_in(s, a as int, k)
            &&& r.1 == window_start(s, k)
            &&& #[trigger] window_time(s, window_start(s, k), window_start(s, k) + a) == r.0
            &&& forall|j: int| 0 <= j < k ==> #[trigger] window_time(s, window_start(s, j), window_start(s, j) + a) < r.0
        }
    }
}

impl SongEntries {
    /// Compares the listening times of all windows of length `a`, or returns
    /// `None` when one of them cannot be summed.
    fn best_window(&self, a: i64, Ghost(span): Ghost<int>) -> (r: Option<(i64, i64, i64)>)
        requires
            self.wf(),
            self@.len() > 0,
            actual_span(span) < self@.last().timestamp - self@[0].timestamp,
            a == actual_span(span),
        ensures
            r is Some <==> max_time_fits(self@, span),
            r matches Some(t) ==> is_max_listening(self@, span, t),
    {
        let ghost s = self@;
        let first = self.first_date();
        let last = self.last_date();
        let mut highest: i64 = 0;
        let mut start_max: i64 = first;
        let mut start: i64 = first;
        let mut end: i64 = first + a;
        let ghost mut k: int = 0;
        while end <= last
            invariant
                self.wf(),
                s == self@,
                s.len() > 0,
                first == s[0].timestamp,
                last == s.last().timestamp,
                a == actual_span(span),
                a < last - first,
                -TIMESTAMP_LIMIT < first < TIMESTAMP_LIMIT,
                -TIMESTAMP_LIMIT < last < TIMESTAMP_LIMIT,
                k >= 0,
                start == window_start(s, k),
                end == start + a,
                end <= last + 86_400_000,
                forall|j: int| 0 <= j < k ==> window_in(s, a as int, j),
                forall|j: int| 0 <= j < k ==> #[trigger] window_fits(s, window_start(s, j), window_start(s, j) + a),
                highest >= 0,
                forall|j: int| 0 <= j < k ==> #[trigger] window_time(s, window_start(s, j), window_start(s, j) + a) <= highest,
                highest == 0 ==> start_max == first,
                highest > 0 ==> exists|j: int| {
                    &&& 0 <= j < k
                    &&& start_max == window_start(s, j)
                    &&& #[trigger] window_time(s, window_start(s, j), window_start(s, j) + a) == highest
                    &&& forall|i: int| 0 <= i < j ==> #[trigger] window_time(s, window_start(s, i), window_start(s, i) + a) < highest
                },
            decreases last + 86_400_000 - end,
        {
            let win = self.between(start, end);
            match listening_time_checked(win) {
                None => {
                    assert(window_in(s, a as int, k));
                    assert(!window_fits(s, window_start(s, k), window_start(s, k) + a));
                    return None;
                },
                Some(current) => {
                    assert(win@.take(win@.len() as int) =~= win@);
                    assert(-i64::MAX <= total_time(win@.take(win@.len() as int)) <= i64::MAX);
                    assert(window_time(s, window_start(s, k), window_start(s, k) + a) == current);
                    if current > highest {
                        highest = current;
                        start_max = start;
                    }
                },
            }
            start = start + DAY_MS;
            end = end + DAY_MS;
            proof {
                k = k + 1;
            }
        }
        proof {
            assert forall|j: int| window_in(s, a as int, j) implies 0 <= j < k by {
                if j >= k {
                    assert(window_start(s, j) >= window_start(s, k));
                }
            }
        }
        Some((highest, start_max, start_max + a))
    }

    /// Finds the period of length `time_span` (in milliseconds) with the most
    /// listening time.
    ///
    /// Returns the listening time with the start and end of that period. The
    /// span is at least one day; a span (so counted) at least as long as the
    /// whole dataset gives the whole dataset. Periods start a whole number of days after the
    /// first entry.
    pub fn max_listening_time(&self, time_span: i64) -> (r: (i64, i64, i64))
        requires
            self.wf(),
            self@.len() > 0,
            max_time_fits(self@, time_span as int),
        ensures
            is_max_listening(self@, time_span as int, r),
    {
        let first = self.first_date();
        let last = self.last_date();
        let a = if time_span < DAY_MS { DAY_MS } else { time_span };
        if a as i128 >= last as i128 - first as i128 {
            return (listening_time(self.entries()), first, last);
        }
        self.best_window(a, Ghost(time_span as int)).unwrap()
    }

    /// Whether [`SongEntries::max_listening_time`] can sum every listening
    /// time it compares for `time_span`.
    pub fn max_listening_time_fits(&self, time_span: i64) -> (r: bool)
        requires
            self.wf(),
            self@.len() > 0,
        ensures
            r == max_time_fits(self@, time_span as int),
    {
        let first = self.first_date();
        let last = self.last_date();
        let a = if time_span < DAY_MS { DAY_MS } else { time_span };
        if a as i128 >= last as i128 - first as i128 {
            return listening_time_checked(self.entries()).is_some();
        }
        self.best_window(a, Ghost(time_span as int)).is_some()
    }
}


/// `e` has been played for at least `percent`% of the duration of its song
/// (as listed in `durs`) and for at least `absolute` milliseconds.
pub open spec fn passes_filter(e: SongEntry, durs: Seq<(Song, i64)>, percent: int, absolute: int) -> bool {
    &&& 100 * e.time_played >= duration_in(durs, Song::of_entry(e)) * percent
    &&& e.time_played >= absolute
}

/// The entries of `s` that pass the filter, in order.
pub open spec fn filtered(s: Seq<SongEntry>, durs: Seq<(Song, i64)>, percent: int, absolute: int) -> Seq<SongEntry>
    decreases s.len(),
{
    if s.len() == 0 {
        seq![]
    } else if passes_filter(s.last(), durs, percent, absolute) {
        filtered(s.drop_last(), durs, percent, absolute).push(s.last())
    } else {
        filtered(s.drop_last(), durs, percent, absolute)
    }
}

/// Filtering keeps exactly the entries that were played for at least
/// `absolute` milliseconds and for at least `percent`% of their song's
/// duration, and no more entries than there were.
pub proof fn lemma_filter_keeps(s: Seq<SongEntry>, durs: Seq<(Song, i64)>, percent: int, absolute: int)
    ensures
        filtered(s, durs, percent, absolute).len() <= s.len(),
        forall|e: SongEntry| #[trigger] filtered(s, durs, percent, absolute).contains(e) <==> {
            &&& s.contains(e)
            &&& e.time_played >= absolute
            &&& 100 * e.time_played >= duration_in(durs, Song::of_entry(e)) * percent
        },
    decreases s.len(),
{
    if s.len() > 0 {
        let p = s.drop_last();
        lemma_filter_keeps(p, durs, percent, absolute);
        let f = filtered(s, durs, percent, absolute);
        let fp = filtered(p, durs, percent, absolute);
        assert forall|e: SongEntry| #[trigger] f.contains(e) <==> {
            &&& s.contains(e)
            &&& e.time_played >= absolute
            &&& 100 * e.time_played >= duration_in(durs, Song::of_entry(e)) * percent
        } by {
            if s.contains(e) {
                let k = choose|k: int| 0 <= k < s.len() && s[k] == e;
                if k < s.len() - 1 {
                    assert(p[k] == e);
                }
            }
            if p.contains(e) {
                let k = choose|k: int| 0 <= k < p.len() && p[k] == e;
                assert(s[k] == e);
            }
            if passes_filter(s.last(), durs, percent, absolute) {
                assert(f == fp.push(s.last()));
                if fp.contains(e) {
                    let k = choose|k: int| 0 <= k < fp.len() && fp[k] == e;
                    assert(f[k] == e);
                }
                if f.contains(e) && e != s.last() {
                    let k = choose|k: int| 0 <= k < f.len() && f[k] == e;
                    assert(fp[k] == e);
                }
                assert(f[f.len() - 1] == s.last());
            }
        }
    }
}

/// Each entry of `r` is an entry of `s`.
pub open spec fn entries_within(r: Seq<SongEntry>, s: Seq<SongEntry>) -> bool {
    forall|m: int| 0 <= m < r.len() ==> exists|j: int| 0 <= j < s.len() && #[trigger] r[m] == #[trigger] s[j]
}

/// Taking some entries of a dataset keeps them in range and their durations known.
proof fn lemma_within_dataset(r: Seq<SongEntry>, s: Seq<SongEntry>, durs: Seq<(Song, i64)>)
    requires
        entries_within(r, s),
        entries_in_range(s),
        durations_cover(durs, s),
    ensures
        entries_in_range(r),
        durations_cover(durs, r),
{
    assert forall|m: int| 0 <= m < r.len() implies listed(durs, Song::of_entry(#[trigger] r[m])) by {
        let j = choose|j: int| 0 <= j < s.len() && r[m] == s[j];
        assert(Song::of_entry(s[j]) == Song::of_entry(r[m]));
        assert(listed(durs, Song::of_entry(s[j])));
    }
    assert forall|m: int| 0 <= m < r.len() implies {
        &&& -TIMESTAMP_LIMIT < #[trigger] r[m].timestamp < TIMESTAMP_LIMIT
        &&& -i64::MAX <= r[m].time_played
    } by {
        let j = choose|j: int| 0 <= j < s.len() && r[m] == s[j];
        assert(-TIMESTAMP_LIMIT < s[j].timestamp < TIMESTAMP_LIMIT);
    }
}

/// In a list without repeated songs, the duration listed for the song at `j` is its duration.
proof fn lemma_duration_in_index(durs: Seq<(Song, i64)>, j: int)
    requires
        0 <= j < durs.len(),
        forall|a: int, b: int| 0 <= a < b < durs.len() ==> #[trigger] durs[a].0@ != #[trigger] durs[b].0@,
    ensures
        duration_in(durs, durs[j].0@) == durs[j].1,
    decreases durs.len(),
{
    if j < durs.len() - 1 {
        let p = durs.drop_last();
        assert(durs[j].0@ != durs[durs.len() - 1].0@);
        assert(p[j] == durs[j]);
        lemma_duration_in_index(p, j);
    }
}

impl SongEntries {
    /// Returns the length of `song`, which has to be played in the dataset:
    /// its most common playtime, and the longest of the equally most common
    /// ones (see [`song_length_in`]).
    pub fn song_length(&self, song: &Song) -> (r: i64)
        requires
            exists|k: int| 0 <= k < self@.len() && Song::of_entry(#[trigger] self@[k]) == song@,
        ensures
            is_song_duration(self@, song@, r as int),
    {
        song_length_in(self.entries.as_slice(), song)
    }

    /// Returns the duration of `song` (in milliseconds), if it is in the dataset.
    pub fn duration_of(&self, song: &Song) -> (r: Option<i64>)
        requires
            self.wf(),
        ensures
            r is Some <==> exists|j: int| 0 <= j < self.durations_view().len() && #[trigger] self.durations_view()[j].0@ == song@,
            r matches Some(d) ==> d == duration_in(self.durations_view(), song@),
    {
        let mut j: usize = 0;
        while j < self.durations.len()
            invariant
                self.wf(),
                j <= self.durations@.len(),
                forall|k: int| 0 <= k < j ==> #[trigger] self.durations@[k].0@ != song@,
            decreases self.durations@.len() - j,
        {
            if self.durations[j].0.same_as(song) {
                proof {
                    lemma_duration_in_index(self.durations@, j as int);
                    assert(self.durations_view()[j as int].0@ == song@);
                }
                return Some(self.durations[j].1);
            }
            j = j + 1;
        }
        None
    }

    /// Filters out song entries that have been played for less than
    /// `percent_threshold`% of their song's duration (a value from 0 to 100;
    /// 30 is a good default) or for less than `absolute_threshold` milliseconds
    /// (10 seconds is a good default).
    ///
    /// The durations of the songs stay those of the unfiltered dataset.
    pub fn filter(self, percent_threshold: i32, absolute_threshold: i64) -> (r: SongEntries)
        requires
            self.wf(),
            0 <= percent_threshold <= 100,
        ensures
            r.wf(),
            r@ == filtered(self@, self.durations_view(), percent_threshold as int, absolute_threshold as int),
            r.durations_view() == self.durations_view(),
    {
        let ghost s = self@;
        let ghost durs = self.durations_view();
        let mut kept: Vec<SongEntry> = Vec::new();
        let mut i: usize = 0;
        while i < self.entries.len()
            invariant
                self.wf(),
                s == self@,
                durs == self.durations_view(),
                0 <= percent_threshold <= 100,
                i <= s.len(),
                kept@ == filtered(s.take(i as int), durs, percent_threshold as int, absolute_threshold as int),
                strictly_sorted(kept@),
                forall|m: int| 0 <= m < kept@.len() ==> exists|j: int| 0 <= j < i && #[trigger] kept@[m] == #[trigger] s[j],
            decreases s.len() - i,
        {
            proof {
                lemma_take_last(s, i as int);
            }
            let e = &self.entries[i];
            let song = Song::from_entry(e);
            let found = self.duration_of(&song);
            proof {
                assert(listed(durs, Song::of_entry(s[i as int])));
                let j = choose|j: int| 0 <= j < durs.len() && #[trigger] durs[j].0@ == Song::of_entry(s[i as int]);
                assert(durs[j].0@ == song@);
            }
            let d = found.unwrap();
            let t = e.time_played;
            assert((d as i128) * (percent_threshold as i128) <= 100 * 9223372036854775807i128
                && (d as i128) * (percent_threshold as i128) >= -100 * 9223372036854775808i128) by (nonlinear_arith)
                requires
                    0 <= percent_threshold <= 100,
                    -9223372036854775808i128 <= d as i128 <= 9223372036854775807i128,
            ;
            if 100 * (t as i128) >= (d as i128) * (percent_threshold as i128) && t >= absolute_threshold {
                proof {
                    assert forall|m: int| 0 <= m < kept@.len() implies #[trigger] kept@[m].timestamp < s[i as int].timestamp by {
                        let j = choose|j: int| 0 <= j < i && kept@[m] == s[j];
                        assert(s[j].timestamp < s[i as int].timestamp);
                    }
                }
                kept.push(e.duplicate());
                proof {
                    assert forall|m: int| 0 <= m < kept@.len() implies exists|j: int| 0 <= j < i + 1 && #[trigger] kept@[m] == #[trigger] s[j] by {
                        if m == kept@.len() - 1 {
                            assert(kept@[m] == s[i as int]);
                        } else {
                            let j = choose|j: int| 0 <= j < i && kept@[m] == s[j];
                            assert(kept@[m] == s[j]);
                        }
                    }
                }
            }
            i = i + 1;
        }
        assert(s.take(s.len() as int) == s);
        proof {
            assert(entries_within(kept@, s)) by {
                assert forall|m: int| 0 <= m < kept@.len() implies exists|j: int| 0 <= j < s.len() && #[trigger] kept@[m] == #[trigger] s[j] by {
                    let j = choose|j: int| 0 <= j < i && kept@[m] == s[j];
                    assert(kept@[m] == s[j]);
                }
            }
            lemma_within_dataset(kept@, s, durs);
        }
        SongEntries { entries: kept, durations: self.durations }
    }
}


/// The album names of the entries of `s` by the artist called `artist`, in order.
pub open spec fn album_names_of(s: Seq<SongEntry>, artist: Seq<char>) -> Seq<Seq<char>>
    decreases s.len(),
{
    if s.len() == 0 {
        seq![]
    } else if s.last().artist@ == artist {
        album_names_of(s.drop_last(), artist).push(s.last().album@)
    } else {
        album_names_of(s.drop_last(), artist)
    }
}

/// The track names of the entries of `s` that are plays of `aspect`, in order.
pub open spec fn track_names_of<A: Music>(s: Seq<SongEntry>, aspect: A::V) -> Seq<Seq<char>>
    decreases s.len(),
{
    if s.len() == 0 {
        seq![]
    } else if A::of_entry(s.last()) == aspect {
        track_names_of::<A>(s.drop_last(), aspect).push(s.last().track@)
    } else {
        track_names_of::<A>(s.drop_last(), aspect)
    }
}

/// The strings of `v` are the names `names`.
pub open spec fn names_are(v: Seq<String>, names: Seq<Seq<char>>) -> bool {
    &&& v.len() == names.len()
    &&& forall|i: int| 0 <= i < v.len() ==> #[trigger] v[i]@ == names[i]
}

/// Adds `name` to the distinct names `found` unless it is already there.
fn add_name(found: &mut Vec<String>, name: &String, Ghost(prev): Ghost<Seq<Seq<char>>>)
    requires
        names_are(old(found)@, distinct(prev)),
    ensures
        names_are(final(found)@, distinct(prev.push(name@))),
{
    proof {
        lemma_distinct_facts(prev);
        assert(prev.push(name@).drop_last() == prev);
    }
    let mut j: usize = 0;
    while j < found.len()
        invariant
            j <= found@.len(),
            names_are(found@, distinct(prev)),
            forall|k: int| 0 <= k < j ==> #[trigger] found@[k]@ != name@,
        decreases found@.len() - j,
    {
        if found[j] == *name {
            assert(distinct(prev)[j as int] == name@);
            assert(distinct(prev).contains(name@));
            assert(prev.push(name@).drop_last() == prev);
            assert(distinct(prev.push(name@)) == distinct(prev));
            return;
        }
        j = j + 1;
    }
    assert(!distinct(prev).contains(name@)) by {
        if distinct(prev).contains(name@) {
            let k = choose|k: int| 0 <= k < distinct(prev).len() && distinct(prev)[k] == name@;
            assert(found@[k]@ == name@);
        }
    }
    found.push(name.clone());
}

impl SongEntries {
    /// Returns the names of all artists in the dataset, in the order of their first play.
    pub fn artists(&self) -> (r: Vec<String>)
        ensures
            names_are(r@, distinct(views::<Artist>(self@))),
    {
        let ghost s = self@;
        let mut found: Vec<String> = Vec::new();
        let mut i: usize = 0;
        while i < self.entries.len()
            invariant
                s == self@,
                i <= s.len(),
                names_are(found@, distinct(views::<Artist>(s.take(i as int)))),
            decreases s.len() - i,
        {
            proof {
                lemma_take_last(s, i as int);
            }
            add_name(&mut found, &self.entries[i].artist, Ghost(views::<Artist>(s.take(i as int))));
            i = i + 1;
        }
        assert(s.take(s.len() as int) == s);
        found
    }

    /// Returns the names of the albums of `artist`, in the order of their first play.
    pub fn albums(&self, artist: &Artist) -> (r: Vec<String>)
        ensures
            names_are(r@, distinct(album_names_of(self@, artist@))),
    {
        let ghost s = self@;
        let mut found: Vec<String> = Vec::new();
        let mut i: usize = 0;
        while i < self.entries.len()
            invariant
                s == self@,
                i <= s.len(),
                names_are(found@, distinct(album_names_of(s.take(i as int), artist@))),
            decreases s.len() - i,
        {
            proof {
                lemma_take_last(s, i as int);
            }
            if artist.is_entry(&self.entries[i]) {
                add_name(&mut found, &self.entries[i].album, Ghost(album_names_of(s.take(i as int), artist@)));
            }
            i = i + 1;
        }
        assert(s.take(s.len() as int) == s);
        found
    }

    /// Returns the names of the songs of `aspect` (an artist or an album),
    /// in the order of their first play.
    pub fn songs<Asp: HasSongs>(&self, aspect: &Asp) -> (r: Vec<String>)
        ensures
            names_are(r@, distinct(track_names_of::<Asp>(self@, aspect@))),
    {
        let ghost s = self@;
        let mut found: Vec<String> = Vec::new();
        let mut i: usize = 0;
        while i < self.entries.len()
            invariant
                s == self@,
                i <= s.len(),
                names_are(found@, distinct(track_names_of::<Asp>(s.take(i as int), aspect@))),
            decreases s.len() - i,
        {
            proof {
                lemma_take_last(s, i as int);
            }
            if aspect.is_entry(&self.entries[i]) {
                add_name(&mut found, &self.entries[i].track, Ghost(track_names_of::<Asp>(s.take(i as int), aspect@)));
            }
            i = i + 1;
        }
        assert(s.take(s.len() as int) == s);
        found
    }

    /// Counts up the plays of all aspects in a collection.
    pub fn gather_plays_of_many<Asp: Music>(&self, aspects: &[Asp]) -> (r: usize)
        ensures
            r == plays_of_any::<Asp>(self@, aspect_views(aspects@)),
    {
        gather::plays_of_many(self.entries.as_slice(), aspects)
    }

    /// Adds search capability: see [`Find`].
    pub fn find(&self) -> (r: Find<'_>)
        ensures
            r.0@ == self@,
    {
        Find(self)
    }
}

/// Searches a dataset for valid artist, album or song names
/// (created with [`SongEntries::find`]).
pub struct Find<'a>(pub &'a SongEntries);

impl<'a> Find<'a> {
    /// Searches the entries for artists called `artist_name`, ignoring case.
    /// See [`find::artist`].
    pub fn artist(&self, artist_name: &str) -> (r: Option<Vec<Artist>>)
        ensures
            find::search_result(r, distinct(find::views_matching::<Artist>(self.0@, artist_name@))),
    {
        find::artist(self.0.entries(), artist_name)
    }

    /// Searches the entries for albums called `album_name` by `artist_name`,
    /// ignoring case. See [`find::album`].
    pub fn album(&self, album_name: &str, artist_name: &str) -> (r: Option<Vec<Album>>)
        ensures
            find::search_result(r, distinct(find::views_matching::<Album>(self.0@, (album_name@, artist_name@)))),
    {
        find::album(self.0.entries(), album_name, artist_name)
    }

    /// Searches the entries for songs called `song_name` in the album
    /// `album_name` by `artist_name`, ignoring case. See [`find::song_from_album`].
    pub fn song_from_album(&self, song_name: &str, album_name: &str, artist_name: &str) -> (r: Option<Vec<Song>>)
        ensures
            find::search_result(r, distinct(find::views_matching::<Song>(self.0@, (song_name@, album_name@, artist_name@)))),
    {
        find::song_from_album(self.0.entries(), song_name, album_name, artist_name)
    }

    /// Searches the dataset for every version of a song, one for every
    /// album it is in. See [`find::song`].
    pub fn song(&self, song_name: &str, artist_name: &str) -> (r: Option<Vec<Song>>)
        ensures
            find::search_result(r, distinct(find::song_versions(self.0@, song_name@, artist_name@))),
    {
        find::song(self.0.entries(), song_name, artist_name)
    }
}

} // verus!
