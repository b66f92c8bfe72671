//! Turning the entries of `endsong.json` files into [`SongEntry`]s.
//!
//! Reading and deserializing the files is left to the caller, who hands
//! over the entries of all files in order as [`RawEntry`]s. Podcast streams
//! are dropped, and of several streams with the same timestamp only the first
//! one counts.

use std::collections::HashSet;

use vstd::prelude::*;

use crate::entry::{entries_in_range, strictly_sorted, SongEntry, TIMESTAMP_LIMIT};

verus! {

broadcast use vstd::std_specs::hash::group_hash_axioms;

/// One entry of an `endsong.json` file: a song or podcast stream.
#[derive(Clone, Debug)]
pub struct RawEntry {
    /// Timestamp in RFC 3339 format, e.g. `"2016-07-21T01:02:07Z"`
    pub ts: String,
    /// Milliseconds the stream has been played for
    pub ms_played: i64,
    /// Name of the song (`None` for podcasts)
    pub master_metadata_track_name: Option<String>,
    /// Name of the artist (`None` for podcasts)
    pub master_metadata_album_artist_name: Option<String>,
    /// Name of the album (`None` for podcasts)
    pub master_metadata_album_album_name: Option<String>,
}

/// Why raw entries could not be turned into song entries.
#[derive(Clone, Copy, Debug, PartialEq, Eq)]
pub enum EntryError {
    /// The entry at this position has a timestamp that is not in RFC 3339 format
    InvalidTimestamp(usize),
    /// The song entry at this position has been played for `i64::MIN`
    /// milliseconds, which is no duration
    InvalidDuration(usize),
}

/// The milliseconds since the Unix epoch of an RFC 3339 timestamp, as chrono
/// parses it (`None` if it is not one).
pub uninterp spec fn rfc3339_millis(ts: Seq<char>) -> Option<i64>;

/// Parses an RFC 3339 timestamp into milliseconds since the Unix epoch.
///
/// Trusted: calls `chrono::DateTime::parse_from_rfc3339` and converts a
/// parsed date with `timestamp_millis`. The contract names that result, and
/// claims that a parsed timestamp lies within `TIMESTAMP_LIMIT` of the epoch:
/// chrono's RFC 3339 parser reads exactly four digits for the year and
/// offsets below a day, so every date it returns is within the years 0 to 9999.
#[verifier::external_body]
fn parse_rfc3339(ts: &str) -> (r: Option<i64>)
    ensures
        r == rfc3339_millis(ts@),
        r matches Some(t) ==> -TIMESTAMP_LIMIT < t < TIMESTAMP_LIMIT,
{
    match chrono::DateTime::parse_from_rfc3339(ts) {
        Ok(date) => Some(date.timestamp_millis()),
        Err(_) => None,
    }
}

/// Sorts song entries by timestamp.
///
/// Trusted: calls `slice::sort_unstable_by_key` with the timestamp as key,
/// which std documents as sorting the slice (reordering its elements) so
/// that the keys ascend.
#[verifier::external_body]
fn sort_by_timestamp(v: &mut Vec<SongEntry>)
    ensures
        final(v)@.to_multiset() == old(v)@.to_multiset(),
        forall|i: int, j: int| 0 <= i <= j < final(v)@.len() ==> #[trigger] final(v)@[i].timestamp <= #[trigger] final(v)@[j].timestamp,
{
    v.sort_unstable_by_key(|e| e.timestamp);
}

/// The entry is a song stream (podcast streams have no track, album and artist names).
pub open spec fn is_song(e: RawEntry) -> bool {
    &&& e.master_metadata_track_name is Some
    &&& e.master_metadata_album_album_name is Some
    &&& e.master_metadata_album_artist_name is Some
}

/// No entry before the `i`-th one has the same timestamp.
pub open spec fn first_with_timestamp(stamps: Seq<Option<i64>>, i: int) -> bool {
    forall|j: int| 0 <= j < i ==> #[trigger] stamps[j] != stamps[i]
}

/// The song entry that the song stream `e` with timestamp `t` gives.
pub open spec fn song_entry_of(e: RawEntry, t: i64) -> SongEntry {
    SongEntry {
        timestamp: t,
        time_played: e.ms_played,
        track: e.master_metadata_track_name.unwrap(),
        album: e.master_metadata_album_album_name.unwrap(),
        artist: e.master_metadata_album_artist_name.unwrap(),
    }
}

/// The song entries that `raw` (with the timestamps `stamps`) gives, in
/// order: each song stream whose timestamp no earlier stream has.
pub open spec fn song_entries_of(raw: Seq<RawEntry>, stamps: Seq<Option<i64>>) -> Seq<SongEntry>
    decreases raw.len(),
{
    if raw.len() == 0 {
        seq![]
    } else {
        let i = raw.len() - 1;
        let before = song_entries_of(raw.drop_last(), stamps);
        if is_song(raw[i]) && first_with_timestamp(stamps, i) {
            before.push(song_entry_of(raw[i], stamps[i].unwrap()))
        } else {
            before
        }
    }
}

/// The `i`-th entry cannot be turned into a song entry: its timestamp is
/// invalid, or it is a song stream that counts and lasts `i64::MIN` milliseconds.
pub open spec fn fails_at(raw: Seq<RawEntry>, stamps: Seq<Option<i64>>, i: int) -> bool {
    ||| stamps[i] is None
    ||| is_song(raw[i]) && first_with_timestamp(stamps, i) && raw[i].ms_played == i64::MIN
}

/// The error for the `i`-th entry.
pub open spec fn error_at(stamps: Seq<Option<i64>>, i: int) -> EntryError {
    if stamps[i] is None {
        EntryError::InvalidTimestamp(i as usize)
    } else {
        EntryError::InvalidDuration(i as usize)
    }
}

/// `v` is what turning `raw` (with the timestamps `stamps`) into song
/// entries gives when no entry fails: the song entries sorted by timestamp.
pub open spec fn entries_parsed(raw: Seq<RawEntry>, stamps: Seq<Option<i64>>, v: Seq<SongEntry>) -> bool {
    &&& forall|i: int| 0 <= i < raw.len() ==> !#[trigger] fails_at(raw, stamps, i)
    &&& strictly_sorted(v)
    &&& entries_in_range(v)
    &&& v.to_multiset() == song_entries_of(raw, stamps).to_multiset()
}

/// `e` is the error of the first entry of `raw` that fails.
pub open spec fn first_error(raw: Seq<RawEntry>, stamps: Seq<Option<i64>>, e: EntryError) -> bool {
    exists|i: int| {
        &&& 0 <= i < raw.len()
        &&& #[trigger] fails_at(raw, stamps, i)
        &&& forall|j: int| 0 <= j < i ==> !#[trigger] fails_at(raw, stamps, j)
        &&& e == error_at(stamps, i)
    }
}

/// `r` is what turning `raw` (with the timestamps `stamps`) into song entries
/// gives: the error of the first entry that fails, or else the song entries
/// sorted by timestamp.
pub open spec fn entries_result(raw: Seq<RawEntry>, stamps: Seq<Option<i64>>, r: Result<Vec<SongEntry>, EntryError>) -> bool {
    match r {
        Ok(v) => entries_parsed(raw, stamps, v@),
        Err(e) => first_error(raw, stamps, e),
    }
}

/// The timestamps of raw entries, as chrono parses them.
pub open spec fn parsed_stamps(raw: Seq<RawEntry>) -> Seq<Option<i64>> {
    Seq::new(raw.len(), |i: int| rfc3339_millis(raw[i].ts@))
}

/// Whether the timestamps of `v` ascend.
fn is_sorted(v: &Vec<SongEntry>) -> (r: bool)
    ensures
        r == forall|i: int, j: int| 0 <= i <= j < v@.len() ==> #[trigger] v@[i].timestamp <= #[trigger] v@[j].timestamp,
{
    let mut i: usize = 1;
    if v.len() == 0 {
        return true;
    }
    while i < v.len()
        invariant
            1 <= i <= v@.len(),
            forall|a: int, b: int| 0 <= a <= b < i ==> #[trigger] v@[a].timestamp <= #[trigger] v@[b].timestamp,
        decreases v@.len() - i,
    {
        if v[i].timestamp < v[i - 1].timestamp {
            return false;
        }
        i = i + 1;
    }
    true
}

/// Entries with pairwise different timestamps stay so when reordered.
proof fn lemma_permutation_keeps_stamps_apart(a: Seq<SongEntry>, b: Seq<SongEntry>)
    requires
        a.to_multiset() == b.to_multiset(),
        forall|i: int, j: int| 0 <= i < j < a.len() ==> #[trigger] a[i].timestamp != #[trigger] a[j].timestamp,
    ensures
        forall|i: int, j: int| 0 <= i < j < b.len() ==> #[trigger] b[i].timestamp != #[trigger] b[j].timestamp,
        forall|i: int| 0 <= i < b.len() ==> a.contains(#[trigger] b[i]),
{
    a.to_multiset_ensures();
    b.to_multiset_ensures();
    assert(a.no_duplicates()) by {
        assert forall|i: int, j: int| 0 <= i < a.len() && 0 <= j < a.len() && i != j implies a[i] != a[j] by {
            if i < j {
                assert(a[i].timestamp != a[j].timestamp);
            } else {
                assert(a[j].timestamp != a[i].timestamp);
            }
        }
    }
    a.lemma_multiset_has_no_duplicates();
    b.lemma_multiset_has_no_duplicates_conv();
    assert forall|i: int| 0 <= i < b.len() implies a.contains(#[trigger] b[i]) by {
        assert(b.contains(b[i]));
        assert(b.to_multiset().count(b[i]) > 0);
        assert(a.contains(b[i]));
    }
    assert forall|i: int, j: int| 0 <= i < j < b.len() implies #[trigger] b[i].timestamp != #[trigger] b[j].timestamp by {
        assert(b.contains(b[i]) && b.contains(b[j]));
        assert(b.to_multiset().count(b[i]) > 0 && b.to_multiset().count(b[j]) > 0);
        assert(a.contains(b[i]) && a.contains(b[j]));
        let x = choose|x: int| 0 <= x < a.len() && a[x] == b[i];
        let y = choose|y: int| 0 <= y < a.len() && a[y] == b[j];
        assert(b[i] != b[j]);
        if x < y {
            assert(a[x].timestamp != a[y].timestamp);
        } else if y < x {
            assert(a[y].timestamp != a[x].timestamp);
        }
    }
}

/// Turns raw entries with the given parsed timestamps into the song entries
/// they give, sorted by timestamp; or returns the error of the first entry
/// that fails.
pub fn song_entries_from(raw: &[RawEntry], stamps: &[Option<i64>]) -> (r: Result<Vec<SongEntry>, EntryError>)
    requires
        stamps@.len() == raw@.len(),
        forall|i: int| 0 <= i < stamps@.len() ==> (#[trigger] stamps@[i] matches Some(t) ==> -TIMESTAMP_LIMIT < t < TIMESTAMP_LIMIT),
    ensures
        entries_result(raw@, stamps@, r),
{
    let ghost st = stamps@;
    let mut seen: HashSet<i64> = HashSet::new();
    let mut out: Vec<SongEntry> = Vec::new();
    let mut i: usize = 0;
    while i < raw.len()
        invariant
            st == stamps@,
            st.len() == raw@.len(),
            forall|k: int| 0 <= k < st.len() ==> (#[trigger] st[k] matches Some(t) ==> -TIMESTAMP_LIMIT < t < TIMESTAMP_LIMIT),
            i <= raw@.len(),
            forall|k: int| 0 <= k < i ==> !#[trigger] fails_at(raw@, st, k),
            forall|t: i64| #[trigger] seen@.contains(t) <==> exists|k: int| 0 <= k < i && st[k] == Some(t),
            out@ == song_entries_of(raw@.take(i as int), st),
            forall|a: int, b: int| 0 <= a < b < out@.len() ==> #[trigger] out@[a].timestamp != #[trigger] out@[b].timestamp,
            forall|a: int| 0 <= a < out@.len() ==> #[trigger] seen@.contains(out@[a].timestamp),
            entries_in_range(out@),
        decreases raw@.len() - i,
    {
        let ghost prefix = raw@.take(i as int + 1);
        assert(prefix.drop_last() =~= raw@.take(i as int));
        assert(prefix[i as int] == raw@[i as int]);
        let t = match stamps[i] {
            Some(t) => t,
            None => {
                assert(fails_at(raw@, st, i as int));
                return Err(EntryError::InvalidTimestamp(i));
            },
        };
        let ghost seen_before = seen@;
        let fresh = seen.insert(t);
        proof {
            assert(first_with_timestamp(st, i as int) == fresh) by {
                if !fresh {
                    let k = choose|k: int| 0 <= k < i && st[k] == Some(t);
                    assert(st[k] == st[i as int]);
                } else {
                    assert forall|k: int| 0 <= k < i implies #[trigger] st[k] != st[i as int] by {
                        if st[k] == st[i as int] {
                            assert(seen_before.contains(t));
                        }
                    }
                }
            }
        }
        if fresh {
            let e = &raw[i];
            match (&e.master_metadata_track_name, &e.master_metadata_album_album_name, &e.master_metadata_album_artist_name) {
                (Some(track), Some(album), Some(artist)) => {
                    if e.ms_played == i64::MIN {
                        assert(fails_at(raw@, st, i as int));
                        return Err(EntryError::InvalidDuration(i));
                    }
                    proof {
                        assert forall|a: int| 0 <= a < out@.len() implies #[trigger] out@[a].timestamp != t by {
                            assert(seen_before.contains(out@[a].timestamp));
                        }
                    }
                    out.push(
                        SongEntry {
                            timestamp: t,
                            time_played: e.ms_played,
                            track: track.clone(),
                            album: album.clone(),
                            artist: artist.clone(),
                        },
                    );
                },
                _ => {},
            }
        }
        i = i + 1;
    }
    assert(raw@.take(raw@.len() as int) =~= raw@);
    if !is_sorted(&out) {
        let ghost before = out@;
        sort_by_timestamp(&mut out);
        proof {
            lemma_permutation_keeps_stamps_apart(before, out@);
            assert forall|a: int| 0 <= a < out@.len() implies {
                &&& -TIMESTAMP_LIMIT < #[trigger] out@[a].timestamp < TIMESTAMP_LIMIT
                &&& -i64::MAX <= out@[a].time_played
            } by {
                assert(before.contains(out@[a]));
                let k = choose|k: int| 0 <= k < before.len() && before[k] == out@[a];
                assert(-TIMESTAMP_LIMIT < before[k].timestamp < TIMESTAMP_LIMIT);
            }
        }
    }
    assert forall|a: int, b: int| 0 <= a < b < out@.len() implies #[trigger] out@[a].timestamp < #[trigger] out@[b].timestamp by {
        assert(out@[a].timestamp <= out@[b].timestamp);
        assert(out@[a].timestamp != out@[b].timestamp);
    }
    Ok(out)
}

/// Turns the entries of `endsong.json` files (all files' entries, in order)
/// into the song entries they give, sorted by timestamp.
///
/// Podcast streams are dropped, and a stream with the same timestamp as an
/// earlier stream (song or podcast) is dropped too. Fails on the first entry
/// whose timestamp is not in RFC 3339 format, or whose (counting) song stream
/// lasts `i64::MIN` milliseconds.
pub fn parse(raw: &[RawEntry]) -> (r: Result<Vec<SongEntry>, EntryError>)
    ensures
        entries_result(raw@, parsed_stamps(raw@), r),
{
    let mut stamps: Vec<Option<i64>> = Vec::new();
    let mut i: usize = 0;
    while i < raw.len()
        invariant
            i <= raw@.len(),
            stamps@.len() == i,
            forall|k: int| 0 <= k < i ==> #[trigger] stamps@[k] == rfc3339_millis(raw@[k].ts@),
            forall|k: int| 0 <= k < i ==> (#[trigger] stamps@[k] matches Some(t) ==> -TIMESTAMP_LIMIT < t < TIMESTAMP_LIMIT),
        decreases raw@.len() - i,
    {
        stamps.push(parse_rfc3339(raw[i].ts.as_str()));
        i = i + 1;
    }
    assert(stamps@ =~= parsed_stamps(raw@));
    song_entries_from(raw, stamps.as_slice())
}

} // verus!
