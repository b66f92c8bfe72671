//! Finding artists, albums and songs in the dataset by name, ignoring case.
//!
//! Use these instead of creating aspects by hand to make sure they
//! actually exist in the dataset. Each function returns every differently
//! capitalized version that occurs, in the order of its first play.

use vstd::prelude::*;

use crate::aspect::{unicase_eq, Album, Artist, Music, Song};
use crate::entry::SongEntry;
use crate::gather::{distinct, lemma_distinct_facts, lemma_take_last, position_of};

verus! {

/// The aspects (of kind `T`) of the entries of `s` that match `key` ignoring case, in order.
pub open spec fn views_matching<T: Music>(s: Seq<SongEntry>, key: T::V) -> Seq<T::V>
    decreases s.len(),
{
    if s.len() == 0 {
        seq![]
    } else if T::same_ignoring_case(key, T::of_entry(s.last())) {
        views_matching::<T>(s.drop_last(), key).push(T::of_entry(s.last()))
    } else {
        views_matching::<T>(s.drop_last(), key)
    }
}

/// What a search for `key` finds among the aspects of the entries of `s`:
/// the aspect of an entry that matches `key` ignoring case.
proof fn lemma_views_matching_contains<T: Music>(s: Seq<SongEntry>, key: T::V, v: T::V)
    ensures
        distinct(views_matching::<T>(s, key)).contains(v) <==> exists|k: int|
            0 <= k < s.len() && #[trigger] T::of_entry(s[k]) == v && T::same_ignoring_case(key, v),
    decreases s.len(),
{
    lemma_distinct_facts(views_matching::<T>(s, key));
    if s.len() > 0 {
        let p = s.drop_last();
        lemma_views_matching_contains::<T>(p, key, v);
        lemma_distinct_facts(views_matching::<T>(p, key));
        let m = views_matching::<T>(s, key);
        let mp = views_matching::<T>(p, key);
        if mp.contains(v) {
            let j = choose|j: int| 0 <= j < mp.len() && mp[j] == v;
            if T::same_ignoring_case(key, T::of_entry(s.last())) {
                assert(m[j] == v);
            }
            assert(m.contains(v));
        }
        if exists|k: int| 0 <= k < s.len() && #[trigger] T::of_entry(s[k]) == v && T::same_ignoring_case(key, v) {
            let k = choose|k: int| 0 <= k < s.len() && #[trigger] T::of_entry(s[k]) == v && T::same_ignoring_case(key, v);
            if k < s.len() - 1 {
                assert(p[k] == s[k]);
                assert(mp.contains(v));
            } else {
                assert(m[m.len() - 1] == v);
            }
        }
        if m.contains(v) && !mp.contains(v) {
            let j = choose|j: int| 0 <= j < m.len() && m[j] == v;
            assert(T::same_ignoring_case(key, T::of_entry(s.last())));
            assert(j == m.len() - 1);
            assert(T::of_entry(s[s.len() - 1]) == v);
        }
        if mp.contains(v) {
            let k = choose|k: int| 0 <= k < p.len() && #[trigger] T::of_entry(p[k]) == v && T::same_ignoring_case(key, v);
            assert(s[k] == p[k]);
        }
    }
}

/// An artist search finds exactly the artists of the entries whose artist
/// name equals the name searched for, ignoring case.
pub proof fn lemma_artist_search(s: Seq<SongEntry>, artist_name: Seq<char>, v: Seq<char>)
    ensures
        distinct(views_matching::<Artist>(s, artist_name)).contains(v) <==> exists|k: int|
            0 <= k < s.len() && (#[trigger] s[k]).artist@ == v && unicase_eq(artist_name, s[k].artist@),
{
    lemma_views_matching_contains::<Artist>(s, artist_name, v);
    if exists|k: int| 0 <= k < s.len() && (#[trigger] s[k]).artist@ == v && unicase_eq(artist_name, s[k].artist@) {
        let k = choose|k: int| 0 <= k < s.len() && (#[trigger] s[k]).artist@ == v && unicase_eq(artist_name, s[k].artist@);
        assert(Artist::of_entry(s[k]) == v);
    }
    if exists|k: int| 0 <= k < s.len() && #[trigger] Artist::of_entry(s[k]) == v && Artist::same_ignoring_case(artist_name, v) {
        let k = choose|k: int| 0 <= k < s.len() && #[trigger] Artist::of_entry(s[k]) == v && Artist::same_ignoring_case(artist_name, v);
        assert(s[k].artist@ == v);
    }
}

/// An album search finds exactly the albums of the entries whose album name
/// and artist name both equal the names searched for, ignoring case: it
/// never finds an album of another artist.
pub proof fn lemma_album_search(s: Seq<SongEntry>, album_name: Seq<char>, artist_name: Seq<char>, v: (Seq<char>, Seq<char>))
    ensures
        distinct(views_matching::<Album>(s, (album_name, artist_name))).contains(v) <==> exists|k: int|
            0 <= k < s.len() && ((#[trigger] s[k]).album@, s[k].artist@) == v
                && unicase_eq(artist_name, s[k].artist@) && unicase_eq(album_name, s[k].album@),
{
    lemma_views_matching_contains::<Album>(s, (album_name, artist_name), v);
    if exists|k: int| 0 <= k < s.len() && ((#[trigger] s[k]).album@, s[k].artist@) == v && unicase_eq(artist_name, s[k].artist@) && unicase_eq(album_name, s[k].album@) {
        let k = choose|k: int| 0 <= k < s.len() && ((#[trigger] s[k]).album@, s[k].artist@) == v && unicase_eq(artist_name, s[k].artist@) && unicase_eq(album_name, s[k].album@);
        assert(Album::of_entry(s[k]) == v);
    }
    if exists|k: int| 0 <= k < s.len() && #[trigger] Album::of_entry(s[k]) == v && Album::same_ignoring_case((album_name, artist_name), v) {
        let k = choose|k: int| 0 <= k < s.len() && #[trigger] Album::of_entry(s[k]) == v && Album::same_ignoring_case((album_name, artist_name), v);
        assert((s[k].album@, s[k].artist@) == v);
    }
}

/// A search for a song of an album finds exactly the songs of the entries
/// whose track, album and artist names all equal the names searched for,
/// ignoring case.
pub proof fn lemma_song_from_album_search(
    s: Seq<SongEntry>,
    song_name: Seq<char>,
    album_name: Seq<char>,
    artist_name: Seq<char>,
    v: (Seq<char>, Seq<char>, Seq<char>),
)
    ensures
        distinct(views_matching::<Song>(s, (song_name, album_name, artist_name))).contains(v) <==> exists|k: int|
            0 <= k < s.len() && ((#[trigger] s[k]).track@, s[k].album@, s[k].artist@) == v
                && unicase_eq(artist_name, s[k].artist@) && unicase_eq(album_name, s[k].album@)
                && unicase_eq(song_name, s[k].track@),
{
    lemma_views_matching_contains::<Song>(s, (song_name, album_name, artist_name), v);
    if exists|k: int| 0 <= k < s.len() && ((#[trigger] s[k]).track@, s[k].album@, s[k].artist@) == v && unicase_eq(artist_name, s[k].artist@) && unicase_eq(album_name, s[k].album@) && unicase_eq(song_name, s[k].track@) {
        let k = choose|k: int| 0 <= k < s.len() && ((#[trigger] s[k]).track@, s[k].album@, s[k].artist@) == v && unicase_eq(artist_name, s[k].artist@) && unicase_eq(album_name, s[k].album@) && unicase_eq(song_name, s[k].track@);
        assert(Song::of_entry(s[k]) == v);
    }
    if exists|k: int| 0 <= k < s.len() && #[trigger] Song::of_entry(s[k]) == v && Song::same_ignoring_case((song_name, album_name, artist_name), v) {
        let k = choose|k: int| 0 <= k < s.len() && #[trigger] Song::of_entry(s[k]) == v && Song::same_ignoring_case((song_name, album_name, artist_name), v);
        assert((s[k].track@, s[k].album@, s[k].artist@) == v);
    }
}

/// The songs of the entries of `s` whose artist and track name match
/// `artist` and `song` ignoring case, whatever the album, in order.
pub open spec fn song_versions(s: Seq<SongEntry>, song: Seq<char>, artist: Seq<char>) -> Seq<(Seq<char>, Seq<char>, Seq<char>)>
    decreases s.len(),
{
    if s.len() == 0 {
        seq![]
    } else if unicase_eq(artist, s.last().artist@) && unicase_eq(song, s.last().track@) {
        song_versions(s.drop_last(), song, artist).push(Song::of_entry(s.last()))
    } else {
        song_versions(s.drop_last(), song, artist)
    }
}

/// What a search returns for the found aspects `found`: `None` if there are none.
pub open spec fn search_result<T: View>(r: Option<Vec<T>>, found: Seq<T::V>) -> bool {
    match r {
        None => found.len() == 0,
        Some(v) => found.len() > 0 && v@.len() == found.len()
            && forall|i: int| 0 <= i < v@.len() ==> #[trigger] v@[i]@ == found[i],
    }
}

/// Adds `x` (the aspect of `e`) to `found` unless it is already there.
fn add_distinct<T: Music>(found: &mut Vec<T>, e: &SongEntry, Ghost(prev): Ghost<Seq<T::V>>)
    requires
        old(found)@.len() == distinct(prev).len(),
        forall|i: int| 0 <= i < old(found)@.len() ==> #[trigger] old(found)@[i]@ == distinct(prev)[i],
    ensures
        final(found)@.len() == distinct(prev.push(T::of_entry(*e))).len(),
        forall|i: int| 0 <= i < final(found)@.len() ==> #[trigger] final(found)@[i]@ == distinct(prev.push(T::of_entry(*e)))[i],
{
    let ghost x = T::of_entry(*e);
    proof {
        lemma_distinct_facts(prev);
        assert(prev.push(x).drop_last() == prev);
    }
    match position_of(found, e) {
        Some(j) => {
            assert(distinct(prev)[j as int] == x);
            assert(distinct(prev).contains(x));
        },
        None => {
            assert(!distinct(prev).contains(x)) by {
                if distinct(prev).contains(x) {
                    let k = choose|k: int| 0 <= k < distinct(prev).len() && distinct(prev)[k] == x;
                    assert(found@[k]@ == x);
                }
            }
            found.push(T::from_entry(e));
        },
    }
}

/// The distinct aspects of kind `T` that match `key` ignoring case.
fn find_matching<T: Music>(entries: &[SongEntry], key: &T) -> (r: Option<Vec<T>>)
    ensures
        search_result(r, distinct(views_matching::<T>(entries@, key@))),
{
    let mut found: Vec<T> = Vec::new();
    let mut i: usize = 0;
    while i < entries.len()
        invariant
            i <= entries@.len(),
            found@.len() == distinct(views_matching::<T>(entries@.take(i as int), key@)).len(),
            forall|j: int| 0 <= j < found@.len() ==> #[trigger] found@[j]@ == distinct(views_matching::<T>(entries@.take(i as int), key@))[j],
        decreases entries@.len() - i,
    {
        proof {
            lemma_take_last(entries@, i as int);
        }
        if key.is_entry_ignore_case(&entries[i]) {
            add_distinct(&mut found, &entries[i], Ghost(views_matching::<T>(entries@.take(i as int), key@)));
        }
        i = i + 1;
    }
    assert(entries@.take(entries@.len() as int) == entries@);
    if found.len() == 0 {
        None
    } else {
        Some(found)
    }
}

/// Searches the entries for artists called `artist_name`, ignoring case.
///
/// Returns every capitalization of the name that occurs (several if the
/// name is capitalized differently in different entries), or `None` if
/// there is no such artist. The vector is non-empty if `Some`.
pub fn artist(entries: &[SongEntry], artist_name: &str) -> (r: Option<Vec<Artist>>)
    ensures
        search_result(r, distinct(views_matching::<Artist>(entries@, artist_name@))),
{
    let key = Artist::new(artist_name);
    find_matching(entries, &key)
}

/// Searches the entries for albums called `album_name` by `artist_name`,
/// ignoring case. The vector is non-empty if `Some`. Summing up
/// capitalization leaves one version of an album for each spelling of its
/// artist's name; artist names themselves are not summed up, so differently
/// capitalized artists each keep their versions.
pub fn album(entries: &[SongEntry], album_name: &str, artist_name: &str) -> (r: Option<Vec<Album>>)
    ensures
        search_result(r, distinct(views_matching::<Album>(entries@, (album_name@, artist_name@)))),
{
    let key = Album::new(album_name, artist_name);
    find_matching(entries, &key)
}

/// Searches the entries for songs called `song_name` in the album
/// `album_name` by `artist_name`, ignoring case. The vector is non-empty if `Some`.
pub fn song_from_album(entries: &[SongEntry], song_name: &str, album_name: &str, artist_name: &str) -> (r: Option<Vec<Song>>)
    ensures
        search_result(r, distinct(views_matching::<Song>(entries@, (song_name@, album_name@, artist_name@)))),
{
    let key = Song::new(song_name, album_name, artist_name);
    find_matching(entries, &key)
}

/// Searches the dataset for every version of a song: one [`Song`] for every
/// album (and capitalization) in which a song called `song_name` by
/// `artist_name` occurs, names compared ignoring case.
pub fn song(entries: &[SongEntry], song_name: &str, artist_name: &str) -> (r: Option<Vec<Song>>)
    ensures
        search_result(r, distinct(song_versions(entries@, song_name@, artist_name@))),
{
    let key = Song::new(song_name, "", artist_name);
    let mut found: Vec<Song> = Vec::new();
    let mut i: usize = 0;
    while i < entries.len()
        invariant
            i <= entries@.len(),
            key.name@ == song_name@,
            key.album.artist.name@ == artist_name@,
            found@.len() == distinct(song_versions(entries@.take(i as int), song_name@, artist_name@)).len(),
            forall|j: int| 0 <= j < found@.len() ==> #[trigger] found@[j]@ == distinct(song_versions(entries@.take(i as int), song_name@, artist_name@))[j],
        decreases entries@.len() - i,
    {
        proof {
            lemma_take_last(entries@, i as int);
        }
        if key.is_entry_ignore_album_and_case(&entries[i]) {
            add_distinct(&mut found, &entries[i], Ghost(song_versions(entries@.take(i as int), song_name@, artist_name@)));
        }
        i = i + 1;
    }
    assert(entries@.take(entries@.len() as int) == entries@);
    if found.len() == 0 {
        None
    } else {
        Some(found)
    }
}


/// A search for every version of a song finds exactly the songs of the
/// entries whose track and artist names equal the names searched for,
/// ignoring case, whatever their album.
pub proof fn lemma_song_search(s: Seq<SongEntry>, song_name: Seq<char>, artist_name: Seq<char>, v: (Seq<char>, Seq<char>, Seq<char>))
    ensures
        distinct(song_versions(s, song_name, artist_name)).contains(v) <==> exists|k: int|
            0 <= k < s.len() && ((#[trigger] s[k]).track@, s[k].album@, s[k].artist@) == v
                && unicase_eq(artist_name, s[k].artist@) && unicase_eq(song_name, s[k].track@),
    decreases s.len(),
{
    lemma_distinct_facts(song_versions(s, song_name, artist_name));
    if s.len() > 0 {
        let p = s.drop_last();
        lemma_song_search(p, song_name, artist_name, v);
        lemma_distinct_facts(song_versions(p, song_name, artist_name));
        let m = song_versions(s, song_name, artist_name);
        let mp = song_versions(p, song_name, artist_name);
        let last_matches = unicase_eq(artist_name, s.last().artist@) && unicase_eq(song_name, s.last().track@);
        if mp.contains(v) {
            let j = choose|j: int| 0 <= j < mp.len() && mp[j] == v;
            if last_matches {
                assert(m[j] == v);
            }
            assert(m.contains(v));
            let k = choose|k: int| 0 <= k < p.len() && ((#[trigger] p[k]).track@, p[k].album@, p[k].artist@) == v
                && unicase_eq(artist_name, p[k].artist@) && unicase_eq(song_name, p[k].track@);
            assert(s[k] == p[k]);
        }
        if exists|k: int| 0 <= k < s.len() && ((#[trigger] s[k]).track@, s[k].album@, s[k].artist@) == v
            && unicase_eq(artist_name, s[k].artist@) && unicase_eq(song_name, s[k].track@) {
            let k = choose|k: int| 0 <= k < s.len() && ((#[trigger] s[k]).track@, s[k].album@, s[k].artist@) == v
                && unicase_eq(artist_name, s[k].artist@) && unicase_eq(song_name, s[k].track@);
            if k < s.len() - 1 {
                assert(p[k] == s[k]);
                assert(mp.contains(v));
            } else {
                assert(m[m.len() - 1] == v);
            }
        }
        if m.contains(v) && !mp.contains(v) {
            let j = choose|j: int| 0 <= j < m.len() && m[j] == v;
            assert(last_matches);
            assert(j == m.len() - 1);
            assert(s[s.len() - 1] == s.last());
        }
    }
}

} // verus!
