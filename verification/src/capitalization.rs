//! Summing up album and song names that differ only in capitalization.
//!
//! Artists sometimes change the capitalization of an album or song name.
//! [`SongEntries::sum_different_capitalization`] renames every such album
//! (and then every such song) to one version of its name, so that the
//! versions are counted as one.

use vstd::prelude::*;

use crate::aspect::{Album, AlbumView, Music, Song, SongView};
use crate::entry::{are_song_durations, SongEntries, SongEntry};
use crate::gather::{lemma_views_seq, views};
use crate::text::{lowercase, to_lowercase};

verus! {

/// The name of the last album of `albums` by `artist` whose lowercase name is
/// `lname` (`lname` itself if there is none).
pub open spec fn album_version(albums: Seq<AlbumView>, artist: Seq<char>, lname: Seq<char>) -> Seq<char>
    decreases albums.len(),
{
    if albums.len() == 0 {
        lname
    } else if albums.last().1 == artist && lowercase(albums.last().0) == lname {
        albums.last().0
    } else {
        album_version(albums.drop_last(), artist, lname)
    }
}

/// The name of the last song of `songs` in the album `album` by `artist`
/// whose lowercase name is `lname` (`lname` itself if there is none).
pub open spec fn song_version(songs: Seq<SongView>, album: Seq<char>, artist: Seq<char>, lname: Seq<char>) -> Seq<char>
    decreases songs.len(),
{
    if songs.len() == 0 {
        lname
    } else if songs.last().1 == album && songs.last().2 == artist && lowercase(songs.last().0) == lname {
        songs.last().0
    } else {
        song_version(songs.drop_last(), album, artist, lname)
    }
}

/// The album name that the `i`-th entry of `s` gets: of the albums of its
/// artist whose names are the same in lowercase, the one of the most recent entry.
pub open spec fn summed_album(s: Seq<SongEntry>, i: int) -> Seq<char> {
    album_version(views::<Album>(s), s[i].artist@, lowercase(s[i].album@))
}

/// The songs of the entries of `s` once their album names are summed up.
pub open spec fn album_summed_songs(s: Seq<SongEntry>) -> Seq<SongView> {
    Seq::new(s.len(), |i: int| (s[i].track@, summed_album(s, i), s[i].artist@))
}

/// The song name that the `i`-th entry of `s` gets: of the songs of its
/// (summed up) album whose names are the same in lowercase, the one of the
/// most recent entry.
pub open spec fn summed_track(s: Seq<SongEntry>, i: int) -> Seq<char> {
    song_version(album_summed_songs(s), summed_album(s, i), s[i].artist@, lowercase(s[i].track@))
}

/// `r` is `s` with album names and then song names summed up.
pub open spec fn capitalization_summed(r: Seq<SongEntry>, s: Seq<SongEntry>) -> bool {
    &&& r.len() == s.len()
    &&& forall|i: int| #![trigger r[i]] 0 <= i < s.len() ==> {
        &&& r[i].timestamp == s[i].timestamp
        &&& r[i].time_played == s[i].time_played
        &&& r[i].artist@ == s[i].artist@
        &&& r[i].album@ == summed_album(s, i)
        &&& r[i].track@ == summed_track(s, i)
    }
}

/// An album version found in `albums` is one of them, with the requested lowercase name.
proof fn lemma_album_version_found(albums: Seq<AlbumView>, artist: Seq<char>, lname: Seq<char>, k: int)
    requires
        0 <= k < albums.len(),
        albums[k].1 == artist,
        lowercase(albums[k].0) == lname,
    ensures
        lowercase(album_version(albums, artist, lname)) == lname,
        exists|m: int| 0 <= m < albums.len() && albums[m].1 == artist && #[trigger] albums[m].0 == album_version(albums, artist, lname),
    decreases albums.len(),
{
    let last = albums.len() - 1;
    if albums.last().1 == artist && lowercase(albums.last().0) == lname {
        assert(albums[last].0 == album_version(albums, artist, lname));
    } else {
        assert(k < last);
        assert(albums.drop_last()[k] == albums[k]);
        lemma_album_version_found(albums.drop_last(), artist, lname, k);
        let m = choose|m: int| 0 <= m < albums.drop_last().len() && albums.drop_last()[m].1 == artist
            && #[trigger] albums.drop_last()[m].0 == album_version(albums.drop_last(), artist, lname);
        assert(albums[m] == albums.drop_last()[m]);
    }
}

/// A song version found in `songs` is one of them, with the requested lowercase name.
proof fn lemma_song_version_found(songs: Seq<SongView>, album: Seq<char>, artist: Seq<char>, lname: Seq<char>, k: int)
    requires
        0 <= k < songs.len(),
        songs[k].1 == album,
        songs[k].2 == artist,
        lowercase(songs[k].0) == lname,
    ensures
        lowercase(song_version(songs, album, artist, lname)) == lname,
        exists|m: int| 0 <= m < songs.len() && songs[m].1 == album && songs[m].2 == artist
            && #[trigger] songs[m].0 == song_version(songs, album, artist, lname),
    decreases songs.len(),
{
    let last = songs.len() - 1;
    if songs.last().1 == album && songs.last().2 == artist && lowercase(songs.last().0) == lname {
        assert(songs[last].0 == song_version(songs, album, artist, lname));
    } else {
        assert(k < last);
        assert(songs.drop_last()[k] == songs[k]);
        lemma_song_version_found(songs.drop_last(), album, artist, lname, k);
        let m = choose|m: int| 0 <= m < songs.drop_last().len() && songs.drop_last()[m].1 == album
            && songs.drop_last()[m].2 == artist && #[trigger] songs.drop_last()[m].0 == song_version(songs.drop_last(), album, artist, lname);
        assert(songs[m] == songs.drop_last()[m]);
    }
}

/// Summing up keeps every entry's album and song name the same in lowercase,
/// and renames them only to names that occur: an album of the same artist,
/// and a song of the same (summed up) album.
pub proof fn lemma_capitalization_only(r: Seq<SongEntry>, s: Seq<SongEntry>, i: int)
    requires
        capitalization_summed(r, s),
        0 <= i < s.len(),
    ensures
        lowercase(r[i].album@) == lowercase(s[i].album@),
        lowercase(r[i].track@) == lowercase(s[i].track@),
        exists|k: int| 0 <= k < s.len() && s[k].artist@ == s[i].artist@ && #[trigger] s[k].album@ == r[i].album@,
        exists|k: int| 0 <= k < s.len() && s[k].artist@ == s[i].artist@ && summed_album(s, k) == r[i].album@
            && #[trigger] s[k].track@ == r[i].track@,
{
    let av = views::<Album>(s);
    lemma_views_seq::<Album>(s);
    assert(av[i] == Album::of_entry(s[i]));
    lemma_album_version_found(av, s[i].artist@, lowercase(s[i].album@), i);
    let ma = choose|m: int| 0 <= m < av.len() && av[m].1 == s[i].artist@ && #[trigger] av[m].0 == summed_album(s, i);
    assert(av[ma] == Album::of_entry(s[ma]));
    assert(s[ma].album@ == r[i].album@);

    let songs = album_summed_songs(s);
    assert(songs[i] == (s[i].track@, summed_album(s, i), s[i].artist@));
    lemma_song_version_found(songs, summed_album(s, i), s[i].artist@, lowercase(s[i].track@), i);
    let ms = choose|m: int| 0 <= m < songs.len() && songs[m].1 == summed_album(s, i) && songs[m].2 == s[i].artist@
        && #[trigger] songs[m].0 == summed_track(s, i);
    assert(s[ms].track@ == r[i].track@);
}

/// After summing up, albums of an artist whose names are the same in
/// lowercase have the same name, and so do songs of an album whose names are
/// the same in lowercase: only one version of each name is left for each
/// spelling of the artist's name (artist names are not summed up).
pub proof fn lemma_one_version(r: Seq<SongEntry>, s: Seq<SongEntry>, i: int, j: int)
    requires
        capitalization_summed(r, s),
        0 <= i < s.len(),
        0 <= j < s.len(),
    ensures
        r[i].artist@ == r[j].artist@ && lowercase(r[i].album@) == lowercase(r[j].album@) ==> r[i].album@ == r[j].album@,
        r[i].artist@ == r[j].artist@ && r[i].album@ == r[j].album@ && lowercase(r[i].track@) == lowercase(r[j].track@)
            ==> r[i].track@ == r[j].track@,
{
    lemma_capitalization_only(r, s, i);
    lemma_capitalization_only(r, s, j);
}

/// After summing up, every entry already has the album name it would get
/// from summing up again.
proof fn lemma_summed_album_fixed(r: Seq<SongEntry>, s: Seq<SongEntry>, i: int)
    requires
        capitalization_summed(r, s),
        0 <= i < r.len(),
    ensures
        summed_album(r, i) == r[i].album@,
{
    let av = views::<Album>(r);
    lemma_views_seq::<Album>(r);
    assert(av[i] == Album::of_entry(r[i]));
    lemma_album_version_found(av, r[i].artist@, lowercase(r[i].album@), i);
    let m = choose|m: int| 0 <= m < av.len() && av[m].1 == r[i].artist@ && #[trigger] av[m].0 == summed_album(r, i);
    assert(av[m] == Album::of_entry(r[m]));
    lemma_one_version(r, s, m, i);
}

/// Summing up capitalization a second time changes nothing: every entry
/// keeps its album and song name (and its other fields).
pub proof fn lemma_summing_again(t: Seq<SongEntry>, r: Seq<SongEntry>, s: Seq<SongEntry>)
    requires
        capitalization_summed(r, s),
        capitalization_summed(t, r),
    ensures
        t.len() == r.len(),
        forall|i: int| #![trigger t[i]] 0 <= i < t.len() ==> {
            &&& t[i].timestamp == r[i].timestamp
            &&& t[i].time_played == r[i].time_played
            &&& t[i].artist@ == r[i].artist@
            &&& t[i].album@ == r[i].album@
            &&& t[i].track@ == r[i].track@
        },
{
    assert forall|i: int| #![trigger t[i]] 0 <= i < t.len() implies {
        &&& t[i].timestamp == r[i].timestamp
        &&& t[i].time_played == r[i].time_played
        &&& t[i].artist@ == r[i].artist@
        &&& t[i].album@ == r[i].album@
        &&& t[i].track@ == r[i].track@
    } by {
        assert(t[i].album@ == summed_album(r, i));
        lemma_summed_album_fixed(r, s, i);
        let songs = album_summed_songs(r);
        assert(songs[i] == (r[i].track@, summed_album(r, i), r[i].artist@));
        lemma_song_version_found(songs, summed_album(r, i), r[i].artist@, lowercase(r[i].track@), i);
        let m = choose|m: int| 0 <= m < songs.len() && songs[m].1 == summed_album(r, i) && songs[m].2 == r[i].artist@
            && #[trigger] songs[m].0 == summed_track(r, i);
        lemma_summed_album_fixed(r, s, m);
        assert(songs[m] == (r[m].track@, summed_album(r, m), r[m].artist@));
        lemma_one_version(r, s, m, i);
    }
}

/// `table` has a row for the artist `a` and the lowercase album name `l`.
pub open spec fn album_keyed(table: Seq<(String, String, String)>, a: Seq<char>, l: Seq<char>) -> bool {
    exists|k: int| 0 <= k < table.len() && #[trigger] table[k].0@ == a && table[k].1@ == l
}

/// The albums of the first entries of `s`, one more at a time.
proof fn lemma_album_views_push(s: Seq<SongEntry>, i: int)
    requires
        0 <= i < s.len(),
    ensures
        views::<Album>(s.take(i + 1)) == views::<Album>(s.take(i)).push(Album::of_entry(s[i])),
{
    assert(s.take(i + 1).drop_last() =~= s.take(i));
}

/// The songs of the first entries of `s`, one more at a time.
proof fn lemma_song_views_push(s: Seq<SongEntry>, i: int)
    requires
        0 <= i < s.len(),
    ensures
        views::<Song>(s.take(i + 1)) == views::<Song>(s.take(i)).push(Song::of_entry(s[i])),
{
    assert(s.take(i + 1).drop_last() =~= s.take(i));
}

/// For every entry, the album name of the most recent entry of the same
/// artist whose album name is the same in lowercase.
fn latest_album_names(entries: &[SongEntry]) -> (r: Vec<String>)
    ensures
        r@.len() == entries@.len(),
        forall|i: int| 0 <= i < entries@.len() ==> #[trigger] r@[i]@
            == album_version(views::<Album>(entries@), entries@[i].artist@, lowercase(entries@[i].album@)),
{
    let ghost s = entries@;
    let mut lower: Vec<String> = Vec::new();
    let mut i: usize = 0;
    while i < entries.len()
        invariant
            s == entries@,
            i <= s.len(),
            lower@.len() == i,
            forall|k: int| 0 <= k < i ==> #[trigger] lower@[k]@ == lowercase(s[k].album@),
        decreases s.len() - i,
    {
        lower.push(to_lowercase(entries[i].album.as_str()));
        i = i + 1;
    }
    let mut table: Vec<(String, String, String)> = Vec::new();
    let mut i: usize = 0;
    assert(views::<Album>(s.take(0)) =~= Seq::<AlbumView>::empty());
    while i < entries.len()
        invariant
            s == entries@,
            i <= s.len(),
            lower@.len() == s.len(),
            forall|k: int| 0 <= k < s.len() ==> #[trigger] lower@[k]@ == lowercase(s[k].album@),
            forall|k: int| 0 <= k < table@.len() ==> #[trigger] table@[k].2@
                == album_version(views::<Album>(s.take(i as int)), table@[k].0@, table@[k].1@),
            forall|j: int| #![trigger s[j]] 0 <= j < i ==> album_keyed(table@, s[j].artist@, lowercase(s[j].album@)),
        decreases s.len() - i,
    {
        proof {
            lemma_album_views_push(s, i as int);
        }
        let ghost prev = table@;
        let ghost a = s[i as int].artist@;
        let ghost l = lowercase(s[i as int].album@);
        let mut found = false;
        let mut k: usize = 0;
        while k < table.len()
            invariant
                s == entries@,
                i < s.len(),
                a == s[i as int].artist@,
                l == lowercase(s[i as int].album@),
                lower@.len() == s.len(),
                lower@[i as int]@ == l,
                table@.len() == prev.len(),
                k <= table@.len(),
                forall|m: int| 0 <= m < table@.len() ==> #[trigger] table@[m].0@ == prev[m].0@,
                forall|m: int| 0 <= m < table@.len() ==> #[trigger] table@[m].1@ == prev[m].1@,
                forall|m: int| 0 <= m < k ==> (#[trigger] table@[m].2@ == if prev[m].0@ == a && prev[m].1@ == l {
                    s[i as int].album@
                } else {
                    prev[m].2@
                }),
                forall|m: int| k <= m < table@.len() ==> #[trigger] table@[m].2@ == prev[m].2@,
                found <==> exists|m: int| 0 <= m < k && #[trigger] prev[m].0@ == a && prev[m].1@ == l,
            decreases table@.len() - k,
        {
            if table[k].0 == entries[i].artist && table[k].1 == lower[i] {
                let row = (table[k].0.clone(), table[k].1.clone(), entries[i].album.clone());
                table.set(k, row);
                found = true;
            }
            k = k + 1;
        }
        assert(k == prev.len());
        assert(forall|m: int| 0 <= m < prev.len() ==> #[trigger] table@[m].0@ == prev[m].0@);
        if !found {
            table.push((entries[i].artist.clone(), lower[i].clone(), entries[i].album.clone()));
        }
        assert(forall|m: int| 0 <= m < prev.len() ==> #[trigger] table@[m].1@ == prev[m].1@);
        assert(forall|m: int| 0 <= m < prev.len() ==> (#[trigger] table@[m].2@ == if prev[m].0@ == a && prev[m].1@ == l {
                    s[i as int].album@
                } else {
                    prev[m].2@
                }));
        proof {
            assert forall|m: int| 0 <= m < table@.len() implies #[trigger] table@[m].2@
                == album_version(views::<Album>(s.take(i + 1)), table@[m].0@, table@[m].1@) by {
                let v = views::<Album>(s.take(i + 1));
                assert(v.drop_last() =~= views::<Album>(s.take(i as int)));
                assert(v.last() == Album::of_entry(s[i as int]));
                if m < prev.len() {
                    assert(table@[m].0@ == prev[m].0@);
                    assert(table@[m].1@ == prev[m].1@);
                    assert(prev[m].2@ == album_version(views::<Album>(s.take(i as int)), prev[m].0@, prev[m].1@));
                } else {
                    assert(!found);
                }
            }
            assert forall|j: int| #![trigger s[j]] 0 <= j < i + 1 implies album_keyed(table@, s[j].artist@, lowercase(s[j].album@)) by {
                if j < i {
                    let m = choose|m: int| 0 <= m < prev.len() && #[trigger] prev[m].0@ == s[j].artist@ && prev[m].1@ == lowercase(s[j].album@);
                    assert(table@[m].0@ == prev[m].0@ && table@[m].1@ == prev[m].1@);
                } else if found {
                    let m = choose|m: int| 0 <= m < k && #[trigger] prev[m].0@ == a && prev[m].1@ == l;
                    assert(table@[m].0@ == prev[m].0@ && table@[m].1@ == prev[m].1@);
                } else {
                    assert(table@[prev.len() as int].0@ == a);
                }
            }
        }
        i = i + 1;
    }
    assert(s.take(s.len() as int) =~= s);
    let mut r: Vec<String> = Vec::new();
    let mut i: usize = 0;
    while i < entries.len()
        invariant
            s == entries@,
            s.take(s.len() as int) == s,
            i <= s.len(),
            lower@.len() == s.len(),
            forall|k: int| 0 <= k < s.len() ==> #[trigger] lower@[k]@ == lowercase(s[k].album@),
            forall|k: int| 0 <= k < table@.len() ==> #[trigger] table@[k].2@
                == album_version(views::<Album>(s.take(s.len() as int)), table@[k].0@, table@[k].1@),
            forall|j: int| #![trigger s[j]] 0 <= j < s.len() ==> album_keyed(table@, s[j].artist@, lowercase(s[j].album@)),
            r@.len() == i,
            forall|j: int| 0 <= j < i ==> #[trigger] r@[j]@
                == album_version(views::<Album>(s), s[j].artist@, lowercase(s[j].album@)),
        decreases s.len() - i,
    {
        let ghost a = s[i as int].artist@;
        let ghost l = lowercase(s[i as int].album@);
        assert(album_keyed(table@, a, l));
        let mut k: usize = 0;
        while k < table.len()
            invariant
                k <= table@.len(),
                album_keyed(table@, a, l),
                lower@[i as int]@ == l,
                entries@[i as int].artist@ == a,
                i < lower@.len(),
                i < entries@.len(),
                forall|m: int| 0 <= m < k ==> !(#[trigger] table@[m].0@ == a && table@[m].1@ == l),
            ensures
                k <= table@.len(),
                k < table@.len() ==> table@[k as int].0@ == a && table@[k as int].1@ == l,
                k == table@.len() ==> forall|m: int| 0 <= m < k ==> !(#[trigger] table@[m].0@ == a && table@[m].1@ == l),
            decreases table@.len() - k,
        {
            if table[k].0 == entries[i].artist && table[k].1 == lower[i] {
                break;
            }
            k = k + 1;
        }
        if k == table.len() {
            proof {
                let m = choose|m: int| 0 <= m < table@.len() && #[trigger] table@[m].0@ == a && table@[m].1@ == l;
                assert(false);
            }
            r.push(lower[i].clone());
        } else {
            r.push(table[k].2.clone());
        }
        i = i + 1;
    }
    r
}

/// `table` has a row for the album `b`, the artist `a` and the lowercase song name `l`.
pub open spec fn song_keyed(table: Seq<(String, String, String, String)>, b: Seq<char>, a: Seq<char>, l: Seq<char>) -> bool {
    exists|k: int| 0 <= k < table.len() && #[trigger] table[k].0@ == b && table[k].1@ == a && table[k].2@ == l
}

/// For every entry, the song name of the most recent entry of the same
/// album and artist whose song name is the same in lowercase.
fn latest_track_names(entries: &[SongEntry]) -> (r: Vec<String>)
    ensures
        r@.len() == entries@.len(),
        forall|i: int| 0 <= i < entries@.len() ==> #[trigger] r@[i]@
            == song_version(views::<Song>(entries@), entries@[i].album@, entries@[i].artist@, lowercase(entries@[i].track@)),
{
    let ghost s = entries@;
    let mut lower: Vec<String> = Vec::new();
    let mut i: usize = 0;
    while i < entries.len()
        invariant
            s == entries@,
            i <= s.len(),
            lower@.len() == i,
            forall|k: int| 0 <= k < i ==> #[trigger] lower@[k]@ == lowercase(s[k].track@),
        decreases s.len() - i,
    {
        lower.push(to_lowercase(entries[i].track.as_str()));
        i = i + 1;
    }
    let mut table: Vec<(String, String, String, String)> = Vec::new();
    let mut i: usize = 0;
    assert(views::<Song>(s.take(0)) =~= Seq::<SongView>::empty());
    while i < entries.len()
        invariant
            s == entries@,
            i <= s.len(),
            lower@.len() == s.len(),
            forall|k: int| 0 <= k < s.len() ==> #[trigger] lower@[k]@ == lowercase(s[k].track@),
            forall|k: int| 0 <= k < table@.len() ==> #[trigger] table@[k].3@
                == song_version(views::<Song>(s.take(i as int)), table@[k].0@, table@[k].1@, table@[k].2@),
            forall|j: int| #![trigger s[j]] 0 <= j < i ==> song_keyed(table@, s[j].album@, s[j].artist@, lowercase(s[j].track@)),
        decreases s.len() - i,
    {
        proof {
            lemma_song_views_push(s, i as int);
        }
        let ghost prev = table@;
        let ghost b = s[i as int].album@;
        let ghost a = s[i as int].artist@;
        let ghost l = lowercase(s[i as int].track@);
        let mut found = false;
        let mut k: usize = 0;
        while k < table.len()
            invariant
                s == entries@,
                i < s.len(),
                b == s[i as int].album@,
                a == s[i as int].artist@,
                l == lowercase(s[i as int].track@),
                lower@.len() == s.len(),
                lower@[i as int]@ == l,
                table@.len() == prev.len(),
                k <= table@.len(),
                forall|m: int| 0 <= m < table@.len() ==> #[trigger] table@[m].0@ == prev[m].0@,
                forall|m: int| 0 <= m < table@.len() ==> #[trigger] table@[m].1@ == prev[m].1@,
                forall|m: int| 0 <= m < table@.len() ==> #[trigger] table@[m].2@ == prev[m].2@,
                forall|m: int| 0 <= m < k ==> (#[trigger] table@[m].3@ == if prev[m].0@ == b && prev[m].1@ == a && prev[m].2@ == l {
                    s[i as int].track@
                } else {
                    prev[m].3@
                }),
                forall|m: int| k <= m < table@.len() ==> #[trigger] table@[m].3@ == prev[m].3@,
                found <==> exists|m: int| 0 <= m < k && #[trigger] prev[m].0@ == b && prev[m].1@ == a && prev[m].2@ == l,
            decreases table@.len() - k,
        {
            if table[k].0 == entries[i].album && table[k].1 == entries[i].artist && table[k].2 == lower[i] {
                let row = (table[k].0.clone(), table[k].1.clone(), table[k].2.clone(), entries[i].track.clone());
                table.set(k, row);
                found = true;
            }
            k = k + 1;
        }
        if !found {
            table.push((entries[i].album.clone(), entries[i].artist.clone(), lower[i].clone(), entries[i].track.clone()));
        }
        proof {
            assert forall|m: int| 0 <= m < table@.len() implies #[trigger] table@[m].3@
                == song_version(views::<Song>(s.take(i + 1)), table@[m].0@, table@[m].1@, table@[m].2@) by {
                let v = views::<Song>(s.take(i + 1));
                assert(v.drop_last() =~= views::<Song>(s.take(i as int)));
                assert(v.last() == Song::of_entry(s[i as int]));
                if m < prev.len() {
                    assert(table@[m].0@ == prev[m].0@ && table@[m].1@ == prev[m].1@ && table@[m].2@ == prev[m].2@);
                }
            }
            assert forall|j: int| #![trigger s[j]] 0 <= j < i + 1 implies song_keyed(table@, s[j].album@, s[j].artist@, lowercase(s[j].track@)) by {
                if j < i {
                    let m = choose|m: int| 0 <= m < prev.len() && #[trigger] prev[m].0@ == s[j].album@ && prev[m].1@ == s[j].artist@ && prev[m].2@ == lowercase(s[j].track@);
                    assert(table@[m].0@ == prev[m].0@ && table@[m].1@ == prev[m].1@ && table@[m].2@ == prev[m].2@);
                } else if found {
                    let m = choose|m: int| 0 <= m < k && #[trigger] prev[m].0@ == b && prev[m].1@ == a && prev[m].2@ == l;
                    assert(table@[m].0@ == prev[m].0@ && table@[m].1@ == prev[m].1@ && table@[m].2@ == prev[m].2@);
                } else {
                    assert(table@[prev.len() as int].0@ == b);
                }
            }
        }
        i = i + 1;
    }
    assert(s.take(s.len() as int) =~= s);
    let mut r: Vec<String> = Vec::new();
    let mut i: usize = 0;
    while i < entries.len()
        invariant
            s == entries@,
            s.take(s.len() as int) == s,
            i <= s.len(),
            lower@.len() == s.len(),
            forall|k: int| 0 <= k < s.len() ==> #[trigger] lower@[k]@ == lowercase(s[k].track@),
            forall|k: int| 0 <= k < table@.len() ==> #[trigger] table@[k].3@
                == song_version(views::<Song>(s.take(s.len() as int)), table@[k].0@, table@[k].1@, table@[k].2@),
            forall|j: int| #![trigger s[j]] 0 <= j < s.len() ==> song_keyed(table@, s[j].album@, s[j].artist@, lowercase(s[j].track@)),
            r@.len() == i,
            forall|j: int| 0 <= j < i ==> #[trigger] r@[j]@
                == song_version(views::<Song>(s), s[j].album@, s[j].artist@, lowercase(s[j].track@)),
        decreases s.len() - i,
    {
        let ghost b = s[i as int].album@;
        let ghost a = s[i as int].artist@;
        let ghost l = lowercase(s[i as int].track@);
        assert(song_keyed(table@, b, a, l));
        let mut k: usize = 0;
        while k < table.len()
            invariant
                k <= table@.len(),
                song_keyed(table@, b, a, l),
                lower@[i as int]@ == l,
                entries@[i as int].album@ == b,
                entries@[i as int].artist@ == a,
                i < lower@.len(),
                i < entries@.len(),
                forall|m: int| 0 <= m < k ==> !(#[trigger] table@[m].0@ == b && table@[m].1@ == a && table@[m].2@ == l),
            ensures
                k <= table@.len(),
                k < table@.len() ==> table@[k as int].0@ == b && table@[k as int].1@ == a && table@[k as int].2@ == l,
                k == table@.len() ==> forall|m: int| 0 <= m < k ==> !(#[trigger] table@[m].0@ == b && table@[m].1@ == a && table@[m].2@ == l),
            decreases table@.len() - k,
        {
            if table[k].0 == entries[i].album && table[k].1 == entries[i].artist && table[k].2 == lower[i] {
                break;
            }
            k = k + 1;
        }
        if k == table.len() {
            proof {
                let m = choose|m: int| 0 <= m < table@.len() && #[trigger] table@[m].0@ == b && table@[m].1@ == a && table@[m].2@ == l;
                assert(false);
            }
            r.push(lower[i].clone());
        } else {
            r.push(table[k].3.clone());
        }
        i = i + 1;
    }
    r
}

impl SongEntries {
    /// Sums up album and song names that differ only in capitalization.
    ///
    /// Sometimes an artist changes the capitalization of their album or song
    /// names. The albums of an artist whose names are the same in lowercase
    /// all get the name of the most recent of them; then the songs of an
    /// album whose names are the same in lowercase all get the name of the
    /// most recent of them. Song durations are computed anew.
    pub fn sum_different_capitalization(self) -> (r: SongEntries)
        requires
            self.wf(),
        ensures
            r.wf(),
            capitalization_summed(r@, self@),
            are_song_durations(r.durations_view(), r@),
    {
        let ghost s = self@;
        let entries = self.entries();
        let albums = latest_album_names(entries);
        let mut step1: Vec<SongEntry> = Vec::new();
        let mut i: usize = 0;
        while i < entries.len()
            invariant
                entries@ == s,
                i <= s.len(),
                albums@.len() == s.len(),
                forall|k: int| 0 <= k < s.len() ==> #[trigger] albums@[k]@ == summed_album(s, k),
                step1@.len() == i,
                forall|k: int| #![trigger step1@[k]] 0 <= k < i ==> {
                    &&& step1@[k].timestamp == s[k].timestamp
                    &&& step1@[k].time_played == s[k].time_played
                    &&& step1@[k].artist@ == s[k].artist@
                    &&& step1@[k].track@ == s[k].track@
                    &&& step1@[k].album@ == summed_album(s, k)
                },
            decreases s.len() - i,
        {
            let e = &entries[i];
            step1.push(
                SongEntry {
                    timestamp: e.timestamp,
                    time_played: e.time_played,
                    track: e.track.clone(),
                    album: albums[i].clone(),
                    artist: e.artist.clone(),
                },
            );
            i = i + 1;
        }
        proof {
            lemma_views_seq::<Song>(step1@);
            assert(views::<Song>(step1@) =~= album_summed_songs(s));
        }
        let tracks = latest_track_names(step1.as_slice());
        let mut step2: Vec<SongEntry> = Vec::new();
        let mut i: usize = 0;
        while i < step1.len()
            invariant
                entries@ == s,
                step1@.len() == s.len(),
                i <= s.len(),
                views::<Song>(step1@) == album_summed_songs(s),
                tracks@.len() == s.len(),
                forall|k: int| 0 <= k < s.len() ==> #[trigger] tracks@[k]@
                    == song_version(views::<Song>(step1@), step1@[k].album@, step1@[k].artist@, lowercase(step1@[k].track@)),
                forall|k: int| #![trigger step1@[k]] 0 <= k < s.len() ==> {
                    &&& step1@[k].timestamp == s[k].timestamp
                    &&& step1@[k].time_played == s[k].time_played
                    &&& step1@[k].artist@ == s[k].artist@
                    &&& step1@[k].track@ == s[k].track@
                    &&& step1@[k].album@ == summed_album(s, k)
                },
                step2@.len() == i,
                forall|k: int| #![trigger step2@[k]] 0 <= k < i ==> {
                    &&& step2@[k].timestamp == s[k].timestamp
                    &&& step2@[k].time_played == s[k].time_played
                    &&& step2@[k].artist@ == s[k].artist@
                    &&& step2@[k].album@ == summed_album(s, k)
                    &&& step2@[k].track@ == summed_track(s, k)
                },
            decreases s.len() - i,
        {
            let e = &step1[i];
            assert(e.timestamp == s[i as int].timestamp);
            assert(tracks@[i as int]@ == summed_track(s, i as int));
            step2.push(
                SongEntry {
                    timestamp: e.timestamp,
                    time_played: e.time_played,
                    track: tracks[i].clone(),
                    album: e.album.clone(),
                    artist: e.artist.clone(),
                },
            );
            i = i + 1;
        }
        proof {
            assert forall|a: int, b: int| 0 <= a < b < step2@.len() implies #[trigger] step2@[a].timestamp < #[trigger] step2@[b].timestamp by {
                assert(s[a].timestamp < s[b].timestamp);
            }
            assert forall|a: int| 0 <= a < step2@.len() implies {
                &&& -crate::entry::TIMESTAMP_LIMIT < #[trigger] step2@[a].timestamp < crate::entry::TIMESTAMP_LIMIT
                &&& -i64::MAX <= step2@[a].time_played
            } by {
                assert(-crate::entry::TIMESTAMP_LIMIT < s[a].timestamp < crate::entry::TIMESTAMP_LIMIT);
            }
        }
        SongEntries::from_sorted(step2)
    }
}

} // verus!
