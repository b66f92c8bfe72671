//! The lines that the `print` commands of the shell show: top lists,
//! an aspect with its albums and songs, and the time spent listening.

use vstd::prelude::*;

use crate::aspect::{Album, Artist, Music, Song};
use crate::command::Aspect;
use crate::display::{log10, num_days, num_hours, num_minutes, trunc_div};
use crate::entry::SongEntry;
use crate::gather;
use crate::rank::{is_top, sorted_by_plays};
use crate::text::{append_string, decimal, push_char, push_decimal, push_repeated, repeated};

verus! {

/// A line of a top list: the position (indented to line up with the
/// highest position `max_num`), the aspect and its plays.
pub open spec fn ranked_line(position: nat, max_num: nat, display: Seq<char>, plays: nat) -> Seq<char> {
    let indent = if log10(max_num) > log10(position) { (log10(max_num) - log10(position)) as nat } else { 0 };
    repeated(' ', indent) + seq!['#'] + decimal(position) + ": "@ + display + " | "@ + decimal(plays) + " plays"@
}

/// Appends `s` to `out`.
fn push_str(out: &mut String, s: &str)
    ensures
        final(out)@ == old(out)@ + s@,
{
    append_string(out, &s.to_owned());
}

/// The lines of a top list of `v`, positions counted from 1.
pub open spec fn top_lines_of<T: Music>(r: Seq<String>, v: Seq<(T, usize)>) -> bool {
    &&& r.len() == v.len()
    &&& forall|i: int| 0 <= i < r.len() ==> #[trigger] r[i]@ == ranked_line((i + 1) as nat, v.len(), T::display_of(v[i].0@), v[i].1 as nat)
}

/// The lines of the `num` best ranked aspects of a tally (all of them if
/// there are fewer): sorted by plays descending and then by name.
pub fn top_helper<T: Music>(tally: Vec<(T, usize)>, num: usize) -> (r: Vec<String>)
    ensures
        exists|top: Seq<(T, usize)>| #[trigger] is_top(top, tally@, num as nat) && top_lines_of(r@, top),
{
    let sorted = sorted_by_plays(tally, num);
    let max_num = sorted.len();
    let mut r: Vec<String> = Vec::new();
    let mut i: usize = 0;
    while i < sorted.len()
        invariant
            max_num == sorted@.len(),
            i <= sorted@.len(),
            r@.len() == i,
            forall|k: int| 0 <= k < i ==> #[trigger] r@[k]@ == ranked_line((k + 1) as nat, max_num as nat, T::display_of(sorted@[k].0@), sorted@[k].1 as nat),
        decreases sorted@.len() - i,
    {
        let position = i + 1;
        let mut line = crate::display::leading_whitespace(position, max_num);
        push_str(&mut line, ": ");
        let shown = sorted[i].0.display();
        append_string(&mut line, &shown);
        push_str(&mut line, " | ");
        push_decimal(&mut line, sorted[i].1 as u64);
        push_str(&mut line, " plays");
        assert(line@ =~= ranked_line(position as nat, max_num as nat, T::display_of(sorted@[i as int].0@), sorted@[i as int].1 as nat));
        r.push(line);
        i = i + 1;
    }
    r
}

/// The header of a top list: `=== TOP <num> <what> ===`.
pub open spec fn top_header(num: nat, what: Seq<char>) -> Seq<char> {
    "=== TOP "@ + decimal(num) + seq![' '] + what + " ==="@
}

/// Appends the header of a top list.
fn header(num: usize, what: &str) -> (r: String)
    ensures
        r@ == top_header(num as nat, what@),
{
    let mut r = "=== TOP ".to_owned();
    push_decimal(&mut r, num as u64);
    push_char(&mut r, ' ');
    push_str(&mut r, what);
    push_str(&mut r, " ===");
    r
}

/// The lines of the top `num` of an aspect: songs (summed over albums when
/// `sum_songs_from_different_albums`), albums or artists.
pub fn top(entries: &[SongEntry], asp: Aspect, num: usize, sum_songs_from_different_albums: bool) -> (r: Vec<String>)
    ensures
        r@.len() >= 2,
        r@.last()@ == Seq::<char>::empty(),
        r@[0]@ == top_header(num as nat, match asp {
            Aspect::Songs => "SONGS"@,
            Aspect::Albums => "ALBUMS"@,
            Aspect::Artists => "ARTISTS"@,
        }),
        match asp {
            Aspect::Songs => exists|tally: Seq<(Song, usize)>, top: Seq<(Song, usize)>| {
                &&& (if sum_songs_from_different_albums {
                    gather::is_summed_across_albums(tally, entries@)
                } else {
                    gather::is_tally(tally, gather::views::<Song>(entries@))
                })
                &&& #[trigger] is_top(top, tally, num as nat)
                &&& top_lines_of(r@.subrange(1, r@.len() - 1), top)
            },
            Aspect::Albums => exists|top: Seq<(Album, usize)>, tally: Seq<(Album, usize)>| {
                &&& gather::is_tally(tally, gather::views::<Album>(entries@))
                &&& #[trigger] is_top(top, tally, num as nat)
                &&& top_lines_of(r@.subrange(1, r@.len() - 1), top)
            },
            Aspect::Artists => exists|top: Seq<(Artist, usize)>, tally: Seq<(Artist, usize)>| {
                &&& gather::is_tally(tally, gather::views::<Artist>(entries@))
                &&& #[trigger] is_top(top, tally, num as nat)
                &&& top_lines_of(r@.subrange(1, r@.len() - 1), top)
            },
        },
{
    let mut r: Vec<String> = Vec::new();
    match asp {
        Aspect::Songs => {
            r.push(header(num, "SONGS"));
            let tally = if sum_songs_from_different_albums {
                gather::songs_summed_across_albums(entries)
            } else {
                gather::songs(entries)
            };
            let ghost t = tally@;
            let lines = top_helper(tally, num);
            append_lines(&mut r, lines);
            proof {
                let top = choose|top: Seq<(Song, usize)>| #[trigger] is_top(top, t, num as nat) && top_lines_of(r@.drop_first(), top);
                assert(is_top(top, t, num as nat));
            }
        },
        Aspect::Albums => {
            r.push(header(num, "ALBUMS"));
            let tally = gather::albums(entries);
            let ghost t = tally@;
            let lines = top_helper(tally, num);
            append_lines(&mut r, lines);
            proof {
                let top = choose|top: Seq<(Album, usize)>| #[trigger] is_top(top, t, num as nat) && top_lines_of(r@.drop_first(), top);
                assert(is_top(top, t, num as nat));
            }
        },
        Aspect::Artists => {
            r.push(header(num, "ARTISTS"));
            let tally = gather::artists(entries);
            let ghost t = tally@;
            let lines = top_helper(tally, num);
            append_lines(&mut r, lines);
            proof {
                let top = choose|top: Seq<(Artist, usize)>| #[trigger] is_top(top, t, num as nat) && top_lines_of(r@.drop_first(), top);
                assert(is_top(top, t, num as nat));
            }
        },
    }
    let ghost before = r@;
    r.push(String::new());
    assert(r@.subrange(1, r@.len() - 1) =~= before.drop_first());
    r
}

/// What to list of an artist: its songs or its albums.
#[derive(Clone, Copy, Debug, PartialEq, Eq)]
pub enum Mode {
    /// The artist's songs
    Songs,
    /// The artist's albums
    Albums,
}

/// The header of a top list of an aspect: `=== TOP <num> <what> FROM <aspect> ===`.
pub open spec fn top_from_header(num: nat, what: Seq<char>, from: Seq<char>) -> Seq<char> {
    "=== TOP "@ + decimal(num) + seq![' '] + what + " FROM "@ + from + " ==="@
}

/// Returns the header of a top list of an aspect.
fn header_from(num: usize, what: &str, from: &String) -> (r: String)
    ensures
        r@ == top_from_header(num as nat, what@, from@),
{
    let mut r = "=== TOP ".to_owned();
    push_decimal(&mut r, num as u64);
    push_char(&mut r, ' ');
    push_str(&mut r, what);
    push_str(&mut r, " FROM ");
    append_string(&mut r, from);
    push_str(&mut r, " ===");
    r
}

/// The lines of the top `num` songs (by [`Mode::Songs`]) or albums (by
/// [`Mode::Albums`]) of `artist`.
pub fn top_from_artist(entries: &[SongEntry], mode: Mode, artist: &Artist, num: usize) -> (r: Vec<String>)
    ensures
        r@.len() >= 2,
        r@.last()@ == Seq::<char>::empty(),
        r@[0]@ == top_from_header(num as nat, match mode {
            Mode::Songs => "SONGS"@,
            Mode::Albums => "ALBUMS"@,
        }, Artist::display_of(artist@)),
        match mode {
            Mode::Songs => exists|tally: Seq<(Song, usize)>, top: Seq<(Song, usize)>| {
                &&& gather::is_tally(tally, gather::views_where::<Artist, Song>(entries@, artist@))
                &&& #[trigger] is_top(top, tally, num as nat)
                &&& top_lines_of(r@.subrange(1, r@.len() - 1), top)
            },
            Mode::Albums => exists|tally: Seq<(Album, usize)>, top: Seq<(Album, usize)>| {
                &&& gather::is_tally(tally, gather::views_where::<Artist, Album>(entries@, artist@))
                &&& #[trigger] is_top(top, tally, num as nat)
                &&& top_lines_of(r@.subrange(1, r@.len() - 1), top)
            },
        },
{
    let mut r: Vec<String> = Vec::new();
    let shown = artist.display();
    match mode {
        Mode::Songs => {
            r.push(header_from(num, "SONGS", &shown));
            let tally = gather::songs_from(entries, artist);
            let ghost t = tally@;
            let lines = top_helper(tally, num);
            append_lines(&mut r, lines);
            proof {
                let top = choose|top: Seq<(Song, usize)>| #[trigger] is_top(top, t, num as nat) && top_lines_of(r@.drop_first(), top);
                assert(is_top(top, t, num as nat));
            }
        },
        Mode::Albums => {
            r.push(header_from(num, "ALBUMS", &shown));
            let tally = gather::albums_from_artist(entries, artist);
            let ghost t = tally@;
            let lines = top_helper(tally, num);
            append_lines(&mut r, lines);
            proof {
                let top = choose|top: Seq<(Album, usize)>| #[trigger] is_top(top, t, num as nat) && top_lines_of(r@.drop_first(), top);
                assert(is_top(top, t, num as nat));
            }
        },
    }
    let ghost before = r@;
    r.push(String::new());
    assert(r@.subrange(1, r@.len() - 1) =~= before.drop_first());
    r
}

/// The lines of the top `num` songs of `album`.
pub fn top_from_album(entries: &[SongEntry], album: &Album, num: usize) -> (r: Vec<String>)
    ensures
        r@.len() >= 2,
        r@.last()@ == Seq::<char>::empty(),
        r@[0]@ == top_from_header(num as nat, "SONGS"@, Album::display_of(album@)),
        exists|tally: Seq<(Song, usize)>, top: Seq<(Song, usize)>| {
            &&& gather::is_tally(tally, gather::views_where::<Album, Song>(entries@, album@))
            &&& #[trigger] is_top(top, tally, num as nat)
            &&& top_lines_of(r@.subrange(1, r@.len() - 1), top)
        },
{
    let mut r: Vec<String> = Vec::new();
    let shown = album.display();
    r.push(header_from(num, "SONGS", &shown));
    let tally = gather::songs_from(entries, album);
    let ghost t = tally@;
    let lines = top_helper(tally, num);
    append_lines(&mut r, lines);
    proof {
        let top = choose|top: Seq<(Song, usize)>| #[trigger] is_top(top, t, num as nat) && top_lines_of(r@.drop_first(), top);
        assert(is_top(top, t, num as nat));
    }
    let ghost before = r@;
    r.push(String::new());
    assert(r@.subrange(1, r@.len() - 1) =~= before.drop_first());
    r
}

/// Appends `lines` to `r`.
fn append_lines(r: &mut Vec<String>, lines: Vec<String>)
    ensures
        final(r)@ == old(r)@ + lines@,
        old(r)@.len() == 1 ==> final(r)@.drop_first() == lines@,
{
    let mut i: usize = 0;
    let ghost start = r@;
    while i < lines.len()
        invariant
            i <= lines@.len(),
            r@ == start + lines@.take(i as int),
        decreases lines@.len() - i,
    {
        r.push(lines[i].clone());
        i = i + 1;
        assert(r@ =~= start + lines@.take(i as int));
    }
    assert(lines@.take(lines@.len() as int) =~= lines@);
    assert(start.len() == 1 ==> (start + lines@).drop_first() =~= lines@);
}

/// The start and end of a period, moved to the first and last entry of
/// `entries` when they lie before or after them.
pub open spec fn normalized_dates(s: Seq<SongEntry>, start: i64, end: i64) -> (i64, i64) {
    (
        if s[0].timestamp > start { s[0].timestamp } else { start },
        if s.last().timestamp < end { s.last().timestamp } else { end },
    )
}

/// Sets the start date to the first entry's date and the end date to the
/// last entry's date if the given dates are before or after them.
pub fn normalize_dates(entries: &[SongEntry], start: i64, end: i64) -> (r: (i64, i64))
    requires
        entries@.len() > 0,
    ensures
        r == normalized_dates(entries@, start, end),
{
    let first = entries[0].timestamp;
    let last = entries[entries.len() - 1].timestamp;
    (if first > start { first } else { start }, if last < end { last } else { end })
}

/// The whole-number figures of the time spent listening in a period.
pub struct TimePlayed {
    /// Whole days spent listening
    pub days: i64,
    /// Whole hours spent listening
    pub hours: i64,
    /// Whole minutes spent listening
    pub minutes: i64,
    /// Whole minutes of the period
    pub period_minutes: i64,
    /// Whole days of the period
    pub period_days: i64,
    /// Plays per day of the period (rounded towards zero)
    pub plays_per_day: i64,
    /// Hours spent listening per day of the period (rounded towards zero)
    pub hours_per_day: i64,
}

/// The figures of listening `duration` milliseconds with `plays` plays in
/// a period of `period` milliseconds.
pub open spec fn is_time_played(t: TimePlayed, duration: int, plays: int, period: int) -> bool {
    &&& t.days == num_days(duration)
    &&& t.hours == num_hours(duration)
    &&& t.minutes == num_minutes(duration)
    &&& t.period_minutes == num_minutes(period)
    &&& t.period_days == num_days(period)
    &&& t.plays_per_day == trunc_div(plays, num_days(period))
    &&& t.hours_per_day == trunc_div(num_hours(duration), num_days(period))
}

/// The whole-number figures of the time spent listening: `duration`
/// milliseconds with `plays` plays in the period from `start` to `end`.
/// `None` when the period is shorter than a day (there are no figures per day).
pub fn time_played_figures(duration: i64, plays: usize, start: i64, end: i64) -> (r: Option<TimePlayed>)
    requires
        duration > i64::MIN,
        plays <= i64::MAX,
        start <= end,
        end - start <= i64::MAX,
    ensures
        r is None <==> num_days(end - start) == 0,
        r matches Some(t) ==> is_time_played(t, duration as int, plays as int, end - start),
{
    let period = end - start;
    let secs = crate::display::div_trunc(duration, 1000);
    let period_secs = crate::display::div_trunc(period, 1000);
    let period_days = crate::display::div_trunc(period_secs, 86400);
    if period_days == 0 {
        return None;
    }
    let hours = crate::display::div_trunc(secs, 3600);
    Some(TimePlayed {
        days: crate::display::div_trunc(secs, 86400),
        hours,
        minutes: crate::display::div_trunc(secs, 60),
        period_minutes: crate::display::div_trunc(period_secs, 60),
        period_days,
        plays_per_day: crate::display::div_trunc(plays as i64, period_days),
        hours_per_day: crate::display::div_trunc(hours, period_days),
    })
}


/// An aspect of any kind, given by reference.
pub enum AspectFull<'a> {
    /// An artist
    Artist(&'a Artist),
    /// An album
    Album(&'a Album),
    /// A song
    Song(&'a Song),
}

/// A line with a name and its plays, indented by `indent` spaces.
pub open spec fn plays_line(indent: nat, name: Seq<char>, plays: nat) -> Seq<char> {
    repeated(' ', indent) + name + " | "@ + decimal(plays) + " plays"@
}

/// The lines of the names of `v`'s aspects with their plays, indented.
pub open spec fn name_lines<T: Music>(indent: nat, v: Seq<(T, usize)>) -> Seq<Seq<char>> {
    v.map_values(|x: (T, usize)| plays_line(indent, T::name_of(x.0@), x.1 as nat))
}

/// `block` lists the songs of `album` in `s` by rank, indented.
pub open spec fn is_album_block(block: Seq<Seq<char>>, s: Seq<SongEntry>, album: crate::aspect::AlbumView, indent: nat) -> bool {
    exists|tally: Seq<(Song, usize)>, top: Seq<(Song, usize)>| {
        &&& gather::is_tally(tally, gather::views_where::<Album, Song>(s, album))
        &&& #[trigger] is_top(top, tally, tally.len())
        &&& block == name_lines(indent, top)
    }
}

/// Each album of `albums` (indented by 4) followed by its block.
pub open spec fn albums_with_blocks(albums: Seq<(Album, usize)>, blocks: Seq<Seq<Seq<char>>>) -> Seq<Seq<char>>
    decreases albums.len(),
{
    if albums.len() == 0 || blocks.len() == 0 {
        seq![]
    } else {
        albums_with_blocks(albums.drop_last(), blocks.drop_last())
            + seq![plays_line(4, albums.last().0@.0, albums.last().1 as nat)] + blocks.last()
    }
}

/// The lines of the strings of `v`.
pub open spec fn texts(v: Seq<String>) -> Seq<Seq<char>> {
    v.map_values(|x: String| x@)
}

/// The lines describing an aspect: the aspect with its plays; for an
/// artist, its albums by rank, each followed by its songs by rank; for an
/// album, its songs by rank.
pub open spec fn is_aspect_listing(lines: Seq<Seq<char>>, s: Seq<SongEntry>, asp: AspectFull) -> bool {
    match asp {
        AspectFull::Artist(a) => exists|tally: Seq<(Album, usize)>, top: Seq<(Album, usize)>, blocks: Seq<Seq<Seq<char>>>|
            #![trigger is_top(top, tally, tally.len()), albums_with_blocks(top, blocks)]
        {
            &&& gather::is_tally(tally, gather::views_where::<Artist, Album>(s, a@))
            &&& is_top(top, tally, tally.len())
            &&& blocks.len() == top.len()
            &&& forall|i: int| 0 <= i < blocks.len() ==> is_album_block(#[trigger] blocks[i], s, top[i].0@, 8)
            &&& lines == seq![plays_line(0, Artist::display_of(a@), gather::plays_in::<Artist>(s, a@))] + albums_with_blocks(top, blocks)
        },
        AspectFull::Album(a) => exists|block: Seq<Seq<char>>| {
            &&& #[trigger] is_album_block(block, s, a@, 4)
            &&& lines == seq![plays_line(0, Album::display_of(a@), gather::plays_in::<Album>(s, a@))] + block
        },
        AspectFull::Song(a) => lines == seq![plays_line(0, Song::display_of(a@), gather::plays_in::<Song>(s, a@))],
    }
}

/// The line of a name with its plays, indented.
fn plays_text(indent: usize, name: &String, plays: usize) -> (r: String)
    ensures
        r@ == plays_line(indent as nat, name@, plays as nat),
{
    let mut r = String::new();
    push_repeated(&mut r, ' ', indent);
    append_string(&mut r, name);
    push_str(&mut r, " | ");
    push_decimal(&mut r, plays as u64);
    push_str(&mut r, " plays");
    r
}

/// Appends the songs of `album` by rank, indented.
fn push_album_block(lines: &mut Vec<String>, entries: &[SongEntry], album: &Album, indent: usize)
    ensures
        exists|block: Seq<Seq<char>>| #[trigger] is_album_block(block, entries@, album@, indent as nat)
            && texts(final(lines)@) == texts(old(lines)@) + block,
{
    let tally = gather::songs_from(entries, album);
    let ghost t = tally@;
    let n = tally.len();
    let sorted = sorted_by_plays(tally, n);
    let ghost start = texts(lines@);
    let mut i: usize = 0;
    while i < sorted.len()
        invariant
            i <= sorted@.len(),
            texts(lines@) == start + name_lines(indent as nat, sorted@.take(i as int)),
        decreases sorted@.len() - i,
    {
        let name = sorted[i].0.name();
        let line = plays_text(indent, &name, sorted[i].1);
        let ghost before = lines@;
        lines.push(line);
        proof {
            assert(texts(lines@) =~= texts(before).push(plays_line(indent as nat, Song::name_of(sorted@[i as int].0@), sorted@[i as int].1 as nat)));
            assert(name_lines(indent as nat, sorted@.take(i + 1)) =~= name_lines(indent as nat, sorted@.take(i as int)).push(
                plays_line(indent as nat, Song::name_of(sorted@[i as int].0@), sorted@[i as int].1 as nat)));
        }
        i = i + 1;
        assert(texts(lines@) =~= start + name_lines(indent as nat, sorted@.take(i as int)));
    }
    assert(sorted@.take(sorted@.len() as int) =~= sorted@);
    assert(is_album_block(name_lines(indent as nat, sorted@), entries@, album@, indent as nat));
}

/// Returns the lines describing an aspect: the aspect with its plays; for
/// an artist, its albums by rank (indented by 4), each followed by its songs
/// by rank (indented by 8); for an album, its songs by rank (indented by 4).
pub fn aspect(entries: &[SongEntry], asp: &AspectFull) -> (r: Vec<String>)
    ensures
        is_aspect_listing(texts(r@), entries@, *asp),
{
    let mut lines: Vec<String> = Vec::new();
    match asp {
        AspectFull::Artist(art) => {
            let head = plays_text(0, &art.display(), gather::plays(entries, *art));
            lines.push(head);
            assert(texts(lines@) =~= seq![plays_line(0, Artist::display_of(art@), gather::plays_in::<Artist>(entries@, art@))]);
            let tally = gather::albums_from_artist(entries, *art);
            let ghost t = tally@;
            let n = tally.len();
            let sorted = sorted_by_plays(tally, n);
            let ghost head_line = texts(lines@);
            let ghost mut blocks: Seq<Seq<Seq<char>>> = seq![];
            let mut i: usize = 0;
            while i < sorted.len()
                invariant
                    i <= sorted@.len(),
                    blocks.len() == i,
                    forall|k: int| 0 <= k < i ==> is_album_block(#[trigger] blocks[k], entries@, sorted@[k].0@, 8),
                    texts(lines@) == head_line + albums_with_blocks(sorted@.take(i as int), blocks),
                decreases sorted@.len() - i,
            {
                let album = &sorted[i].0;
                let line = plays_text(4, &album.name, sorted[i].1);
                let ghost prev = lines@;
                lines.push(line);
                assert(texts(lines@) =~= texts(prev).push(plays_line(4, sorted@[i as int].0@.0, sorted@[i as int].1 as nat)));
                let ghost before = texts(lines@);
                push_album_block(&mut lines, entries, album, 8);
                proof {
                    let block = choose|block: Seq<Seq<char>>| #[trigger] is_album_block(block, entries@, album@, 8)
                        && texts(lines@) == before + block;
                    let old_blocks = blocks;
                    blocks = blocks.push(block);
                    assert(sorted@.take(i + 1).drop_last() =~= sorted@.take(i as int));
                    assert(blocks.drop_last() =~= old_blocks);
                    assert(texts(lines@) =~= head_line + albums_with_blocks(sorted@.take(i + 1), blocks));
                }
                i = i + 1;
            }
            proof {
                assert(sorted@.take(sorted@.len() as int) =~= sorted@);
                assert(is_top(sorted@, t, t.len()));
                assert(texts(lines@) == head_line + albums_with_blocks(sorted@, blocks));
                assert(head_line =~= seq![plays_line(0, Artist::display_of(art@), gather::plays_in::<Artist>(entries@, art@))]);
            }
        },
        AspectFull::Album(alb) => {
            let head = plays_text(0, &alb.display(), gather::plays(entries, *alb));
            lines.push(head);
            assert(texts(lines@) =~= seq![plays_line(0, Album::display_of(alb@), gather::plays_in::<Album>(entries@, alb@))]);
            push_album_block(&mut lines, entries, *alb, 4);
        },
        AspectFull::Song(son) => {
            let head = plays_text(0, &son.display(), gather::plays(entries, *son));
            lines.push(head);
            assert(texts(lines@) =~= seq![plays_line(0, Song::display_of(son@), gather::plays_in::<Song>(entries@, son@))]);
        },
    }
    lines
}


/// The first line describing an aspect within a period: the aspect, the
/// dates of the period and the plays.
pub open spec fn dated_line(display: Seq<char>, start: Seq<char>, end: Seq<char>, plays: nat) -> Seq<char> {
    display + " | between "@ + start + " and "@ + end + " | "@ + decimal(plays) + " plays"@
}

/// The display text of the aspect of `asp`.
pub open spec fn display_of_full(asp: AspectFull) -> Seq<char> {
    match asp {
        AspectFull::Artist(a) => Artist::display_of(a@),
        AspectFull::Album(a) => Album::display_of(a@),
        AspectFull::Song(a) => Song::display_of(a@),
    }
}

/// The plays in `s` of the aspect of `asp`.
pub open spec fn plays_of_full(s: Seq<SongEntry>, asp: AspectFull) -> nat {
    match asp {
        AspectFull::Artist(a) => gather::plays_in::<Artist>(s, a@),
        AspectFull::Album(a) => gather::plays_in::<Album>(s, a@),
        AspectFull::Song(a) => gather::plays_in::<Song>(s, a@),
    }
}

/// Returns the lines describing an aspect within a period, given the entries
/// of that period and its first and last date as text: as [`aspect`], with
/// the dates in the first line.
pub fn aspect_date(entries_within_dates: &[SongEntry], asp: &AspectFull, start: &str, end: &str) -> (r: Vec<String>)
    ensures
        exists|lines: Seq<Seq<char>>| {
            &&& #[trigger] is_aspect_listing(lines, entries_within_dates@, *asp)
            &&& texts(r@) == seq![dated_line(display_of_full(*asp), start@, end@, plays_of_full(entries_within_dates@, *asp))] + lines.drop_first()
        },
{
    let mut lines = aspect(entries_within_dates, asp);
    let ghost listing = texts(lines@);
    let (shown, plays) = match asp {
        AspectFull::Artist(a) => (a.display(), gather::plays(entries_within_dates, *a)),
        AspectFull::Album(a) => (a.display(), gather::plays(entries_within_dates, *a)),
        AspectFull::Song(a) => (a.display(), gather::plays(entries_within_dates, *a)),
    };
    let mut head = shown;
    push_str(&mut head, " | between ");
    push_str(&mut head, start);
    push_str(&mut head, " and ");
    push_str(&mut head, end);
    push_str(&mut head, " | ");
    push_decimal(&mut head, plays as u64);
    push_str(&mut head, " plays");
    proof {
        assert(listing.len() >= 1);
    }
    lines.set(0, head);
    proof {
        assert(texts(lines@) =~= seq![dated_line(display_of_full(*asp), start@, end@, plays_of_full(entries_within_dates@, *asp))] + listing.drop_first());
    }
    lines
}

} // verus!
