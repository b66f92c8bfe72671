//! The decisions of the interactive shell: which command an input names,
//! how answers to its prompts are read, and what tab completion offers.

use vstd::prelude::*;

use crate::aspect::Music;
use crate::text::{chars_lt, chars_of, lowercase, same_text, to_lowercase};

verus! {

/// A command of the shell.
#[derive(Clone, Copy, Debug, PartialEq, Eq)]
pub enum Command {
    /// `help`, `h`
    Help,
    /// `print time`, `pt`
    PrintTime,
    /// `print time date`, `ptd`
    PrintTimeDate,
    /// `print max time`, `pmt`
    PrintMaxTime,
    /// `print artist`, `part`
    PrintArtist,
    /// `print album`, `palb`
    PrintAlbum,
    /// `print song`, `pson`
    PrintSong,
    /// `print songs`, `psons`
    PrintSongs,
    /// `print artist date`, `partd`
    PrintArtistDate,
    /// `print album date`, `palbd`
    PrintAlbumDate,
    /// `print song date`, `psond`
    PrintSongDate,
    /// `print songs date`, `psonsd`
    PrintSongsDate,
    /// `print top artists`, `ptarts`
    PrintTopArtists,
    /// `print top albums`, `ptalbs`
    PrintTopAlbums,
    /// `print top songs`, `ptsons`
    PrintTopSongs,
    /// `print day`, `pd`
    PrintDay,
    /// `plot`, `g`
    Plot,
    /// `plot rel`, `gr`
    PlotRelative,
    /// `plot compare`, `gc`
    PlotCompare,
    /// `plot compare rel`, `gcr`
    PlotCompareRelative,
    /// `plot top`, `gt`
    PlotTop,
    /// `plot artist albums`, `garta`
    PlotArtistAlbums,
    /// `plot artist albums rel`, `gartar`
    PlotArtistAlbumsRelative,
    /// `plot artist songs`, `garts`
    PlotArtistSongs,
    /// `plot artist songs rel`, `gartr`
    PlotArtistSongsRelative,
    /// `plot album songs`, `galbs`
    PlotAlbumSongs,
    /// `plot album songs rel`, `galbsr`
    PlotAlbumSongsRelative,
    /// `summarize artist`, `sa`
    SummarizeArtist,
    /// An empty input: nothing happens
    Nothing,
    /// Any other input: the command is not found
    NotFound,
}

/// The command that the input `inp` names.
pub open spec fn command_of(inp: Seq<char>) -> Command {
    if inp == "help"@ || inp == "h"@ { Command::Help }
    else if inp == "print time"@ || inp == "pt"@ { Command::PrintTime }
    else if inp == "print time date"@ || inp == "ptd"@ { Command::PrintTimeDate }
    else if inp == "print max time"@ || inp == "pmt"@ { Command::PrintMaxTime }
    else if inp == "print artist"@ || inp == "part"@ { Command::PrintArtist }
    else if inp == "print album"@ || inp == "palb"@ { Command::PrintAlbum }
    else if inp == "print song"@ || inp == "pson"@ { Command::PrintSong }
    else if inp == "print songs"@ || inp == "psons"@ { Command::PrintSongs }
    else if inp == "print artist date"@ || inp == "partd"@ { Command::PrintArtistDate }
    else if inp == "print album date"@ || inp == "palbd"@ { Command::PrintAlbumDate }
    else if inp == "print song date"@ || inp == "psond"@ { Command::PrintSongDate }
    else if inp == "print songs date"@ || inp == "psonsd"@ { Command::PrintSongsDate }
    else if inp == "print top artists"@ || inp == "ptarts"@ { Command::PrintTopArtists }
    else if inp == "print top albums"@ || inp == "ptalbs"@ { Command::PrintTopAlbums }
    else if inp == "print top songs"@ || inp == "ptsons"@ { Command::PrintTopSongs }
    else if inp == "print day"@ || inp == "pd"@ { Command::PrintDay }
    else if inp == "plot"@ || inp == "g"@ { Command::Plot }
    else if inp == "plot rel"@ || inp == "gr"@ { Command::PlotRelative }
    else if inp == "plot compare"@ || inp == "gc"@ { Command::PlotCompare }
    else if inp == "plot compare rel"@ || inp == "gcr"@ { Command::PlotCompareRelative }
    else if inp == "plot top"@ || inp == "gt"@ { Command::PlotTop }
    else if inp == "plot artist albums"@ || inp == "garta"@ || inp == "gaa"@ { Command::PlotArtistAlbums }
    else if inp == "plot artist albums rel"@ || inp == "gartar"@ { Command::PlotArtistAlbumsRelative }
    else if inp == "plot artist songs"@ || inp == "garts"@ { Command::PlotArtistSongs }
    else if inp == "plot artist songs rel"@ || inp == "gartr"@ { Command::PlotArtistSongsRelative }
    else if inp == "plot album songs"@ || inp == "galbs"@ { Command::PlotAlbumSongs }
    else if inp == "plot album songs rel"@ || inp == "galbsr"@ { Command::PlotAlbumSongsRelative }
    else if inp == "summarize artist"@ || inp == "sa"@ { Command::SummarizeArtist }
    else if inp.len() == 0 { Command::Nothing }
    else { Command::NotFound }
}

/// `a` is `b` or `c`.
fn is_either(a: &str, b: &str, c: &str) -> (r: bool)
    ensures
        r == (a@ == b@ || a@ == c@),
{
    same_text(a, b) || same_text(a, c)
}

/// Decides which command the user input names.
pub fn match_input(inp: &str) -> (r: Command)
    ensures
        r == command_of(inp@),
{
    if is_either(inp, "help", "h") { Command::Help }
    else if is_either(inp, "print time", "pt") { Command::PrintTime }
    else if is_either(inp, "print time date", "ptd") { Command::PrintTimeDate }
    else if is_either(inp, "print max time", "pmt") { Command::PrintMaxTime }
    else if is_either(inp, "print artist", "part") { Command::PrintArtist }
    else if is_either(inp, "print album", "palb") { Command::PrintAlbum }
    else if is_either(inp, "print song", "pson") { Command::PrintSong }
    else if is_either(inp, "print songs", "psons") { Command::PrintSongs }
    else if is_either(inp, "print artist date", "partd") { Command::PrintArtistDate }
    else if is_either(inp, "print album date", "palbd") { Command::PrintAlbumDate }
    else if is_either(inp, "print song date", "psond") { Command::PrintSongDate }
    else if is_either(inp, "print songs date", "psonsd") { Command::PrintSongsDate }
    else if is_either(inp, "print top artists", "ptarts") { Command::PrintTopArtists }
    else if is_either(inp, "print top albums", "ptalbs") { Command::PrintTopAlbums }
    else if is_either(inp, "print top songs", "ptsons") { Command::PrintTopSongs }
    else if is_either(inp, "print day", "pd") { Command::PrintDay }
    else if is_either(inp, "plot", "g") { Command::Plot }
    else if is_either(inp, "plot rel", "gr") { Command::PlotRelative }
    else if is_either(inp, "plot compare", "gc") { Command::PlotCompare }
    else if is_either(inp, "plot compare rel", "gcr") { Command::PlotCompareRelative }
    else if is_either(inp, "plot top", "gt") { Command::PlotTop }
    else if is_either(inp, "plot artist albums", "garta") || same_text(inp, "gaa") { Command::PlotArtistAlbums }
    else if is_either(inp, "plot artist albums rel", "gartar") { Command::PlotArtistAlbumsRelative }
    else if is_either(inp, "plot artist songs", "garts") { Command::PlotArtistSongs }
    else if is_either(inp, "plot artist songs rel", "gartr") { Command::PlotArtistSongsRelative }
    else if is_either(inp, "plot album songs", "galbs") { Command::PlotAlbumSongs }
    else if is_either(inp, "plot album songs rel", "galbsr") { Command::PlotAlbumSongsRelative }
    else if is_either(inp, "summarize artist", "sa") { Command::SummarizeArtist }
    else if inp.unicode_len() == 0 { Command::Nothing }
    else { Command::NotFound }
}

/// The input ends the shell: `exit`, `quit` or `q`.
pub open spec fn exit_input(inp: Seq<char>) -> bool {
    inp == "exit"@ || inp == "quit"@ || inp == "q"@
}

/// Whether the input ends the shell: `exit`, `quit` or `q`.
pub fn is_exit(inp: &str) -> (r: bool)
    ensures
        r == exit_input(inp@),
{
    is_either(inp, "exit", "quit") || same_text(inp, "q")
}

/// Which aspect to list or plot.
#[derive(Clone, Copy, Debug, PartialEq, Eq)]
pub enum Aspect {
    /// Artists
    Artists,
    /// Albums
    Albums,
    /// Songs
    Songs,
}

/// Reads an aspect: `artist`/`artists`, `album`/`albums` or `song`/`songs`.
pub fn parse_aspect(s: &str) -> (r: Option<Aspect>)
    ensures
        r == (if s@ == "artist"@ || s@ == "artists"@ {
            Some(Aspect::Artists)
        } else if s@ == "album"@ || s@ == "albums"@ {
            Some(Aspect::Albums)
        } else if s@ == "song"@ || s@ == "songs"@ {
            Some(Aspect::Songs)
        } else {
            None
        }),
{
    if is_either(s, "artist", "artists") {
        Some(Aspect::Artists)
    } else if is_either(s, "album", "albums") {
        Some(Aspect::Albums)
    } else if is_either(s, "song", "songs") {
        Some(Aspect::Songs)
    } else {
        None
    }
}

impl Aspect {
    /// The aspect's name as the shell prints it.
    pub fn name(&self) -> (r: &'static str)
        ensures
            r@ == match *self {
                Aspect::Artists => "artists"@,
                Aspect::Albums => "albums"@,
                Aspect::Songs => "songs"@,
            },
    {
        match self {
            Aspect::Artists => "artists",
            Aspect::Albums => "albums",
            Aspect::Songs => "songs",
        }
    }
}

/// Reads a yes/no answer: `Some(true)` for `yes`, `y` or `true`,
/// `Some(false)` for `no`, `n` or `false`, and `None` for anything else
/// (which counts as no).
pub fn parse_yes_no(s: &str) -> (r: Option<bool>)
    ensures
        r == (if s@ == "yes"@ || s@ == "y"@ || s@ == "true"@ {
            Some(true)
        } else if s@ == "no"@ || s@ == "n"@ || s@ == "false"@ {
            Some(false)
        } else {
            None
        }),
{
    if is_either(s, "yes", "y") || same_text(s, "true") {
        Some(true)
    } else if is_either(s, "no", "n") || same_text(s, "false") {
        Some(false)
    } else {
        None
    }
}

/// The digit value of a character, if it is an ASCII digit.
pub open spec fn digit_value(c: char) -> Option<nat> {
    if '0' <= c && c <= '9' {
        Some((c as nat - '0' as nat) as nat)
    } else {
        None
    }
}

/// `s` is made of ASCII digits only.
pub open spec fn all_digits(s: Seq<char>) -> bool {
    forall|i: int| 0 <= i < s.len() ==> #[trigger] digit_value(s[i]) is Some
}

/// The value of the decimal digits `s`.
pub open spec fn digits_value(s: Seq<char>) -> nat
    decreases s.len(),
{
    if s.len() == 0 {
        0
    } else {
        digits_value(s.drop_last()) * 10 + digit_value(s.last()).unwrap()
    }
}

/// The integer that `s` denotes as std's `str::parse` reads it: an optional
/// `+` (or, when `signed`, `-`) followed by at least one ASCII digit.
pub open spec fn integer_value(s: Seq<char>, signed: bool) -> Option<int> {
    if s.len() > 0 && (s[0] == '+' || (signed && s[0] == '-')) {
        let digits = s.drop_first();
        if digits.len() > 0 && all_digits(digits) {
            Some(if s[0] == '-' { -(digits_value(digits) as int) } else { digits_value(digits) as int })
        } else {
            None
        }
    } else if s.len() > 0 && all_digits(s) {
        Some(digits_value(s) as int)
    } else {
        None
    }
}

/// Reads the digits `cs[start..]` as a number, or `None` when it exceeds `limit`.
fn read_digits(cs: &Vec<char>, start: usize, limit: u64) -> (r: Option<u64>)
    requires
        start <= cs@.len(),
        all_digits(cs@.skip(start as int)),
        limit >= 9,
    ensures
        r matches Some(v) ==> v == digits_value(cs@.skip(start as int)) && v <= limit,
        r is None ==> digits_value(cs@.skip(start as int)) > limit,
{
    let ghost d = cs@.skip(start as int);
    let mut v: u64 = 0;
    let mut i: usize = start;
    while i < cs.len()
        invariant
            start <= i <= cs@.len(),
            d == cs@.skip(start as int),
            all_digits(d),
            v == digits_value(d.take(i - start)),
            v <= limit,
            limit >= 9,
        decreases cs@.len() - i,
    {
        proof {
            assert(d[i - start] == cs@[i as int]);
            assert(d.take(i - start + 1).drop_last() =~= d.take(i - start));
            assert(d.take(i - start + 1).last() == cs@[i as int]);
            assert(digit_value(d[i - start]) is Some);
        }
        let c = cs[i];
        let digit = (c as u32 - '0' as u32) as u64;
        if v > (limit - digit) / 10 {
            proof {
                lemma_digits_grow(d, (i - start) as int);
            }
            return None;
        }
        v = v * 10 + digit;
        i = i + 1;
    }
    assert(d.take(i - start) =~= d);
    Some(v)
}

/// The value of more digits is at least that of fewer.
proof fn lemma_digits_grow(d: Seq<char>, n: int)
    requires
        0 <= n < d.len(),
        all_digits(d),
    ensures
        digits_value(d) >= digits_value(d.take(n + 1)),
    decreases d.len(),
{
    if n + 1 < d.len() {
        let p = d.drop_last();
        assert(p.take(n + 1) =~= d.take(n + 1));
        assert(all_digits(p)) by {
            assert forall|i: int| 0 <= i < p.len() implies #[trigger] digit_value(p[i]) is Some by {
                assert(p[i] == d[i]);
            }
        }
        lemma_digits_grow(p, n);
        assert(digit_value(d[d.len() - 1]) is Some);
    } else {
        assert(d.take(n + 1) =~= d);
    }
}

/// Whether every character of `cs[start..]` is a digit.
fn digits_only(cs: &Vec<char>, start: usize) -> (r: bool)
    requires
        start <= cs@.len(),
    ensures
        r == all_digits(cs@.skip(start as int)),
{
    let mut i: usize = start;
    while i < cs.len()
        invariant
            start <= i <= cs@.len(),
            forall|k: int| start <= k < i ==> #[trigger] digit_value(cs@[k]) is Some,
        decreases cs@.len() - i,
    {
        if !('0' <= cs[i] && cs[i] <= '9') {
            assert(cs@.skip(start as int)[i - start] == cs@[i as int]);
            assert(!(digit_value(cs@.skip(start as int)[i - start]) is Some));
            return false;
        }
        i = i + 1;
    }
    assert forall|k: int| 0 <= k < cs@.skip(start as int).len() implies #[trigger] digit_value(cs@.skip(start as int)[k]) is Some by {
        assert(cs@.skip(start as int)[k] == cs@[start + k]);
    }
    true
}

/// Parses a whole number, as `str::parse::<usize>` does.
pub fn parse_usize(s: &str) -> (r: Option<usize>)
    ensures
        r == (match integer_value(s@, false) {
            Some(v) => if v <= usize::MAX { Some(v as usize) } else { None::<usize> },
            None => None::<usize>,
        }),
{
    let cs = chars_of(s);
    let start: usize = if cs.len() > 0 && cs[0] == '+' { 1 } else { 0 };
    assert(start == 1 ==> cs@.skip(1) =~= s@.drop_first());
    assert(start == 0 ==> cs@.skip(0) =~= s@);
    if start >= cs.len() || !digits_only(&cs, start) {
        return None;
    }
    match read_digits(&cs, start, usize::MAX as u64) {
        Some(v) => Some(v as usize),
        None => None,
    }
}

/// Parses a signed whole number, as `str::parse::<i64>` does.
pub fn parse_i64(s: &str) -> (r: Option<i64>)
    ensures
        r == (match integer_value(s@, true) {
            Some(v) => if i64::MIN <= v <= i64::MAX { Some(v as i64) } else { None::<i64> },
            None => None::<i64>,
        }),
{
    let cs = chars_of(s);
    let negative = cs.len() > 0 && cs[0] == '-';
    let start: usize = if cs.len() > 0 && (cs[0] == '+' || cs[0] == '-') { 1 } else { 0 };
    assert(start == 1 ==> cs@.skip(1) =~= s@.drop_first());
    assert(start == 0 ==> cs@.skip(0) =~= s@);
    if start >= cs.len() || !digits_only(&cs, start) {
        return None;
    }
    if negative {
        match read_digits(&cs, start, 9223372036854775808u64) {
            Some(v) => {
                if v == 9223372036854775808u64 {
                    Some(i64::MIN)
                } else {
                    Some(-(v as i64))
                }
            },
            None => None,
        }
    } else {
        match read_digits(&cs, start, i64::MAX as u64) {
            Some(v) => Some(v as i64),
            None => None,
        }
    }
}

/// The span of a whole number of days or weeks, in milliseconds, if it is a
/// valid duration (at most `i64::MAX / 1000` seconds either way).
pub open spec fn span_of(n: int, unit_seconds: int) -> Option<int> {
    let secs = n * unit_seconds;
    if i64::MIN <= secs <= i64::MAX && -9223372036854775 <= secs <= 9223372036854775 {
        Some(secs * 1000)
    } else {
        None
    }
}

/// How the span of `print max time` is given.
#[derive(Clone, Copy, Debug, PartialEq, Eq)]
pub enum SpanUnit {
    /// `days`
    Days,
    /// `weeks`
    Weeks,
}

/// Reads the unit of a span: `days` or `weeks`.
pub fn parse_span_unit(s: &str) -> (r: Option<SpanUnit>)
    ensures
        r == (if s@ == "days"@ {
            Some(SpanUnit::Days)
        } else if s@ == "weeks"@ {
            Some(SpanUnit::Weeks)
        } else {
            None
        }),
{
    if same_text(s, "days") {
        Some(SpanUnit::Days)
    } else if same_text(s, "weeks") {
        Some(SpanUnit::Weeks)
    } else {
        None
    }
}

/// The span of `n` days or weeks in milliseconds, or `None` when it is no
/// valid duration.
pub fn span_millis(unit: SpanUnit, n: i64) -> (r: Option<i64>)
    ensures
        r == (match span_of(n as int, match unit { SpanUnit::Days => 86_400int, SpanUnit::Weeks => 604_800int }) {
            Some(v) => Some(v as i64),
            None => None::<i64>,
        }),
{
    let unit_seconds: i64 = match unit {
        SpanUnit::Days => 86_400,
        SpanUnit::Weeks => 604_800,
    };
    let secs: i128 = n as i128 * unit_seconds as i128;
    assert(secs == n * unit_seconds) by (nonlinear_arith)
        requires
            secs == (n as i128) * (unit_seconds as i128),
    ;
    if secs < -9223372036854775 || secs > 9223372036854775 {
        return None;
    }
    Some((secs * 1000) as i64)
}

/// `c` starts with `p`.
pub open spec fn starts_with(c: Seq<char>, p: Seq<char>) -> bool {
    p.len() <= c.len() && c.take(p.len() as int) == p
}

/// The completions of `word` among `candidates`: those that start with it
/// when both are lowercased, in order.
pub open spec fn completions(candidates: Seq<Seq<char>>, word: Seq<char>) -> Seq<Seq<char>>
    decreases candidates.len(),
{
    if candidates.len() == 0 {
        seq![]
    } else if starts_with(lowercase(candidates.last()), lowercase(word)) {
        completions(candidates.drop_last(), word).push(candidates.last())
    } else {
        completions(candidates.drop_last(), word)
    }
}

/// Whether `c` starts with `p`.
pub(crate) fn has_prefix(c: &str, p: &str) -> (r: bool)
    ensures
        r == starts_with(c@, p@),
{
    let x = chars_of(c);
    let y = chars_of(p);
    if y.len() > x.len() {
        return false;
    }
    let mut i: usize = 0;
    while i < y.len()
        invariant
            x@ == c@,
            y@ == p@,
            y@.len() <= x@.len(),
            i <= y@.len(),
            x@.take(i as int) == y@.take(i as int),
        decreases y@.len() - i,
    {
        if x[i] != y[i] {
            assert(x@.take(y@.len() as int)[i as int] != y@[i as int]);
            return false;
        }
        i = i + 1;
        assert(x@.take(i as int) =~= x@.take(i - 1).push(x@[i - 1]));
        assert(y@.take(i as int) =~= y@.take(i - 1).push(y@[i - 1]));
    }
    assert(y@.take(y@.len() as int) =~= y@);
    true
}

/// Returns the completions of `word` among `candidates`: those that start
/// with it, ignoring case, in order.
pub fn complete(candidates: &Vec<String>, word: &str) -> (r: Vec<String>)
    ensures
        r@.map_values(|s: String| s@) == completions(candidates@.map_values(|s: String| s@), word@),
{
    let ghost cv = candidates@.map_values(|s: String| s@);
    let lower_word = to_lowercase(word);
    let mut r: Vec<String> = Vec::new();
    let mut i: usize = 0;
    while i < candidates.len()
        invariant
            i <= candidates@.len(),
            cv == candidates@.map_values(|s: String| s@),
            lower_word@ == lowercase(word@),
            r@.map_values(|s: String| s@) == completions(cv.take(i as int), word@),
        decreases candidates@.len() - i,
    {
        proof {
            assert(cv.take(i + 1).drop_last() =~= cv.take(i as int));
            assert(cv.take(i + 1).last() == candidates@[i as int]@);
        }
        let lower = to_lowercase(candidates[i].as_str());
        if has_prefix(lower.as_str(), lower_word.as_str()) {
            let ghost before = r@;
            r.push(candidates[i].clone());
            assert(r@.map_values(|s: String| s@) =~= before.map_values(|s: String| s@).push(candidates@[i as int]@));
        }
        i = i + 1;
    }
    assert(cv.take(cv.len() as int) =~= cv);
    r
}

/// The commands offered by tab completion at the command prompt, in order.
pub open spec fn completion_commands() -> Seq<Seq<char>> {
    seq![
        "help"@,
        "print time"@,
        "print time date"@,
        "print max time"@,
        "print artist"@,
        "print album"@,
        "print song"@,
        "print songs"@,
        "print artist date"@,
        "print album date"@,
        "print song date"@,
        "print songs date"@,
        "print top artists"@,
        "print top songs"@,
        "print day"@,
        "plot"@,
        "plot rel"@,
        "plot compare"@,
        "plot compare rel"@,
        "plot top"@,
        "plot artist albums"@,
        "plot artist albums rel"@,
        "plot artist songs"@,
        "plot artist songs rel"@,
        "plot album songs"@,
        "plot album songs rel"@,
        "summarize artist"@,
    ]
}

/// The commands offered by tab completion at the command prompt.
pub fn command_completions() -> (r: Vec<&'static str>)
    ensures
        r@.map_values(|c: &'static str| c@) == completion_commands(),
{
    let r = vec![
        "help",
        "print time",
        "print time date",
        "print max time",
        "print artist",
        "print album",
        "print song",
        "print songs",
        "print artist date",
        "print album date",
        "print song date",
        "print songs date",
        "print top artists",
        "print top songs",
        "print day",
        "plot",
        "plot rel",
        "plot compare",
        "plot compare rel",
        "plot top",
        "plot artist albums",
        "plot artist albums rel",
        "plot artist songs",
        "plot artist songs rel",
        "plot album songs",
        "plot album songs rel",
        "summarize artist",
    ];
    assert(r@.map_values(|c: &'static str| c@) =~= completion_commands());
    r
}

/// An error of the shell.
#[derive(Clone, Copy, Debug, PartialEq, Eq)]
pub enum UiError {
    /// A date could not be read
    ParseDate,
    /// A number could not be read
    ParseNum,
    /// An aspect could not be read
    ParseAspect,
    /// The prompt was interrupted: back to the command prompt, silently
    Interrupted,
    /// Nothing of this kind was found in the dataset
    NotFound(&'static str),
    /// The input is none of the valid ones
    InvalidArgument(&'static str),
    /// The end date is before the start date
    DateWrongOrder,
    /// A time span too long to be a duration
    TimeDeltaOverflow,
    /// Should never occur
    Unreachable,
}

/// The message of a shell error.
pub open spec fn ui_error_message(e: UiError) -> Seq<char> {
    match e {
        UiError::ParseDate => "Invalid date! It has to be in the YYYY-MM-DD format."@,
        UiError::ParseNum => "Invalid number!"@,
        UiError::ParseAspect => "Invalid aspect! Valid inputs: artist/s, album/s, song/s"@,
        UiError::Interrupted => ""@,
        UiError::NotFound(what) => "Sorry, I couldn't find this "@ + what@ + " in the dataset!"@,
        UiError::InvalidArgument(valid) => "Invalid argument! Valid inputs: "@ + valid@,
        UiError::DateWrongOrder => "Date range is in wrong order - end date is before start date!"@,
        UiError::TimeDeltaOverflow => "Use a sane time period"@,
        UiError::Unreachable => "Should never occur! Something very bad happened!"@,
    }
}

impl UiError {
    /// The message that the shell prints for this error.
    pub fn message(&self) -> (r: String)
        ensures
            r@ == ui_error_message(*self),
    {
        match self {
            UiError::ParseDate => "Invalid date! It has to be in the YYYY-MM-DD format.".to_owned(),
            UiError::ParseNum => "Invalid number!".to_owned(),
            UiError::ParseAspect => "Invalid aspect! Valid inputs: artist/s, album/s, song/s".to_owned(),
            UiError::Interrupted => "".to_owned(),
            UiError::NotFound(what) => {
                let mut m = "Sorry, I couldn't find this ".to_owned();
                crate::text::append_string(&mut m, &(*what).to_owned());
                crate::text::append_string(&mut m, &" in the dataset!".to_owned());
                m
            },
            UiError::InvalidArgument(valid) => {
                let mut m = "Invalid argument! Valid inputs: ".to_owned();
                crate::text::append_string(&mut m, &(*valid).to_owned());
                m
            },
            UiError::DateWrongOrder => "Date range is in wrong order - end date is before start date!".to_owned(),
            UiError::TimeDeltaOverflow => "Use a sane time period".to_owned(),
            UiError::Unreachable => "Should never occur! Something very bad happened!".to_owned(),
        }
    }
}

/// Checks that a date range is in order: the start strictly before the end.
pub fn date_range(start: i64, end: i64) -> (r: Result<(i64, i64), UiError>)
    ensures
        r == (if start < end { Ok((start, end)) } else { Err(UiError::DateWrongOrder) }),
{
    if start >= end {
        Err(UiError::DateWrongOrder)
    } else {
        Ok((start, end))
    }
}


/// Sorts strings in ascending order.
///
/// Trusted: calls `slice::sort` on the strings, which std documents as
/// sorting the slice (reordering its elements) so that each element is no
/// greater than the next; strings compare lexicographically by their UTF-8
/// bytes, which is the order of their characters' code points (`chars_lt`).
#[verifier::external_body]
fn sort_strings(v: &mut Vec<String>)
    ensures
        final(v)@.to_multiset() == old(v)@.to_multiset(),
        forall|i: int, j: int| 0 <= i < j < final(v)@.len() ==> !chars_lt(#[trigger] final(v)@[j]@, #[trigger] final(v)@[i]@),
{
    v.sort();
}

/// Sorts the list that tab completion offers, in ascending order.
pub fn completion_list(list: Vec<String>) -> (r: Vec<String>)
    ensures
        r@.to_multiset() == list@.to_multiset(),
        forall|i: int, j: int| 0 <= i < j < r@.len() ==> !chars_lt(#[trigger] r@[j]@, #[trigger] r@[i]@),
{
    let mut r = list;
    sort_strings(&mut r);
    r
}

/// The position of the first of `versions` whose name is `name`, if any.
pub fn find_named<T: Music>(versions: &Vec<T>, name: &str) -> (r: Option<usize>)
    ensures
        match r {
            Some(i) => i < versions@.len() && T::name_of(versions@[i as int]@) == name@
                && forall|k: int| 0 <= k < i ==> T::name_of(#[trigger] versions@[k]@) != name@,
            None => forall|k: int| 0 <= k < versions@.len() ==> T::name_of(#[trigger] versions@[k]@) != name@,
        },
{
    let mut i: usize = 0;
    while i < versions.len()
        invariant
            i <= versions@.len(),
            forall|k: int| 0 <= k < i ==> T::name_of(#[trigger] versions@[k]@) != name@,
        decreases versions@.len() - i,
    {
        let n = versions[i].name();
        if same_text(n.as_str(), name) {
            return Some(i);
        }
        i = i + 1;
    }
    None
}

} // verus!
