//! Text for displaying results: indents, list positions, durations,
//! file names and error messages.

use vstd::prelude::*;

use crate::text::{
    chars_of, decimal, push_char, push_decimal, push_repeated, push_signed_decimal,
    push_zero_padded, repeated, signed_decimal, zero_padded,
};

verus! {

/// Creates a string with the given number of spaces: an empty string if
/// `num` is above 100.
pub fn spaces(num: usize) -> (r: String)
    ensures
        r@ == (if num <= 100 { repeated(' ', num as nat) } else { Seq::<char>::empty() }),
{
    let mut r = String::new();
    if num <= 100 {
        push_repeated(&mut r, ' ', num);
    }
    r
}

/// The number of decimal digits of `n`, minus one (the base-10 logarithm, rounded down).
pub open spec fn log10(n: nat) -> nat
    decreases n,
{
    if n < 10 {
        0
    } else {
        1 + log10(n / 10)
    }
}

/// The base-10 logarithm is below the number itself.
proof fn lemma_log10_below(n: nat)
    requires
        n >= 1,
    ensures
        log10(n) < n,
    decreases n,
{
    if n >= 10 {
        lemma_log10_below(n / 10);
    }
}

/// The base-10 logarithm of `n`, rounded down.
fn ilog10(n: usize) -> (r: usize)
    requires
        n > 0,
    ensures
        r == log10(n as nat),
        r < n,
{
    proof {
        lemma_log10_below(n as nat);
    }
    let mut m = n;
    let mut r: usize = 0;
    while m >= 10
        invariant
            m > 0,
            r + log10(m as nat) == log10(n as nat),
            log10(n as nat) < n,
        decreases m,
    {
        m = m / 10;
        r = r + 1;
    }
    r
}

/// The position `num` as `#num`, preceded by as many spaces as `num` has
/// fewer digits than `max_num`: `7` is `  #7` in a top 100.
pub open spec fn position_text(num: nat, max_num: nat) -> Seq<char> {
    let indent = if log10(max_num) > log10(num) { (log10(max_num) - log10(num)) as nat } else { 0 };
    repeated(' ', indent) + seq!['#'] + decimal(num)
}

/// Formats `1` to ` #1` for a top 10, or to `  #1` for a top 100, etc.
///
/// `num` is the position, `max_num` the highest position displayed; both
/// must be above zero.
pub fn leading_whitespace(num: usize, max_num: usize) -> (r: String)
    requires
        num > 0,
        max_num > 0,
    ensures
        r@ == position_text(num as nat, max_num as nat),
{
    let zeros = ilog10(max_num);
    let digits = ilog10(num) + 1;
    let mut r = String::new();
    if digits <= zeros {
        push_repeated(&mut r, ' ', zeros - digits + 1);
    }
    push_char(&mut r, '#');
    push_decimal(&mut r, num as u64);
    r
}

/// A whitespace character, as std's `char::is_whitespace` documents it:
/// one with the Unicode `White_Space` property.
pub open spec fn is_whitespace(c: char) -> bool {
    ||| '\u{9}' <= c <= '\u{d}'
    ||| c == ' ' || c == '\u{85}' || c == '\u{a0}' || c == '\u{1680}'
    ||| '\u{2000}' <= c <= '\u{200a}'
    ||| c == '\u{2028}' || c == '\u{2029}' || c == '\u{202f}' || c == '\u{205f}' || c == '\u{3000}'
}

/// Whether `c` is a whitespace character.
fn whitespace(c: char) -> (r: bool)
    ensures
        r == is_whitespace(c),
{
    ('\u{9}' <= c && c <= '\u{d}') || c == ' ' || c == '\u{85}' || c == '\u{a0}' || c == '\u{1680}'
        || ('\u{2000}' <= c && c <= '\u{200a}')
        || c == '\u{2028}' || c == '\u{2029}' || c == '\u{202f}' || c == '\u{205f}' || c == '\u{3000}'
}

/// A character that file names cannot hold on Windows, or whitespace.
pub open spec fn forbidden_in_path(c: char) -> bool {
    is_whitespace(c) || c == '<' || c == '>' || c == ':' || c == '"' || c == '/' || c == '\\' || c == '|' || c == '?' || c == '*'
}

/// `path` with every forbidden character replaced by `_`; `_` if that is
/// empty or `.`.
pub open spec fn normalized_path(path: Seq<char>) -> Seq<char> {
    let replaced = path.map_values(|c: char| if forbidden_in_path(c) { '_' } else { c });
    if replaced.len() == 0 || replaced == seq!['.'] {
        seq!['_']
    } else {
        replaced
    }
}

/// Replaces the symbols that Windows forbids in file names, and whitespace,
/// with `_`, and replaces an empty name or `.` with `_`.
pub fn normalize_path(path: &str) -> (r: String)
    ensures
        r@ == normalized_path(path@),
        r@.len() > 0,
        r@ != seq!['.'],
        forall|i: int| 0 <= i < r@.len() ==> !forbidden_in_path(#[trigger] r@[i]),
{
    proof {
        lemma_normalized_path_valid(path@);
    }
    let cs = chars_of(path);
    let mut r = String::new();
    let mut i: usize = 0;
    let ghost replaced = path@.map_values(|c: char| if forbidden_in_path(c) { '_' } else { c });
    while i < cs.len()
        invariant
            cs@ == path@,
            i <= cs@.len(),
            replaced == path@.map_values(|c: char| if forbidden_in_path(c) { '_' } else { c }),
            r@ == replaced.subrange(0, i as int),
        decreases cs@.len() - i,
    {
        let c = cs[i];
        if whitespace(c) || c == '<' || c == '>' || c == ':' || c == '"' || c == '/' || c == '\\' || c == '|' || c == '?' || c == '*' {
            push_char(&mut r, '_');
        } else {
            push_char(&mut r, c);
        }
        i = i + 1;
        assert(r@ =~= replaced.subrange(0, i as int));
    }
    assert(replaced.subrange(0, replaced.len() as int) =~= replaced);
    if cs.len() == 0 {
        let mut u = String::new();
        push_char(&mut u, '_');
        assert(u@ =~= seq!['_']);
        return u;
    }
    if cs.len() == 1 && cs[0] == '.' {
        assert(replaced =~= seq!['.']);
        let mut u = String::new();
        push_char(&mut u, '_');
        assert(u@ =~= seq!['_']);
        return u;
    }
    assert(replaced != seq!['.']) by {
        if cs@.len() == 1 {
            assert(replaced[0] == (if forbidden_in_path(cs@[0]) { '_' } else { cs@[0] }));
        } else {
            assert(replaced.len() != 1);
        }
    }
    r
}

/// A normalized path is a valid file name: not empty, not `.`, and
/// without forbidden characters.
pub proof fn lemma_normalized_path_valid(path: Seq<char>)
    ensures
        normalized_path(path).len() > 0,
        normalized_path(path) != seq!['.'],
        forall|i: int| 0 <= i < normalized_path(path).len() ==> !forbidden_in_path(#[trigger] normalized_path(path)[i]),
{
    let replaced = path.map_values(|c: char| if forbidden_in_path(c) { '_' } else { c });
    assert(seq!['_'][0] != seq!['.'][0]);
    if replaced.len() == 1 && replaced != seq!['.'] {
        assert(replaced[0] != '.') by {
            if replaced[0] == '.' {
                assert(replaced =~= seq!['.']);
            }
        }
    }
}

/// Normalizing a normalized path changes nothing.
pub proof fn lemma_normalize_path_idempotent(path: Seq<char>)
    ensures
        normalized_path(normalized_path(path)) == normalized_path(path),
{
    let n = normalized_path(path);
    lemma_normalized_path_valid(path);
    let replaced = n.map_values(|c: char| if forbidden_in_path(c) { '_' } else { c });
    assert(replaced =~= n);
}

/// `a / b` rounded towards zero, as Rust divides integers.
pub open spec fn trunc_div(a: int, b: int) -> int {
    if a >= 0 {
        a / b
    } else {
        -((-a) / b)
    }
}

/// The remainder of `a / b` rounded towards zero, as Rust's `%` gives it.
pub open spec fn trunc_rem(a: int, b: int) -> int {
    a - b * trunc_div(a, b)
}

/// The whole seconds of a duration of `ms` milliseconds (rounded towards zero).
pub open spec fn num_seconds(ms: int) -> int {
    trunc_div(ms, 1000)
}

/// The whole minutes of a duration of `ms` milliseconds.
pub open spec fn num_minutes(ms: int) -> int {
    trunc_div(num_seconds(ms), 60)
}

/// The whole hours of a duration of `ms` milliseconds.
pub open spec fn num_hours(ms: int) -> int {
    trunc_div(num_seconds(ms), 3600)
}

/// The whole days of a duration of `ms` milliseconds.
pub open spec fn num_days(ms: int) -> int {
    trunc_div(num_seconds(ms), 86400)
}

/// `a / b` rounded towards zero, for a positive `b`.
pub(crate) fn div_trunc(a: i64, b: i64) -> (r: i64)
    requires
        b > 0,
        a > i64::MIN,
    ensures
        r == trunc_div(a as int, b as int),
        a >= 0 ==> r >= 0,
        a < 0 ==> r <= 0,
{
    if a >= 0 {
        a / b
    } else {
        let q = (-a) / b;
        -q
    }
}

/// An integer printed with at least two digits, zero-padded (`{:02}`):
/// a negative one gets its sign in front of at least one digit.
pub open spec fn two_digits(n: int) -> Seq<char> {
    if n < 0 {
        seq!['-'] + decimal((-n) as nat)
    } else {
        zero_padded(decimal(n as nat), 2)
    }
}

/// Appends `n` with at least two digits, zero-padded.
fn push_two_digits(out: &mut String, n: i64)
    requires
        n > i64::MIN,
    ensures
        final(out)@ == old(out)@ + two_digits(n as int),
{
    if n < 0 {
        push_char(out, '-');
        let ghost mid = out@;
        push_decimal(out, (-n) as u64);
        assert(out@ =~= old(out)@ + two_digits(n as int));
    } else {
        push_zero_padded(out, n as u64, 2);
    }
}

/// A duration as `HH:MM:SS`, or `MM:SS` when it is shorter than an hour.
pub open spec fn clock_text(ms: int) -> Seq<char> {
    let hours = num_hours(ms);
    let seconds = trunc_rem(num_seconds(ms), 60);
    if hours > 0 {
        two_digits(hours) + seq![':'] + two_digits(num_minutes(ms) % 60) + seq![':'] + two_digits(seconds)
    } else {
        two_digits(num_minutes(ms)) + seq![':'] + two_digits(seconds)
    }
}

/// Displays a duration of `ms` milliseconds as `HH:MM:SS`, or `MM:SS` when
/// it is shorter than an hour.
pub fn display_duration(ms: i64) -> (r: String)
    requires
        ms > i64::MIN,
    ensures
        r@ == clock_text(ms as int),
{
    let secs = div_trunc(ms, 1000);
    let hours = div_trunc(secs, 3600);
    let minutes = div_trunc(secs, 60);
    let seconds = secs - 60 * div_trunc(secs, 60);
    let mut r = String::new();
    if hours > 0 {
        push_two_digits(&mut r, hours);
        push_char(&mut r, ':');
        push_two_digits(&mut r, minutes % 60);
        push_char(&mut r, ':');
        push_two_digits(&mut r, seconds);
    } else {
        push_two_digits(&mut r, minutes);
        push_char(&mut r, ':');
        push_two_digits(&mut r, seconds);
    }
    r
}

/// A duration as `_m _s`, or `_s` when it is shorter than a minute.
pub open spec fn minutes_seconds_text(ms: int) -> Seq<char> {
    let seconds = num_seconds(ms);
    let minutes = num_minutes(ms);
    if minutes == 0 {
        signed_decimal(seconds) + seq!['s']
    } else {
        signed_decimal(minutes) + seq!['m', ' '] + signed_decimal(trunc_rem(seconds, 60)) + seq!['s']
    }
}

/// Pretty formats a duration of `ms` milliseconds as `_m _s`, or `_s` when
/// it is shorter than a minute.
pub fn pretty_duration(ms: i64) -> (r: String)
    requires
        ms > i64::MIN,
    ensures
        r@ == minutes_seconds_text(ms as int),
{
    let seconds = div_trunc(ms, 1000);
    let minutes = div_trunc(seconds, 60);
    let mut r = String::new();
    if minutes == 0 {
        push_signed_decimal(&mut r, seconds);
        push_char(&mut r, 's');
    } else {
        push_signed_decimal(&mut r, minutes);
        push_char(&mut r, 'm');
        push_char(&mut r, ' ');
        push_signed_decimal(&mut r, seconds - 60 * minutes);
        push_char(&mut r, 's');
    }
    r
}

/// A duration as `_d _h _m` (the hours within the day, the minutes within
/// the hour), `_h _m` under a day, `_m` under an hour, and `_s` under two
/// minutes.
pub open spec fn days_hours_minutes_text(ms: int) -> Seq<char> {
    let d = num_days(ms);
    let h = num_hours(ms);
    let m = num_minutes(ms);
    if m == 0 || m == 1 {
        signed_decimal(num_seconds(ms)) + seq!['s']
    } else if d > 0 {
        signed_decimal(d) + "d "@ + signed_decimal(trunc_rem(h, 24 * d)) + "h "@ + signed_decimal(trunc_rem(m, 60 * h)) + seq!['m']
    } else if h > 0 {
        signed_decimal(h) + "h "@ + signed_decimal(trunc_rem(m, 60 * h)) + seq!['m']
    } else {
        signed_decimal(m) + seq!['m']
    }
}

/// Appends `s` to `out`.
fn push_text(out: &mut String, s: &str)
    ensures
        final(out)@ == old(out)@ + s@,
{
    crate::text::append_string(out, &s.to_owned());
}

/// Formats a duration of `ms` milliseconds as `_d _h _m` for summary pages
/// (see [`days_hours_minutes_text`]).
pub fn days_hours_minutes(ms: i64) -> (r: String)
    requires
        ms > i64::MIN,
    ensures
        r@ == days_hours_minutes_text(ms as int),
{
    let secs = div_trunc(ms, 1000);
    let minutes = div_trunc(secs, 60);
    let hours = div_trunc(secs, 3600);
    let days = div_trunc(secs, 86400);
    let mut r = String::new();
    if minutes == 0 || minutes == 1 {
        push_signed_decimal(&mut r, secs);
        push_char(&mut r, 's');
    } else if days > 0 {
        assert(days <= 200_000_000_000);
        assert(hours <= 5_000_000_000_000);
        assert(hours >= 24 * days) by (nonlinear_arith)
            requires
                days == secs as int / 86400,
                hours == secs as int / 3600,
                secs >= 0,
        ;
        let dd = 24 * days;
        let hh = 60 * hours;
        let rh = hours % dd;
        let rm = minutes % hh;
        assert(rh == hours - dd * (hours / dd)) by (nonlinear_arith)
            requires
                dd > 0,
                hours >= 0,
                rh == hours % dd,
        ;
        assert(rm == minutes - hh * (minutes / hh)) by (nonlinear_arith)
            requires
                hh > 0,
                minutes >= 0,
                rm == minutes % hh,
        ;
        push_signed_decimal(&mut r, days);
        push_text(&mut r, "d ");
        push_signed_decimal(&mut r, rh);
        push_text(&mut r, "h ");
        push_signed_decimal(&mut r, rm);
        push_char(&mut r, 'm');
    } else if hours > 0 {
        assert(hours <= 5_000_000_000_000);
        let hh = 60 * hours;
        let rm = minutes % hh;
        assert(rm == minutes - hh * (minutes / hh)) by (nonlinear_arith)
            requires
                hh > 0,
                minutes >= 0,
                rm == minutes % hh,
        ;
        push_signed_decimal(&mut r, hours);
        push_text(&mut r, "h ");
        push_signed_decimal(&mut r, rm);
        push_char(&mut r, 'm');
    } else {
        push_signed_decimal(&mut r, minutes);
        push_char(&mut r, 'm');
    }
    r
}

/// Why a search for an artist, album or song failed.
#[derive(Clone, Copy, Debug, PartialEq, Eq)]
pub enum NotFoundError {
    /// Artist with that name was not found
    Artist,
    /// Album with that name from that artist was not found
    Album,
    /// Song with that name from that album and artist was not found
    Song,
}

impl NotFoundError {
    /// The error message.
    pub fn message(&self) -> (r: String)
        ensures
            r@ == match *self {
                NotFoundError::Artist => "Sorry, I couldn't find any artist with that name!"@,
                NotFoundError::Album => "Sorry, I couldn't find any album with that name from that artist!"@,
                NotFoundError::Song => "Sorry, I couldn't find any song with that name from that album and artist!"@,
            },
    {
        match self {
            NotFoundError::Artist => "Sorry, I couldn't find any artist with that name!".to_owned(),
            NotFoundError::Album => "Sorry, I couldn't find any album with that name from that artist!".to_owned(),
            NotFoundError::Song => "Sorry, I couldn't find any song with that name from that album and artist!".to_owned(),
        }
    }
}

} // verus!
