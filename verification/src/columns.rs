//! Lining up text in columns for the terminal: padding a phrase to a
//! displayed width and indenting the lines after the first.
//!
//! Displayed widths are what unicode-width computes; the library names
//! them and does not restate Unicode's width rules.

use vstd::prelude::*;

use crate::help::{color_code, Color, Command};
use crate::text::{append_string, push_char, push_repeated, repeated};

verus! {

/// The displayed width in columns of a text, as unicode-width's
/// `UnicodeWidthStr::width` computes it (ambiguous characters count 1).
pub uninterp spec fn display_width(s: Seq<char>) -> nat;

/// The displayed width in columns of a text, as unicode-width's
/// `UnicodeWidthStr::width_cjk` computes it (ambiguous characters count 2,
/// as in Chinese, Japanese and Korean contexts).
pub uninterp spec fn display_width_cjk(s: Seq<char>) -> nat;

/// The displayed width of `s`.
///
/// Trusted: calls `unicode_width::UnicodeWidthStr::width`, which is a
/// function of the text alone; claims that the result is [`display_width`]
/// of the text.
#[verifier::external_body]
fn width(s: &str) -> (r: usize)
    ensures
        r == display_width(s@),
{
    unicode_width::UnicodeWidthStr::width(s)
}

/// The displayed width of `s` in an East Asian context.
///
/// Trusted: calls `unicode_width::UnicodeWidthStr::width_cjk`, which is a
/// function of the text alone; claims that the result is
/// [`display_width_cjk`] of the text.
#[verifier::external_body]
fn width_cjk(s: &str) -> (r: usize)
    ensures
        r == display_width_cjk(s@),
{
    unicode_width::UnicodeWidthStr::width_cjk(s)
}

/// The padding of [`adjust_length`] can be computed: a phrase narrower than
/// `n` is no wider than `n` in an East Asian context.
pub open spec fn adjustable(phrase: Seq<char>, n: nat) -> bool {
    display_width(phrase) < n ==> display_width_cjk(phrase) <= n
}

/// `phrase` preceded by enough spaces to make it `n` columns wide (its
/// East Asian width counted), or unchanged if it is already that wide.
pub open spec fn adjusted(phrase: Seq<char>, n: nat) -> Seq<char> {
    if display_width(phrase) >= n {
        phrase
    } else {
        repeated(' ', (n - display_width_cjk(phrase)) as nat) + phrase
    }
}

/// Gives `phrase` enough preceding spaces to make it `new_length` columns
/// wide. Line breaks in `phrase` are not taken into account.
pub fn adjust_length(phrase: &str, new_length: usize) -> (r: String)
    requires
        adjustable(phrase@, new_length as nat),
    ensures
        r@ == adjusted(phrase@, new_length as nat),
{
    let ph = phrase.to_owned();
    if width(phrase) >= new_length {
        return ph;
    }
    let missing_spaces = new_length - width_cjk(phrase);
    let mut spaces = String::new();
    push_repeated(&mut spaces, ' ', missing_spaces);
    append_string(&mut spaces, &ph);
    spaces
}


/// The pieces of `s` between its newline characters (one more than there
/// are newlines; empty pieces included).
pub open spec fn newline_pieces(s: Seq<char>) -> Seq<Seq<char>>
    decreases s.len(),
{
    if s.len() == 0 {
        seq![seq![]]
    } else {
        let p = newline_pieces(s.drop_last());
        if s.last() == '\n' {
            p.push(seq![])
        } else {
            p.update(p.len() - 1, p.last().push(s.last()))
        }
    }
}

/// `line` without one trailing carriage return.
pub open spec fn without_cr(line: Seq<char>) -> Seq<char> {
    if line.len() > 0 && line.last() == '\r' {
        line.drop_last()
    } else {
        line
    }
}

/// The lines of `s` as std's `str::lines` gives them: split at `\n` or
/// `\r\n`, without the line endings; a final line ending adds no empty line.
pub open spec fn text_lines(s: Seq<char>) -> Seq<Seq<char>> {
    let p = newline_pieces(s);
    let ended = Seq::new(p.len(), |i: int| if i < p.len() - 1 { without_cr(p[i]) } else { p[i] });
    if p.last().len() == 0 {
        ended.drop_last()
    } else {
        ended
    }
}

/// Each line of `lines` after a line break and `num` spaces.
pub open spec fn indented_rest(lines: Seq<Seq<char>>, num: nat) -> Seq<char>
    decreases lines.len(),
{
    if lines.len() == 0 {
        seq![]
    } else {
        indented_rest(lines.drop_last(), num) + seq!['\n'] + repeated(' ', num) + lines.last()
    }
}

/// The first line of `phrase` as it is, the following lines each after
/// `num` spaces, joined by `\n`.
pub open spec fn prepended(phrase: Seq<char>, num: nat) -> Seq<char> {
    text_lines(phrase)[0] + indented_rest(text_lines(phrase).drop_first(), num)
}

/// There is always at least one piece, and the last piece is empty only
/// when `s` is empty or ends with a newline.
proof fn lemma_newline_pieces(s: Seq<char>)
    ensures
        newline_pieces(s).len() >= 1,
        newline_pieces(s).last().len() == 0 ==> s.len() == 0 || s.last() == '\n',
        s.len() > 0 && s.last() == '\n' ==> newline_pieces(s).len() >= 2,
    decreases s.len(),
{
    if s.len() > 0 {
        lemma_newline_pieces(s.drop_last());
    }
}

/// A text has lines exactly when it is not empty.
pub proof fn lemma_text_lines_nonempty(s: Seq<char>)
    ensures
        text_lines(s).len() > 0 <==> s.len() > 0,
{
    lemma_newline_pieces(s);
}

/// The texts of a vector of character vectors.
pub open spec fn char_texts(v: Seq<Vec<char>>) -> Seq<Seq<char>> {
    v.map_values(|x: Vec<char>| x@)
}

/// Splits `cs` at its newlines.
fn split_newlines(cs: &Vec<char>) -> (r: Vec<Vec<char>>)
    ensures
        char_texts(r@) == newline_pieces(cs@),
{
    let mut done: Vec<Vec<char>> = Vec::new();
    let mut current: Vec<char> = Vec::new();
    let mut i: usize = 0;
    while i < cs.len()
        invariant
            i <= cs@.len(),
            char_texts(done@).push(current@) == newline_pieces(cs@.take(i as int)),
        decreases cs@.len() - i,
    {
        let c = cs[i];
        proof {
            assert(cs@.take(i + 1).drop_last() =~= cs@.take(i as int));
            assert(cs@.take(i + 1).last() == c);
        }
        if c == '\n' {
            let ghost before = char_texts(done@);
            done.push(current);
            current = Vec::new();
            assert(char_texts(done@) =~= before.push(newline_pieces(cs@.take(i as int)).last()));
            assert(char_texts(done@).push(current@) =~= newline_pieces(cs@.take(i + 1)));
        } else {
            current.push(c);
            assert(char_texts(done@).push(current@) =~= newline_pieces(cs@.take(i + 1)));
        }
        i = i + 1;
    }
    assert(cs@.take(cs@.len() as int) =~= cs@);
    let ghost before = char_texts(done@);
    done.push(current);
    assert(char_texts(done@) =~= before.push(current@));
    done
}

/// `line` without one trailing carriage return.
fn strip_cr(line: Vec<char>) -> (r: Vec<char>)
    ensures
        r@ == without_cr(line@),
{
    let mut line = line;
    if line.len() > 0 && line[line.len() - 1] == '\r' {
        line.pop();
    }
    line
}

/// The lines of `cs` (see [`text_lines`]).
fn lines_of(cs: &Vec<char>) -> (r: Vec<Vec<char>>)
    ensures
        char_texts(r@) == text_lines(cs@),
{
    let pieces = split_newlines(cs);
    proof {
        lemma_newline_pieces(cs@);
    }
    let n = pieces.len();
    let ghost p = newline_pieces(cs@);
    let ghost ended = Seq::new(p.len(), |i: int| if i < p.len() - 1 { without_cr(p[i]) } else { p[i] });
    let mut r: Vec<Vec<char>> = Vec::new();
    let mut i: usize = 0;
    while i < n
        invariant
            n == pieces@.len(),
            char_texts(pieces@) == p,
            p.len() >= 1,
            ended == Seq::new(p.len(), |i: int| if i < p.len() - 1 { without_cr(p[i]) } else { p[i] }),
            i <= n,
            char_texts(r@) == ended.take(i as int),
        decreases n - i,
    {
        let piece = pieces[i].clone();
        assert(piece@ == p[i as int]);
        let line = if i + 1 < n { strip_cr(piece) } else { piece };
        let ghost before = char_texts(r@);
        r.push(line);
        assert(char_texts(r@) =~= before.push(ended[i as int]));
        assert(ended.take(i + 1) =~= ended.take(i as int).push(ended[i as int]));
        i = i + 1;
    }
    assert(ended.take(n as int) =~= ended);
    if pieces[n - 1].len() == 0 {
        assert(p.last().len() == 0);
        r.pop();
        assert(char_texts(r@) =~= ended.drop_last());
    }
    r
}

/// Appends the characters of `cs` to `out`.
fn push_chars(out: &mut String, cs: &Vec<char>)
    ensures
        final(out)@ == old(out)@ + cs@,
{
    let ghost start = out@;
    let mut i: usize = 0;
    while i < cs.len()
        invariant
            i <= cs@.len(),
            out@ == start + cs@.take(i as int),
        decreases cs@.len() - i,
    {
        push_char(out, cs[i]);
        i = i + 1;
        assert(out@ =~= start + cs@.take(i as int));
    }
    assert(cs@.take(cs@.len() as int) =~= cs@);
}

/// Leaves the first line of `phrase` as it is and puts `num` spaces before
/// each following line.
pub fn prepend_spaces_for_newline(phrase: &str, num: usize) -> (r: String)
    requires
        phrase@.len() > 0,
    ensures
        r@ == prepended(phrase@, num as nat),
{
    proof {
        lemma_text_lines_nonempty(phrase@);
    }
    let cs = crate::text::chars_of(phrase);
    let lines = lines_of(&cs);
    let ghost ls = char_texts(lines@);
    let mut new_phrase = String::new();
    push_chars(&mut new_phrase, &lines[0]);
    let ghost first = new_phrase@;
    assert(first == ls[0]);
    let mut i: usize = 1;
    while i < lines.len()
        invariant
            ls == char_texts(lines@),
            ls == text_lines(phrase@),
            1 <= i <= lines@.len(),
            first == ls[0],
            new_phrase@ == first + indented_rest(ls.subrange(1, i as int), num as nat),
        decreases lines@.len() - i,
    {
        push_char(&mut new_phrase, '\n');
        push_repeated(&mut new_phrase, ' ', num);
        push_chars(&mut new_phrase, &lines[i]);
        proof {
            let sub = ls.subrange(1, i + 1);
            assert(sub.drop_last() =~= ls.subrange(1, i as int));
            assert(sub.last() == lines@[i as int]@);
        }
        i = i + 1;
        assert(new_phrase@ =~= first + indented_rest(ls.subrange(1, i as int), num as nat));
    }
    assert(ls.subrange(1, ls.len() as int) =~= ls.drop_first());
    new_phrase
}

/// The text of a command in the command table: the name (red, padded to
/// 20 columns), ` => `, the description (its further lines indented by 16),
/// and on a new line the alias (pink, after `alias: ` padded to 31 columns).
pub open spec fn command_entry(name: Seq<char>, alias: Seq<char>, description: Seq<char>) -> Seq<char> {
    color_code(Color::Red) + adjusted(name, 20) + color_code(Color::Reset) + " => "@
        + prepended(description, 16) + seq!['\n'] + color_code(Color::Pink)
        + adjusted("alias: "@, 31) + alias + color_code(Color::Reset)
}

/// Appends `s` to `out`.
fn push_str(out: &mut String, s: &str)
    ensures
        final(out)@ == old(out)@ + s@,
{
    append_string(out, &s.to_owned());
}

/// Returns the text of a command in the command table (see
/// [`command_entry`]), or `None` where the name or the alias label cannot
/// be padded (see [`adjustable`]).
pub fn command_text(name: &str, alias: &str, description: &str) -> (r: Option<String>)
    requires
        description@.len() > 0,
    ensures
        r is None <==> !adjustable(name@, 20) || !adjustable("alias: "@, 31),
        r matches Some(t) ==> t@ == command_entry(name@, alias@, description@),
{
    let label = "alias: ";
    let fits_name = width(name) >= 20 || width_cjk(name) <= 20;
    let fits_label = width(label) >= 31 || width_cjk(label) <= 31;
    if !fits_name || !fits_label {
        return None;
    }
    let mut t = String::new();
    push_str(&mut t, Color::Red.code());
    let padded = adjust_length(name, 20);
    append_string(&mut t, &padded);
    push_str(&mut t, Color::Reset.code());
    push_str(&mut t, " => ");
    let described = prepend_spaces_for_newline(description, 16);
    append_string(&mut t, &described);
    push_char(&mut t, '\n');
    push_str(&mut t, Color::Pink.code());
    let padded_label = adjust_length(label, 31);
    append_string(&mut t, &padded_label);
    push_str(&mut t, alias);
    push_str(&mut t, Color::Reset.code());
    Some(t)
}

/// ` phrase commands ` framed by `k` `=` on each side.
pub open spec fn framed(phrase: Seq<char>, k: nat) -> Seq<char> {
    repeated('=', k) + seq![' '] + phrase + " commands "@ + repeated('=', k)
}

/// A text `w` columns wide (East Asian width) is centered around column
/// `start` (or `start` and the next), or already reaches past `end`. Half
/// its width must be at least 3 columns.
pub open spec fn centered_enough(w: nat, start: nat, end: nat) -> bool {
    &&& w / 2 >= 3
    &&& (w / 2 - 3 == start || w / 2 - 3 + 1 == start || w / 2 - 3 > end)
}

/// Round `k` is the first at which the framed phrase is centered enough.
pub open spec fn first_centered(phrase: Seq<char>, start: nat, end: nat, k: nat) -> bool {
    &&& centered_enough(display_width_cjk(framed(phrase, k)), start, end)
    &&& forall|j: nat| j < k ==> {
        &&& display_width_cjk(#[trigger] framed(phrase, j)) / 2 >= 3
        &&& !centered_enough(display_width_cjk(framed(phrase, j)), start, end)
    }
}

/// `m` is the fewest `=` that make `t` at least `end` columns wide.
pub open spec fn first_filled(t: Seq<char>, end: nat, m: nat) -> bool {
    &&& display_width_cjk(t + repeated('=', m)) >= end
    &&& forall|j: nat| j < m ==> display_width_cjk(#[trigger] (t + repeated('=', j))) < end
}

/// `x` is ` phrase commands ` centered around column `start` with `=` on
/// both sides, then filled with `=` to column `end`, within the rounds that
/// [`center_phrase`] tries.
pub open spec fn is_centered_phrase(x: Seq<char>, phrase: Seq<char>, start: nat, end: nat) -> bool {
    exists|k: nat, m: nat| {
        &&& k <= end + 3
        &&& m <= end
        &&& #[trigger] first_centered(phrase, start, end, k)
        &&& #[trigger] first_filled(framed(phrase, k), end, m)
        &&& x == framed(phrase, k) + repeated('=', m)
    }
}

/// Builds ` phrase commands ` framed by `k` `=` on each side.
fn framed_text(phrase: &str, k: usize) -> (r: String)
    ensures
        r@ == framed(phrase@, k as nat),
{
    let mut r = String::new();
    push_repeated(&mut r, '=', k);
    push_char(&mut r, ' ');
    push_str(&mut r, phrase);
    push_str(&mut r, " commands ");
    push_repeated(&mut r, '=', k);
    r
}

/// Centers ` phrase commands ` around the columns `start` and `start + 1`
/// by framing it with `=` on both sides, then fills it with `=` up to column
/// `end`. Each `=` takes one column, so this takes fewer than `end + 3`
/// rounds of framing and `end` of filling; `None` where the widths that
/// unicode-width computes do not allow it within these rounds.
pub fn center_phrase(phrase: &str, start: usize, end: usize) -> (r: Option<String>)
    requires
        end + 3 <= usize::MAX,
    ensures
        r is Some <==> exists|x: Seq<char>| #[trigger] is_centered_phrase(x, phrase@, start as nat, end as nat),
        r matches Some(x) ==> is_centered_phrase(x@, phrase@, start as nat, end as nat),
{
    let mut k: usize = 0;
    let mut new_phrase = framed_text(phrase, 0);
    loop
        invariant
            end + 3 <= usize::MAX,
            k <= end + 3,
            new_phrase@ == framed(phrase@, k as nat),
            forall|j: nat| j < k ==> {
                &&& display_width_cjk(#[trigger] framed(phrase@, j)) / 2 >= 3
                &&& !centered_enough(display_width_cjk(framed(phrase@, j)), start as nat, end as nat)
            },
        ensures
            k <= end + 3,
            new_phrase@ == framed(phrase@, k as nat),
            first_centered(phrase@, start as nat, end as nat, k as nat),
        decreases end + 3 - k,
    {
        let w = width_cjk(new_phrase.as_str());
        if w / 2 < 3 {
            proof {
                assert forall|x: Seq<char>| !is_centered_phrase(x, phrase@, start as nat, end as nat) by {
                    if is_centered_phrase(x, phrase@, start as nat, end as nat) {
                        let (kk, mm) = choose|kk: nat, mm: nat| {
                            &&& kk <= end + 3
                            &&& mm <= end
                            &&& #[trigger] first_centered(phrase@, start as nat, end as nat, kk)
                            &&& #[trigger] first_filled(framed(phrase@, kk), end as nat, mm)
                            &&& x == framed(phrase@, kk) + repeated('=', mm)
                        };
                        if kk > k {
                            assert(display_width_cjk(framed(phrase@, k as nat)) / 2 >= 3);
                        }
                    }
                }
            }
            return None;
        }
        let length = w / 2 - 3;
        if length == start || length + 1 == start || length > end {
            break;
        }
        if k == end + 3 {
            proof {
                assert forall|x: Seq<char>| !is_centered_phrase(x, phrase@, start as nat, end as nat) by {
                    if is_centered_phrase(x, phrase@, start as nat, end as nat) {
                        let (kk, mm) = choose|kk: nat, mm: nat| {
                            &&& kk <= end + 3
                            &&& mm <= end
                            &&& #[trigger] first_centered(phrase@, start as nat, end as nat, kk)
                            &&& #[trigger] first_filled(framed(phrase@, kk), end as nat, mm)
                            &&& x == framed(phrase@, kk) + repeated('=', mm)
                        };
                        if kk < k {
                            assert(!centered_enough(display_width_cjk(framed(phrase@, kk)), start as nat, end as nat));
                        }
                    }
                }
            }
            return None;
        }
        k = k + 1;
        new_phrase = framed_text(phrase, k);
    }
    let ghost t = new_phrase@;
    assert(first_centered(phrase@, start as nat, end as nat, k as nat));
    let mut m: usize = 0;
    while width_cjk(new_phrase.as_str()) < end
        invariant
            m <= end,
            t == framed(phrase@, k as nat),
            first_centered(phrase@, start as nat, end as nat, k as nat),
            k <= end + 3,
            new_phrase@ == t + repeated('=', m as nat),
            forall|j: nat| j < m ==> display_width_cjk(#[trigger] (t + repeated('=', j))) < end,
        decreases end - m,
    {
        if m == end {
            proof {
                assert forall|x: Seq<char>| !is_centered_phrase(x, phrase@, start as nat, end as nat) by {
                    if is_centered_phrase(x, phrase@, start as nat, end as nat) {
                        let (kk, mm) = choose|kk: nat, mm: nat| {
                            &&& kk <= end + 3
                            &&& mm <= end
                            &&& #[trigger] first_centered(phrase@, start as nat, end as nat, kk)
                            &&& #[trigger] first_filled(framed(phrase@, kk), end as nat, mm)
                            &&& x == framed(phrase@, kk) + repeated('=', mm)
                        };
                        lemma_first_centered_unique(phrase@, start as nat, end as nat, kk, k as nat);
                        assert(display_width_cjk(t + repeated('=', mm)) < end);
                    }
                }
            }
            return None;
        }
        push_char(&mut new_phrase, '=');
        proof {
            assert(repeated('=', (m + 1) as nat) =~= repeated('=', m as nat).push('='));
            assert(t + repeated('=', (m + 1) as nat) =~= (t + repeated('=', m as nat)).push('='));
        }
        m = m + 1;
    }
    proof {
        assert(first_filled(t, end as nat, m as nat));
        assert(is_centered_phrase(new_phrase@, phrase@, start as nat, end as nat));
    }
    Some(new_phrase)
}

/// The first centered round is unique.
proof fn lemma_first_centered_unique(phrase: Seq<char>, start: nat, end: nat, a: nat, b: nat)
    requires
        first_centered(phrase, start, end, a),
        first_centered(phrase, start, end, b),
    ensures
        a == b,
{
    if a < b {
        assert(!centered_enough(display_width_cjk(framed(phrase, a)), start, end));
    } else if b < a {
        assert(!centered_enough(display_width_cjk(framed(phrase, b)), start, end));
    }
}

/// The lines of a section of the command table: its title, ` title
/// commands ` centered between `=`s (light green), then each command.
pub open spec fn is_section(lines: Seq<Seq<char>>, title: Seq<char>, commands: Seq<Command>) -> bool {
    &&& lines.len() == commands.len() + 1
    &&& exists|x: Seq<char>| #[trigger] is_centered_phrase(x, title, 22, 50)
            && lines[0] == color_code(Color::LightGreen) + x + color_code(Color::Reset)
    &&& forall|i: int| 0 <= i < commands.len() ==> lines[i + 1] == #[trigger] command_entry(commands[i].0@, commands[i].1@, commands[i].2@)
}

/// Every command of `commands` can be shown: its name can be padded.
pub open spec fn all_adjustable(commands: Seq<Command>) -> bool {
    &&& adjustable("alias: "@, 31)
    &&& forall|i: int| 0 <= i < commands.len() ==> adjustable(#[trigger] commands[i].0@, 20)
}

/// The texts of strings.
pub open spec fn texts(v: Seq<String>) -> Seq<Seq<char>> {
    v.map_values(|x: String| x@)
}

/// A section of the command table can be shown: its title can be centered
/// and its commands padded.
pub open spec fn section_ok(title: Seq<char>, commands: Seq<Command>) -> bool {
    &&& exists|x: Seq<char>| #[trigger] is_centered_phrase(x, title, 22, 50)
    &&& all_adjustable(commands)
}

/// Returns the lines of a section of the command table (see [`is_section`]),
/// or `None` where the title cannot be centered or a command not padded.
pub fn section(title: &str, commands: &Vec<Command>) -> (r: Option<Vec<String>>)
    requires
        forall|i: int| 0 <= i < commands@.len() ==> (#[trigger] commands@[i]).2@.len() > 0,
    ensures
        r is Some <==> (exists|x: Seq<char>| #[trigger] is_centered_phrase(x, title@, 22, 50)) && all_adjustable(commands@),
        r matches Some(v) ==> is_section(texts(v@), title@, commands@),
{
    let centered = match center_phrase(title, 22, 50) {
        Some(c) => c,
        None => return None,
    };
    let mut head = Color::LightGreen.code().to_owned();
    append_string(&mut head, &centered);
    push_str(&mut head, Color::Reset.code());
    let mut lines: Vec<String> = Vec::new();
    lines.push(head);
    let mut i: usize = 0;
    while i < commands.len()
        invariant
            i <= commands@.len(),
            forall|k: int| 0 <= k < commands@.len() ==> (#[trigger] commands@[k]).2@.len() > 0,
            lines@.len() == i + 1,
            is_centered_phrase(centered@, title@, 22, 50),
            lines@[0]@ == color_code(Color::LightGreen) + centered@ + color_code(Color::Reset),
            adjustable("alias: "@, 31) || i == 0,
            forall|k: int| 0 <= k < i ==> adjustable(#[trigger] commands@[k].0@, 20),
            forall|k: int| 0 <= k < i ==> lines@[k + 1]@ == #[trigger] command_entry(commands@[k].0@, commands@[k].1@, commands@[k].2@),
        decreases commands@.len() - i,
    {
        let c = commands[i];
        assert(c.2@.len() > 0);
        match command_text(c.0, c.1, c.2) {
            Some(t) => lines.push(t),
            None => {
                assert(!all_adjustable(commands@));
                return None;
            },
        }
        i = i + 1;
    }
    if commands.len() == 0 {
        let fits_label = width("alias: ") >= 31 || width_cjk("alias: ") <= 31;
        if !fits_label {
            return None;
        }
    }
    proof {
        assert(texts(lines@).len() == commands@.len() + 1);
        assert forall|k: int| 0 <= k < commands@.len() implies texts(lines@)[k + 1] == #[trigger] command_entry(commands@[k].0@, commands@[k].1@, commands@[k].2@) by {
            assert(texts(lines@)[k + 1] == lines@[k + 1]@);
        }
        assert(texts(lines@)[0] == lines@[0]@);
    }
    Some(lines)
}

/// The meta commands of the command table.
pub open spec fn meta_table() -> Seq<Command> {
    seq![
        Command("help", "h", "prints this command list"),
        Command("exit", "quit", "exits the program"),
    ]
}

/// The print commands of the command table.
pub open spec fn print_table() -> Seq<Command> {
    seq![
        Command("print artist", "part", "prints every album from the artist\n        opens another prompt where you input the artist name"),
        Command("print album", "palb", "prints every song from the album\n        opens another prompt where you input the artist name\n        and then the album name"),
        Command("print song", "pson", "prints a song\n        opens another prompt where you input the artist name\n        and then the album name\n        and then the song name"),
        Command("print songs", "psons", "prints a song with all the albums it may be from\n        opens another prompt where you input the artist name\n        and then the song name"),
        Command("print artist date", "partd", "prints every album from the artist within a date range\n        opens another prompt where you input the artist name\n        and then the date range"),
        Command("print album date", "palbd", "prints every song from the album within a date range\n        opens another prompt where you input the artist name\n        and then the album name"),
        Command("print song date", "psond", "prints a song within a date range\n        opens another prompt where you input the artist name\n        and then the album name\n        and then the song name\n        and then the date range"),
        Command("print songs date", "psonsd", "prints a song with all the albums it may be from within a date range\n        opens another prompt where you input the artist name\n        and then the song name\n        and then the date range"),
    ]
}

/// The print top commands of the command table.
pub open spec fn print_top_table() -> Seq<Command> {
    seq![
        Command("print top artists", "ptarts", "prints top n artists"),
        Command("print top albums", "ptalbs", "prints top n albums"),
        Command("print top songs", "ptsons", "prints top n songs"),
    ]
}

/// The graph commands of the command table.
pub open spec fn graph_table() -> Seq<Command> {
    seq![
        Command("graph placeholder", "gphd", "placeholder description"),
    ]
}

/// Returns the meta commands of the command table.
pub fn meta_commands() -> (r: Vec<Command>)
    ensures
        r@ == meta_table(),
{
    vec![
        Command("help", "h", "prints this command list"),
        Command("exit", "quit", "exits the program"),
    ]
}

/// Returns the print commands of the command table.
pub fn print_commands() -> (r: Vec<Command>)
    ensures
        r@ == print_table(),
{
    vec![
        Command("print artist", "part", "prints every album from the artist\n        opens another prompt where you input the artist name"),
        Command("print album", "palb", "prints every song from the album\n        opens another prompt where you input the artist name\n        and then the album name"),
        Command("print song", "pson", "prints a song\n        opens another prompt where you input the artist name\n        and then the album name\n        and then the song name"),
        Command("print songs", "psons", "prints a song with all the albums it may be from\n        opens another prompt where you input the artist name\n        and then the song name"),
        Command("print artist date", "partd", "prints every album from the artist within a date range\n        opens another prompt where you input the artist name\n        and then the date range"),
        Command("print album date", "palbd", "prints every song from the album within a date range\n        opens another prompt where you input the artist name\n        and then the album name"),
        Command("print song date", "psond", "prints a song within a date range\n        opens another prompt where you input the artist name\n        and then the album name\n        and then the song name\n        and then the date range"),
        Command("print songs date", "psonsd", "prints a song with all the albums it may be from within a date range\n        opens another prompt where you input the artist name\n        and then the song name\n        and then the date range"),
    ]
}

/// Returns the print top commands of the command table.
pub fn print_top_commands() -> (r: Vec<Command>)
    ensures
        r@ == print_top_table(),
{
    vec![
        Command("print top artists", "ptarts", "prints top n artists"),
        Command("print top albums", "ptalbs", "prints top n albums"),
        Command("print top songs", "ptsons", "prints top n songs"),
    ]
}

/// Returns the graph commands of the command table.
pub fn graph_commands() -> (r: Vec<Command>)
    ensures
        r@ == graph_table(),
{
    vec![
        Command("graph placeholder", "gphd", "placeholder description"),
    ]
}

/// The command table: the meta, print, print top and graph sections.
pub open spec fn is_command_table(lines: Seq<Seq<char>>) -> bool {
    exists|a: Seq<Seq<char>>, b: Seq<Seq<char>>, c: Seq<Seq<char>>, d: Seq<Seq<char>>| {
        &&& #[trigger] is_section(a, "meta"@, meta_table())
        &&& #[trigger] is_section(b, "print"@, print_table())
        &&& #[trigger] is_section(c, "print top"@, print_top_table())
        &&& #[trigger] is_section(d, "graph"@, graph_table())
        &&& lines == a + b + c + d
    }
}

/// Appends the lines of `more` to `lines`.
fn append_lines(lines: &mut Vec<String>, more: Vec<String>)
    ensures
        texts(final(lines)@) == texts(old(lines)@) + texts(more@),
{
    let ghost start = texts(lines@);
    let mut i: usize = 0;
    while i < more.len()
        invariant
            i <= more@.len(),
            texts(lines@) == start + texts(more@).take(i as int),
        decreases more@.len() - i,
    {
        let ghost before = lines@;
        lines.push(more[i].clone());
        assert(texts(lines@) =~= texts(before).push(more@[i as int]@));
        i = i + 1;
        assert(texts(lines@) =~= start + texts(more@).take(i as int));
    }
    assert(texts(more@).take(more@.len() as int) =~= texts(more@));
}

/// Returns the lines of the command table: the meta, print, print top and
/// graph commands, each section under its centered title; `None` where a
/// title cannot be centered or a command not padded.
pub fn command_table() -> (r: Option<Vec<String>>)
    ensures
        r is Some <==> section_ok("meta"@, meta_table()) && section_ok("print"@, print_table())
            && section_ok("print top"@, print_top_table()) && section_ok("graph"@, graph_table()),
        r matches Some(v) ==> is_command_table(texts(v@)),
{
    let meta = meta_commands();
    let prints = print_commands();
    let tops = print_top_commands();
    let graphs = graph_commands();
    proof {
        reveal_strlit("prints this command list");
        reveal_strlit("exits the program");
        reveal_strlit("prints top n artists");
        reveal_strlit("prints top n albums");
        reveal_strlit("prints top n songs");
        reveal_strlit("placeholder description");
        reveal_strlit("prints every album from the artist\n        opens another prompt where you input the artist name");
        reveal_strlit("prints every song from the album\n        opens another prompt where you input the artist name\n        and then the album name");
        reveal_strlit("prints a song\n        opens another prompt where you input the artist name\n        and then the album name\n        and then the song name");
        reveal_strlit("prints a song with all the albums it may be from\n        opens another prompt where you input the artist name\n        and then the song name");
        reveal_strlit("prints every album from the artist within a date range\n        opens another prompt where you input the artist name\n        and then the date range");
        reveal_strlit("prints every song from the album within a date range\n        opens another prompt where you input the artist name\n        and then the album name");
        reveal_strlit("prints a song within a date range\n        opens another prompt where you input the artist name\n        and then the album name\n        and then the song name\n        and then the date range");
        reveal_strlit("prints a song with all the albums it may be from within a date range\n        opens another prompt where you input the artist name\n        and then the song name\n        and then the date range");
    }
    let a = match section("meta", &meta) { Some(v) => v, None => return None };
    let b = match section("print", &prints) { Some(v) => v, None => return None };
    let c = match section("print top", &tops) { Some(v) => v, None => return None };
    let d = match section("graph", &graphs) { Some(v) => v, None => return None };
    let ghost (ta, tb, tc, td) = (texts(a@), texts(b@), texts(c@), texts(d@));
    let mut lines: Vec<String> = Vec::new();
    assert(texts(lines@) =~= Seq::<Seq<char>>::empty());
    append_lines(&mut lines, a);
    append_lines(&mut lines, b);
    append_lines(&mut lines, c);
    append_lines(&mut lines, d);
    proof {
        assert(texts(lines@) =~= ta + tb + tc + td);
        assert(is_section(ta, "meta"@, meta_table()));
    }
    Some(lines)
}

} // verus!
