//! The command list that the `help` command of the shell prints.
//!
//! Each command is shown with its name right-aligned, its description
//! wrapped to lines of 40 columns, and its alias below it.

use vstd::prelude::*;

use crate::command::{self, command_of, exit_input};
use crate::text::{append_string, push_char, push_repeated, repeated};

verus! {

/// ANSI terminal colors.
#[derive(Clone, Copy, Debug, PartialEq, Eq)]
pub enum Color {
    /// Resets the following text
    Reset,
    /// Makes the following text green
    Green,
    /// Makes the following text light green
    LightGreen,
    /// Makes the following text cyan
    Cyan,
    /// Makes the following text red
    Red,
    /// Makes the following text pink
    Pink,
}

/// The escape sequence of a color.
pub open spec fn color_code(c: Color) -> Seq<char> {
    match c {
        Color::Reset => "\x1b[0m"@,
        Color::Green => "\x1b[1;32m"@,
        Color::LightGreen => "\x1b[0;32m"@,
        Color::Cyan => "\x1b[1;36m"@,
        Color::Red => "\x1b[1;31m"@,
        Color::Pink => "\x1b[1;35m"@,
    }
}

impl Color {
    /// The escape sequence that switches the terminal to this color.
    pub fn code(&self) -> (r: &'static str)
        ensures
            r@ == color_code(*self),
    {
        match self {
            Color::Reset => "\x1b[0m",
            Color::Green => "\x1b[1;32m",
            Color::LightGreen => "\x1b[0;32m",
            Color::Cyan => "\x1b[1;36m",
            Color::Red => "\x1b[1;31m",
            Color::Pink => "\x1b[1;35m",
        }
    }
}

/// A command of the shell: its name, alias and description.
#[derive(Clone, Copy, Debug)]
pub struct Command(pub &'static str, pub &'static str, pub &'static str);

/// The lines into which textwrap wraps `text` to `width` columns (with its
/// default options).
pub uninterp spec fn wrapped_lines(text: Seq<char>, width: nat) -> Seq<Seq<char>>;

/// Wraps a text into lines of at most `width` columns.
///
/// Trusted: calls `textwrap::wrap` with the width as its options and copies
/// each line into a `String`. The contract names the lines.
#[verifier::external_body]
fn wrap(text: &str, width: usize) -> (r: Vec<String>)
    ensures
        r@.len() == wrapped_lines(text@, width as nat).len(),
        forall|i: int| 0 <= i < r@.len() ==> #[trigger] r@[i]@ == wrapped_lines(text@, width as nat)[i],
{
    textwrap::wrap(text, width).into_iter().map(|line| line.into_owned()).collect()
}

/// `s` right-aligned in `width` columns (counted in characters), filled with spaces.
pub open spec fn right_aligned(s: Seq<char>, width: nat) -> Seq<char> {
    if s.len() >= width {
        s
    } else {
        repeated(' ', (width - s.len()) as nat) + s
    }
}

/// `s` centered in `width` columns (counted in characters), filled with
/// `fill`; an odd fill puts the extra character on the right.
pub open spec fn centered(s: Seq<char>, width: nat, fill: char) -> Seq<char> {
    if s.len() >= width {
        s
    } else {
        let pad = (width - s.len()) as nat;
        repeated(fill, pad / 2) + s + repeated(fill, (pad - pad / 2) as nat)
    }
}

/// Width of the command name column.
pub const COMMAND_LENGTH: usize = 20;

/// Width of a description line.
pub const DESCRIPTION_LENGTH: usize = 40;

/// Width of a whole line: name, ` => ` and description.
pub const FULL_LENGTH: usize = 64;

/// The spaces before a description line that is not the first one, or an alias.
pub const INDENT_LENGTH: usize = 24;

/// The title line of a section: ` title commands `, centered between `=`s.
pub open spec fn title_line(title: Seq<char>) -> Seq<char> {
    color_code(Color::LightGreen) + centered(seq![' '] + title + " commands "@, 64, '=') + color_code(Color::Reset)
}

/// The first line of a wrapped description (empty if there is none).
pub open spec fn first_line(wrapped: Seq<Seq<char>>) -> Seq<char> {
    if wrapped.len() > 0 {
        wrapped[0]
    } else {
        Seq::empty()
    }
}

/// The lines of a wrapped description after the first one.
pub open spec fn other_lines(wrapped: Seq<Seq<char>>) -> Seq<Seq<char>> {
    if wrapped.len() > 0 {
        wrapped.skip(1)
    } else {
        Seq::empty()
    }
}

/// The lines showing one command: the name right-aligned before the first
/// line of the description, the other lines of the description indented,
/// and then the alias.
pub open spec fn command_lines(c: Command, wrapped: Seq<Seq<char>>) -> Seq<Seq<char>> {
    seq![color_code(Color::Red) + right_aligned(c.0@, 20) + color_code(Color::Reset) + " => "@ + first_line(wrapped)]
        + other_lines(wrapped).map_values(|line: Seq<char>| repeated(' ', 24) + line)
        + seq![color_code(Color::Pink) + repeated(' ', 24) + "alias: "@ + c.1@ + color_code(Color::Reset)]
}

/// The lines of all the commands of `commands`, in order.
pub open spec fn commands_lines(commands: Seq<Command>) -> Seq<Seq<char>>
    decreases commands.len(),
{
    if commands.len() == 0 {
        Seq::empty()
    } else {
        commands_lines(commands.drop_last()) + command_lines(commands.last(), wrapped_lines(commands.last().2@, 40))
    }
}

/// The lines of a section: its title and its commands.
pub open spec fn section_lines(title: Seq<char>, commands: Seq<Command>) -> Seq<Seq<char>> {
    seq![title_line(title)] + commands_lines(commands)
}

/// The text of the strings of `v`.
pub open spec fn texts(v: Seq<String>) -> Seq<Seq<char>> {
    v.map_values(|s: String| s@)
}

/// The meta commands.
pub open spec fn meta_command_list() -> Seq<Command> {
    seq![
        Command("help", "h", "prints this command list"),
        Command("exit", "quit", "exits the program"),
    ]
}

/// The print commands.
pub open spec fn print_command_list() -> Seq<Command> {
    seq![
        Command("print time", "pt", "prints the total time spent listening"),
        Command("print time date", "ptd", "prints the time spent listening in a specific date range"),
        Command("print max time", "pmt", "calculates the dates during which you listened the most to music for a given duration"),
        Command("print artist", "part", "prints every album from the given artist"),
        Command("print album", "palb", "prints every song from the given album"),
        Command("print song", "pson", "prints a song's stats"),
        Command("print songs", "psons", "prints a song with all the albums it may be from"),
        Command("print artist date", "partd", "prints every album from the artist within a date range"),
        Command("print album date", "palbd", "prints every song from the album within a date range"),
        Command("print song date", "psond", "prints a song's stats within a date range"),
        Command("print songs date", "psonsd", "prints a song with all the albums it may be from within a date range"),
        Command("print day", "pd", "prints the songs played on the given day"),
    ]
}

/// The print top commands.
pub open spec fn print_top_command_list() -> Seq<Command> {
    seq![
        Command("print top artists", "ptarts", "prints top n artists"),
        Command("print top albums", "ptalbs", "prints top n albums"),
        Command("print top songs", "ptsons", "prints top n songs"),
    ]
}

/// The plot commands.
pub open spec fn plot_command_list() -> Seq<Command> {
    seq![
        Command("plot", "g", "creates a plot of the absolute amount of plays of the given aspect and opens it in the web browser"),
        Command("plot rel", "gr", "creates a plot of the amount of plays of the given aspect relative to all, the artist or album and opens it in the web browser"),
        Command("plot compare", "gc", "creates a plot of two traces (see `plot`) and opens it in the web browser"),
        Command("plot compare rel", "gcr", "creates a plot of two relative traces (see `plot rel`) and opens it in the web browser"),
        Command("plot top", "gt", "creates a plot of the absolute traces of top n aspects and opens it in the web browser"),
        Command("plot artist albums", "gaa", "creates a plot of the absolute traces of all albums of the given artist and opens it in the web browser"),
        Command("plot artist albums rel", "gartar", "creates a plot of the traces of all albums of the given artist relative to all plays or the artist and opens it in the web browser"),
        Command("plot artist songs", "garts", "creates a plot of the absolute traces of all songs of the given artist and opens it in the web browser"),
        Command("plot artist songs rel", "gartr", "creates a plot of the traces of all songs of the given artist relative to all plays or the artist and opens it in the web browser"),
        Command("plot album songs", "galbs", "creates a plot of the absolute traces of all songs of the given album and opens it in the web browser"),
        Command("plot album songs rel", "galbsr", "creates a plot of the traces of all songs of the given album relative to all plays, the artist or the album and opens it in the web browser"),
    ]
}

/// Returns the meta commands.
pub fn meta_commands() -> (r: Vec<Command>)
    ensures
        r@ == meta_command_list(),
{
    vec![
        Command("help", "h", "prints this command list"),
        Command("exit", "quit", "exits the program"),
    ]
}

/// Returns the print commands.
pub fn print_commands() -> (r: Vec<Command>)
    ensures
        r@ == print_command_list(),
{
    vec![
        Command("print time", "pt", "prints the total time spent listening"),
        Command("print time date", "ptd", "prints the time spent listening in a specific date range"),
        Command("print max time", "pmt", "calculates the dates during which you listened the most to music for a given duration"),
        Command("print artist", "part", "prints every album from the given artist"),
        Command("print album", "palb", "prints every song from the given album"),
        Command("print song", "pson", "prints a song's stats"),
        Command("print songs", "psons", "prints a song with all the albums it may be from"),
        Command("print artist date", "partd", "prints every album from the artist within a date range"),
        Command("print album date", "palbd", "prints every song from the album within a date range"),
        Command("print song date", "psond", "prints a song's stats within a date range"),
        Command("print songs date", "psonsd", "prints a song with all the albums it may be from within a date range"),
        Command("print day", "pd", "prints the songs played on the given day"),
    ]
}

/// Returns the print top commands.
pub fn print_top_commands() -> (r: Vec<Command>)
    ensures
        r@ == print_top_command_list(),
{
    vec![
        Command("print top artists", "ptarts", "prints top n artists"),
        Command("print top albums", "ptalbs", "prints top n albums"),
        Command("print top songs", "ptsons", "prints top n songs"),
    ]
}

/// Returns the plot commands.
pub fn plot_commands() -> (r: Vec<Command>)
    ensures
        r@ == plot_command_list(),
{
    vec![
        Command("plot", "g", "creates a plot of the absolute amount of plays of the given aspect and opens it in the web browser"),
        Command("plot rel", "gr", "creates a plot of the amount of plays of the given aspect relative to all, the artist or album and opens it in the web browser"),
        Command("plot compare", "gc", "creates a plot of two traces (see `plot`) and opens it in the web browser"),
        Command("plot compare rel", "gcr", "creates a plot of two relative traces (see `plot rel`) and opens it in the web browser"),
        Command("plot top", "gt", "creates a plot of the absolute traces of top n aspects and opens it in the web browser"),
        Command("plot artist albums", "gaa", "creates a plot of the absolute traces of all albums of the given artist and opens it in the web browser"),
        Command("plot artist albums rel", "gartar", "creates a plot of the traces of all albums of the given artist relative to all plays or the artist and opens it in the web browser"),
        Command("plot artist songs", "garts", "creates a plot of the absolute traces of all songs of the given artist and opens it in the web browser"),
        Command("plot artist songs rel", "gartr", "creates a plot of the traces of all songs of the given artist relative to all plays or the artist and opens it in the web browser"),
        Command("plot album songs", "galbs", "creates a plot of the absolute traces of all songs of the given album and opens it in the web browser"),
        Command("plot album songs rel", "galbsr", "creates a plot of the traces of all songs of the given album relative to all plays, the artist or the album and opens it in the web browser"),
    ]
}

/// Appends `s` to `out`.
fn push_str(out: &mut String, s: &str)
    ensures
        final(out)@ == old(out)@ + s@,
{
    let t = s.to_owned();
    append_string(out, &t);
}

/// Appends the title line of a section.
fn push_title(lines: &mut Vec<String>, title: &str)
    ensures
        texts(final(lines)@) == texts(old(lines)@).push(title_line(title@)),
{
    let mut phrase = String::new();
    push_char(&mut phrase, ' ');
    push_str(&mut phrase, title);
    push_str(&mut phrase, " commands ");
    let ghost p = seq![' '] + title@ + " commands "@;
    assert(phrase@ =~= p);
    let len = phrase.as_str().unicode_len();
    let mut line = String::new();
    push_str(&mut line, Color::LightGreen.code());
    if len < FULL_LENGTH {
        let pad = FULL_LENGTH - len;
        push_repeated(&mut line, '=', pad / 2);
        append_string(&mut line, &phrase);
        push_repeated(&mut line, '=', pad - pad / 2);
    } else {
        append_string(&mut line, &phrase);
    }
    push_str(&mut line, Color::Reset.code());
    assert(line@ =~= title_line(title@));
    lines.push(line);
    assert(texts(lines@) =~= texts(old(lines)@).push(title_line(title@)));
}

/// Appends the lines showing one command.
fn push_command(lines: &mut Vec<String>, c: &Command)
    ensures
        texts(final(lines)@) == texts(old(lines)@) + command_lines(*c, wrapped_lines(c.2@, 40)),
{
    let wrapped = wrap(c.2, DESCRIPTION_LENGTH);
    let ghost w = wrapped_lines(c.2@, 40);
    let ghost start = texts(lines@);
    let mut first = String::new();
    push_str(&mut first, Color::Red.code());
    let len = c.0.unicode_len();
    if len < COMMAND_LENGTH {
        push_repeated(&mut first, ' ', COMMAND_LENGTH - len);
    }
    push_str(&mut first, c.0);
    push_str(&mut first, Color::Reset.code());
    push_str(&mut first, " => ");
    if wrapped.len() > 0 {
        append_string(&mut first, &wrapped[0]);
    }
    assert(first@ =~= color_code(Color::Red) + right_aligned(c.0@, 20) + color_code(Color::Reset) + " => "@ + first_line(w));
    lines.push(first);
    let ghost rest = other_lines(w).map_values(|line: Seq<char>| repeated(' ', 24) + line);
    assert(texts(lines@) =~= start + seq![first_line_text(*c, w)]);
    let mut i: usize = 1;
    while i < wrapped.len()
        invariant
            wrapped@.len() == w.len(),
            forall|k: int| 0 <= k < w.len() ==> #[trigger] wrapped@[k]@ == w[k],
            w == wrapped_lines(c.2@, 40),
            1 <= i,
            i <= wrapped@.len() || i == 1,
            rest == other_lines(w).map_values(|line: Seq<char>| repeated(' ', 24) + line),
            texts(lines@) == start + seq![first_line_text(*c, w)] + rest.take(i - 1),
        decreases wrapped@.len() - i,
    {
        let mut line = String::new();
        push_repeated(&mut line, ' ', INDENT_LENGTH);
        append_string(&mut line, &wrapped[i]);
        assert(line@ == rest[i - 1]);
        let ghost before = texts(lines@);
        lines.push(line);
        assert(texts(lines@) =~= before.push(rest[i - 1]));
        assert(rest.take(i as int) =~= rest.take(i - 1).push(rest[i - 1]));
        i = i + 1;
    }
    proof {
        if w.len() > 0 {
            assert(rest.take(w.len() - 1) =~= rest);
        } else {
            assert(rest =~= Seq::<Seq<char>>::empty());
            assert(rest.take(0) =~= rest);
        }
    }
    let mut alias = String::new();
    push_str(&mut alias, Color::Pink.code());
    push_repeated(&mut alias, ' ', INDENT_LENGTH);
    push_str(&mut alias, "alias: ");
    push_str(&mut alias, c.1);
    push_str(&mut alias, Color::Reset.code());
    let ghost before = texts(lines@);
    lines.push(alias);
    assert(texts(lines@) =~= before.push(alias@));
    assert(texts(lines@) =~= start + command_lines(*c, w));
}

/// The first line showing a command.
pub open spec fn first_line_text(c: Command, wrapped: Seq<Seq<char>>) -> Seq<char> {
    color_code(Color::Red) + right_aligned(c.0@, 20) + color_code(Color::Reset) + " => "@ + first_line(wrapped)
}

/// Appends the lines of a section.
fn push_section(lines: &mut Vec<String>, title: &str, commands: &Vec<Command>)
    ensures
        texts(final(lines)@) == texts(old(lines)@) + section_lines(title@, commands@),
{
    let ghost start = texts(lines@);
    push_title(lines, title);
    let mut i: usize = 0;
    while i < commands.len()
        invariant
            i <= commands@.len(),
            texts(lines@) == start + seq![title_line(title@)] + commands_lines(commands@.take(i as int)),
        decreases commands@.len() - i,
    {
        let ghost before = texts(lines@);
        push_command(lines, &commands[i]);
        proof {
            assert(commands@.take(i + 1).drop_last() =~= commands@.take(i as int));
            assert(commands@.take(i + 1).last() == commands@[i as int]);
        }
        i = i + 1;
        assert(texts(lines@) =~= start + seq![title_line(title@)] + commands_lines(commands@.take(i as int)));
    }
    assert(commands@.take(commands@.len() as int) =~= commands@);
    assert(texts(lines@) =~= start + section_lines(title@, commands@));
}

/// The summarize commands.
pub open spec fn summarize_command_list() -> Seq<Command> {
    seq![
        Command("summarize artist", "sa", "creates a summary page of the given artist and opens it in the web browser"),
    ]
}

/// Returns the summarize commands.
pub fn summarize_commands() -> (r: Vec<Command>)
    ensures
        r@ == summarize_command_list(),
{
    vec![
        Command("summarize artist", "sa", "creates a summary page of the given artist and opens it in the web browser"),
    ]
}

/// The whole help text.
pub open spec fn help_text() -> Seq<Seq<char>> {
    section_lines("meta"@, meta_command_list()) + section_lines("print"@, print_command_list())
        + section_lines("print top"@, print_top_command_list()) + section_lines("graph/plot"@, plot_command_list())
        + section_lines("summarize"@, summarize_command_list())
}

/// Returns the lines that the `help` command prints: the available commands
/// of each kind, with their descriptions and aliases.
pub fn help() -> (r: Vec<String>)
    ensures
        texts(r@) == help_text(),
{
    let mut lines: Vec<String> = Vec::new();
    assert(texts(lines@) =~= Seq::<Seq<char>>::empty());
    push_section(&mut lines, "meta", &meta_commands());
    push_section(&mut lines, "print", &print_commands());
    push_section(&mut lines, "print top", &print_top_commands());
    push_section(&mut lines, "graph/plot", &plot_commands());
    push_section(&mut lines, "summarize", &summarize_commands());
    assert(texts(lines@) =~= help_text());
    lines
}

/// The commands that the help text lists, section after section.
pub open spec fn help_command_list() -> Seq<Command> {
    meta_command_list() + print_command_list() + print_top_command_list() + plot_command_list()
        + summarize_command_list()
}

/// `k` is a command that the shell runs (not an empty or unknown input).
pub open spec fn is_shell_command(k: command::Command) -> bool {
    k != command::Command::Nothing && k != command::Command::NotFound
}

/// The first line of the lines that show a command.
proof fn lemma_command_lines_first(c: Command, w: Seq<Seq<char>>)
    ensures
        command_lines(c, w).len() > 0,
        command_lines(c, w)[0] == first_line_text(c, w),
{
}

/// The lines of a list of commands hold the first line of each of them.
proof fn lemma_commands_lines_show(cs: Seq<Command>, i: int)
    requires
        0 <= i < cs.len(),
    ensures
        commands_lines(cs).contains(first_line_text(cs[i], wrapped_lines(cs[i].2@, 40))),
    decreases cs.len(),
{
    let a = commands_lines(cs.drop_last());
    let b = command_lines(cs.last(), wrapped_lines(cs.last().2@, 40));
    assert(commands_lines(cs) == a + b);
    if i == cs.len() - 1 {
        lemma_command_lines_first(cs.last(), wrapped_lines(cs.last().2@, 40));
        assert((a + b)[a.len() as int] == b[0]);
    } else {
        lemma_commands_lines_show(cs.drop_last(), i);
        assert(cs.drop_last()[i] == cs[i]);
        let k = choose|k: int| 0 <= k < a.len() && a[k] == first_line_text(cs[i], wrapped_lines(cs[i].2@, 40));
        assert((a + b)[k] == a[k]);
    }
}

/// What a sequence holds, a longer one that begins or ends with it holds too.
proof fn lemma_contains_in_concat(a: Seq<Seq<char>>, b: Seq<Seq<char>>, x: Seq<char>)
    ensures
        a.contains(x) ==> (a + b).contains(x),
        b.contains(x) ==> (a + b).contains(x),
{
    if a.contains(x) {
        let k = choose|k: int| 0 <= k < a.len() && a[k] == x;
        assert((a + b)[k] == x);
    }
    if b.contains(x) {
        let k = choose|k: int| 0 <= k < b.len() && b[k] == x;
        assert((a + b)[a.len() + k] == x);
    }
}

/// The lines of a section hold the first line of each of its commands.
proof fn lemma_section_shows(title: Seq<char>, cs: Seq<Command>, i: int)
    requires
        0 <= i < cs.len(),
    ensures
        section_lines(title, cs).contains(first_line_text(cs[i], wrapped_lines(cs[i].2@, 40))),
{
    lemma_commands_lines_show(cs, i);
    lemma_contains_in_concat(seq![title_line(title)], commands_lines(cs), first_line_text(cs[i], wrapped_lines(cs[i].2@, 40)));
}

/// The help text holds the first line of each command that it lists.
proof fn lemma_help_text_shows(j: int)
    requires
        0 <= j < help_command_list().len(),
    ensures
        help_text().contains(first_line_text(help_command_list()[j], wrapped_lines(help_command_list()[j].2@, 40))),
{
    let l1 = meta_command_list();
    let l2 = print_command_list();
    let l3 = print_top_command_list();
    let l4 = plot_command_list();
    let l5 = summarize_command_list();
    let s1 = section_lines("meta"@, l1);
    let s2 = section_lines("print"@, l2);
    let s3 = section_lines("print top"@, l3);
    let s4 = section_lines("graph/plot"@, l4);
    let s5 = section_lines("summarize"@, l5);
    let c = help_command_list()[j];
    let x = first_line_text(c, wrapped_lines(c.2@, 40));
    let n1 = l1.len() as int;
    let n2 = n1 + l2.len();
    let n3 = n2 + l3.len();
    let n4 = n3 + l4.len();
    if j < n1 {
        assert(c == l1[j]);
        lemma_section_shows("meta"@, l1, j);
    } else if j < n2 {
        assert(c == l2[j - n1]);
        lemma_section_shows("print"@, l2, j - n1);
    } else if j < n3 {
        assert(c == l3[j - n2]);
        lemma_section_shows("print top"@, l3, j - n2);
    } else if j < n4 {
        assert(c == l4[j - n3]);
        lemma_section_shows("graph/plot"@, l4, j - n3);
    } else {
        assert(c == l5[j - n4]);
        lemma_section_shows("summarize"@, l5, j - n4);
    }
    lemma_contains_in_concat(s1, s2, x);
    lemma_contains_in_concat(s1 + s2, s3, x);
    lemma_contains_in_concat(s1 + s2 + s3, s4, x);
    lemma_contains_in_concat(s1 + s2 + s3 + s4, s5, x);
}

/// Every command that the help text lists works under its name and under the
/// alias shown beside it: the two either both end the shell (`exit` and
/// `quit`) or name the same command that the shell runs.
pub proof fn lemma_help_aliases_work(i: int)
    requires
        0 <= i < help_command_list().len(),
    ensures
        ({
            let c = help_command_list()[i];
            ||| exit_input(c.0@) && exit_input(c.1@)
            ||| command_of(c.1@) == command_of(c.0@) && is_shell_command(command_of(c.0@))
        }),
{
    lemma_command_names();
    let l = help_command_list();
    assert(l.len() == 29);
    assert(l =~= seq![
        Command("help", "h", "prints this command list"),
        Command("exit", "quit", "exits the program"),
        Command("print time", "pt", "prints the total time spent listening"),
        Command("print time date", "ptd", "prints the time spent listening in a specific date range"),
        Command("print max time", "pmt", "calculates the dates during which you listened the most to music for a given duration"),
        Command("print artist", "part", "prints every album from the given artist"),
        Command("print album", "palb", "prints every song from the given album"),
        Command("print song", "pson", "prints a song's stats"),
        Command("print songs", "psons", "prints a song with all the albums it may be from"),
        Command("print artist date", "partd", "prints every album from the artist within a date range"),
        Command("print album date", "palbd", "prints every song from the album within a date range"),
        Command("print song date", "psond", "prints a song's stats within a date range"),
        Command("print songs date", "psonsd", "prints a song with all the albums it may be from within a date range"),
        Command("print day", "pd", "prints the songs played on the given day"),
        Command("print top artists", "ptarts", "prints top n artists"),
        Command("print top albums", "ptalbs", "prints top n albums"),
        Command("print top songs", "ptsons", "prints top n songs"),
        Command("plot", "g", "creates a plot of the absolute amount of plays of the given aspect and opens it in the web browser"),
        Command("plot rel", "gr", "creates a plot of the amount of plays of the given aspect relative to all, the artist or album and opens it in the web browser"),
        Command("plot compare", "gc", "creates a plot of two traces (see `plot`) and opens it in the web browser"),
        Command("plot compare rel", "gcr", "creates a plot of two relative traces (see `plot rel`) and opens it in the web browser"),
        Command("plot top", "gt", "creates a plot of the absolute traces of top n aspects and opens it in the web browser"),
        Command("plot artist albums", "gaa", "creates a plot of the absolute traces of all albums of the given artist and opens it in the web browser"),
        Command("plot artist albums rel", "gartar", "creates a plot of the traces of all albums of the given artist relative to all plays or the artist and opens it in the web browser"),
        Command("plot artist songs", "garts", "creates a plot of the absolute traces of all songs of the given artist and opens it in the web browser"),
        Command("plot artist songs rel", "gartr", "creates a plot of the traces of all songs of the given artist relative to all plays or the artist and opens it in the web browser"),
        Command("plot album songs", "galbs", "creates a plot of the absolute traces of all songs of the given album and opens it in the web browser"),
        Command("plot album songs rel", "galbsr", "creates a plot of the traces of all songs of the given album relative to all plays, the artist or the album and opens it in the web browser"),
        Command("summarize artist", "sa", "creates a summary page of the given artist and opens it in the web browser"),
    ]);
}

/// Every input that runs a command of the shell, or ends it, has a line in
/// the help text: the text shows a command whose name does the same.
pub proof fn lemma_help_shows_every_command(inp: Seq<char>)
    requires
        is_shell_command(command_of(inp)) || exit_input(inp),
    ensures
        exists|i: int| {
            &&& 0 <= i < help_command_list().len()
            &&& #[trigger] help_text().contains(first_line_text(help_command_list()[i], wrapped_lines(help_command_list()[i].2@, 40)))
            &&& if exit_input(inp) {
                exit_input(help_command_list()[i].0@)
            } else {
                command_of(help_command_list()[i].0@) == command_of(inp)
            }
        },
{
    lemma_command_names();
    let l = help_command_list();
    let k = command_of(inp);
    let i: int = if exit_input(inp) { 1 }
        else if k == command::Command::Help { 0 }
        else if k == command::Command::PrintTime { 2 }
        else if k == command::Command::PrintTimeDate { 3 }
        else if k == command::Command::PrintMaxTime { 4 }
        else if k == command::Command::PrintArtist { 5 }
        else if k == command::Command::PrintAlbum { 6 }
        else if k == command::Command::PrintSong { 7 }
        else if k == command::Command::PrintSongs { 8 }
        else if k == command::Command::PrintArtistDate { 9 }
        else if k == command::Command::PrintAlbumDate { 10 }
        else if k == command::Command::PrintSongDate { 11 }
        else if k == command::Command::PrintSongsDate { 12 }
        else if k == command::Command::PrintTopArtists { 14 }
        else if k == command::Command::PrintTopAlbums { 15 }
        else if k == command::Command::PrintTopSongs { 16 }
        else if k == command::Command::PrintDay { 13 }
        else if k == command::Command::Plot { 17 }
        else if k == command::Command::PlotRelative { 18 }
        else if k == command::Command::PlotCompare { 19 }
        else if k == command::Command::PlotCompareRelative { 20 }
        else if k == command::Command::PlotTop { 21 }
        else if k == command::Command::PlotArtistAlbums { 22 }
        else if k == command::Command::PlotArtistAlbumsRelative { 23 }
        else if k == command::Command::PlotArtistSongs { 24 }
        else if k == command::Command::PlotArtistSongsRelative { 25 }
        else if k == command::Command::PlotAlbumSongs { 26 }
        else if k == command::Command::PlotAlbumSongsRelative { 27 }
        else if k == command::Command::SummarizeArtist { 28 }
        else { 0 };
    assert(l[i] == help_command_list()[i]);
    lemma_help_text_shows(i);
}

/// Every command that tab completion offers at the command prompt is one
/// that the shell runs.
pub proof fn lemma_completions_are_commands(i: int)
    requires
        0 <= i < command::completion_commands().len(),
    ensures
        is_shell_command(command_of(command::completion_commands()[i])),
{
    lemma_command_names();
}

/// What the shell makes of each name and alias of its commands.
proof fn lemma_command_names()
    ensures
        command_of("help"@) == command::Command::Help,
        command_of("h"@) == command::Command::Help,
        command_of("print time"@) == command::Command::PrintTime,
        command_of("pt"@) == command::Command::PrintTime,
        command_of("print time date"@) == command::Command::PrintTimeDate,
        command_of("ptd"@) == command::Command::PrintTimeDate,
        command_of("print max time"@) == command::Command::PrintMaxTime,
        command_of("pmt"@) == command::Command::PrintMaxTime,
        command_of("print artist"@) == command::Command::PrintArtist,
        command_of("part"@) == command::Command::PrintArtist,
        command_of("print album"@) == command::Command::PrintAlbum,
        command_of("palb"@) == command::Command::PrintAlbum,
        command_of("print song"@) == command::Command::PrintSong,
        command_of("pson"@) == command::Command::PrintSong,
        command_of("print songs"@) == command::Command::PrintSongs,
        command_of("psons"@) == command::Command::PrintSongs,
        command_of("print artist date"@) == command::Command::PrintArtistDate,
        command_of("partd"@) == command::Command::PrintArtistDate,
        command_of("print album date"@) == command::Command::PrintAlbumDate,
        command_of("palbd"@) == command::Command::PrintAlbumDate,
        command_of("print song date"@) == command::Command::PrintSongDate,
        command_of("psond"@) == command::Command::PrintSongDate,
        command_of("print songs date"@) == command::Command::PrintSongsDate,
        command_of("psonsd"@) == command::Command::PrintSongsDate,
        command_of("print top artists"@) == command::Command::PrintTopArtists,
        command_of("ptarts"@) == command::Command::PrintTopArtists,
        command_of("print top albums"@) == command::Command::PrintTopAlbums,
        command_of("ptalbs"@) == command::Command::PrintTopAlbums,
        command_of("print top songs"@) == command::Command::PrintTopSongs,
        command_of("ptsons"@) == command::Command::PrintTopSongs,
        command_of("print day"@) == command::Command::PrintDay,
        command_of("pd"@) == command::Command::PrintDay,
        command_of("plot"@) == command::Command::Plot,
        command_of("g"@) == command::Command::Plot,
        command_of("plot rel"@) == command::Command::PlotRelative,
        command_of("gr"@) == command::Command::PlotRelative,
        command_of("plot compare"@) == command::Command::PlotCompare,
        command_of("gc"@) == command::Command::PlotCompare,
        command_of("plot compare rel"@) == command::Command::PlotCompareRelative,
        command_of("gcr"@) == command::Command::PlotCompareRelative,
        command_of("plot top"@) == command::Command::PlotTop,
        command_of("gt"@) == command::Command::PlotTop,
        command_of("plot artist albums"@) == command::Command::PlotArtistAlbums,
        command_of("garta"@) == command::Command::PlotArtistAlbums,
        command_of("gaa"@) == command::Command::PlotArtistAlbums,
        command_of("plot artist albums rel"@) == command::Command::PlotArtistAlbumsRelative,
        command_of("gartar"@) == command::Command::PlotArtistAlbumsRelative,
        command_of("plot artist songs"@) == command::Command::PlotArtistSongs,
        command_of("garts"@) == command::Command::PlotArtistSongs,
        command_of("plot artist songs rel"@) == command::Command::PlotArtistSongsRelative,
        command_of("gartr"@) == command::Command::PlotArtistSongsRelative,
        command_of("plot album songs"@) == command::Command::PlotAlbumSongs,
        command_of("galbs"@) == command::Command::PlotAlbumSongs,
        command_of("plot album songs rel"@) == command::Command::PlotAlbumSongsRelative,
        command_of("galbsr"@) == command::Command::PlotAlbumSongsRelative,
        command_of("summarize artist"@) == command::Command::SummarizeArtist,
        command_of("sa"@) == command::Command::SummarizeArtist,
        exit_input("exit"@),
        exit_input("quit"@),
{
    reveal_strlit("help");
    assert("help"@.len() == 4 && "help"@[0] == 'h');
    reveal_strlit("h");
    assert("h"@.len() == 1 && "h"@[0] == 'h');
    reveal_strlit("print time");
    assert("print time"@.len() == 10 && "print time"@[6] == 't');
    reveal_strlit("pt");
    assert("pt"@.len() == 2 && "pt"@[0] == 'p' && "pt"@[1] == 't');
    reveal_strlit("print time date");
    assert("print time date"@.len() == 15 && "print time date"@[6] == 't' && "print time date"@[7] == 'i');
    reveal_strlit("ptd");
    assert("ptd"@.len() == 3 && "ptd"@[0] == 'p' && "ptd"@[1] == 't');
    reveal_strlit("print max time");
    assert("print max time"@.len() == 14);
    reveal_strlit("pmt");
    assert("pmt"@.len() == 3 && "pmt"@[0] == 'p' && "pmt"@[1] == 'm');
    reveal_strlit("print artist");
    assert("print artist"@.len() == 12 && "print artist"@[1] == 'r');
    reveal_strlit("part");
    assert("part"@.len() == 4 && "part"@[0] == 'p' && "part"@[1] == 'a' && "part"@[2] == 'r');
    reveal_strlit("print album");
    assert("print album"@.len() == 11 && "print album"@[6] == 'a');
    reveal_strlit("palb");
    assert("palb"@.len() == 4 && "palb"@[0] == 'p' && "palb"@[1] == 'a' && "palb"@[2] == 'l');
    reveal_strlit("print song");
    assert("print song"@.len() == 10 && "print song"@[6] == 's');
    reveal_strlit("pson");
    assert("pson"@.len() == 4 && "pson"@[0] == 'p' && "pson"@[1] == 's');
    reveal_strlit("print songs");
    assert("print songs"@.len() == 11 && "print songs"@[6] == 's');
    reveal_strlit("psons");
    assert("psons"@.len() == 5 && "psons"@[0] == 'p' && "psons"@[1] == 's' && "psons"@[4] == 's');
    reveal_strlit("print artist date");
    assert("print artist date"@.len() == 17 && "print artist date"@[1] == 'r' && "print artist date"@[6] == 'a');
    reveal_strlit("partd");
    assert("partd"@.len() == 5 && "partd"@[0] == 'p' && "partd"@[1] == 'a' && "partd"@[2] == 'r');
    reveal_strlit("print album date");
    assert("print album date"@.len() == 16 && "print album date"@[0] == 'p' && "print album date"@[1] == 'r' && "print album date"@[6] == 'a');
    reveal_strlit("palbd");
    assert("palbd"@.len() == 5 && "palbd"@[0] == 'p' && "palbd"@[1] == 'a' && "palbd"@[2] == 'l');
    reveal_strlit("print song date");
    assert("print song date"@.len() == 15 && "print song date"@[6] == 's');
    reveal_strlit("psond");
    assert("psond"@.len() == 5 && "psond"@[0] == 'p' && "psond"@[1] == 's' && "psond"@[4] == 'd');
    reveal_strlit("print songs date");
    assert("print songs date"@.len() == 16 && "print songs date"@[0] == 'p' && "print songs date"@[1] == 'r' && "print songs date"@[6] == 's');
    reveal_strlit("psonsd");
    assert("psonsd"@.len() == 6 && "psonsd"@[0] == 'p' && "psonsd"@[1] == 's');
    reveal_strlit("print top artists");
    assert("print top artists"@.len() == 17 && "print top artists"@[1] == 'r' && "print top artists"@[6] == 't');
    reveal_strlit("ptarts");
    assert("ptarts"@.len() == 6 && "ptarts"@[0] == 'p' && "ptarts"@[1] == 't' && "ptarts"@[2] == 'a' && "ptarts"@[3] == 'r');
    reveal_strlit("print top albums");
    assert("print top albums"@.len() == 16 && "print top albums"@[0] == 'p' && "print top albums"@[1] == 'r' && "print top albums"@[6] == 't');
    reveal_strlit("ptalbs");
    assert("ptalbs"@.len() == 6 && "ptalbs"@[0] == 'p' && "ptalbs"@[1] == 't' && "ptalbs"@[2] == 'a' && "ptalbs"@[3] == 'l');
    reveal_strlit("print top songs");
    assert("print top songs"@.len() == 15 && "print top songs"@[6] == 't' && "print top songs"@[7] == 'o');
    reveal_strlit("ptsons");
    assert("ptsons"@.len() == 6 && "ptsons"@[0] == 'p' && "ptsons"@[1] == 't' && "ptsons"@[2] == 's');
    reveal_strlit("print day");
    assert("print day"@.len() == 9);
    reveal_strlit("pd");
    assert("pd"@.len() == 2 && "pd"@[0] == 'p' && "pd"@[1] == 'd');
    reveal_strlit("plot");
    assert("plot"@.len() == 4 && "plot"@[0] == 'p' && "plot"@[1] == 'l');
    reveal_strlit("g");
    assert("g"@.len() == 1 && "g"@[0] == 'g');
    reveal_strlit("plot rel");
    assert("plot rel"@.len() == 8 && "plot rel"@[5] == 'r');
    reveal_strlit("gr");
    assert("gr"@.len() == 2 && "gr"@[0] == 'g' && "gr"@[1] == 'r');
    reveal_strlit("plot compare");
    assert("plot compare"@.len() == 12 && "plot compare"@[1] == 'l');
    reveal_strlit("gc");
    assert("gc"@.len() == 2 && "gc"@[0] == 'g' && "gc"@[1] == 'c');
    reveal_strlit("plot compare rel");
    assert("plot compare rel"@.len() == 16 && "plot compare rel"@[0] == 'p' && "plot compare rel"@[1] == 'l' && "plot compare rel"@[5] == 'c');
    reveal_strlit("gcr");
    assert("gcr"@.len() == 3 && "gcr"@[0] == 'g' && "gcr"@[1] == 'c');
    reveal_strlit("plot top");
    assert("plot top"@.len() == 8 && "plot top"@[5] == 't');
    reveal_strlit("gt");
    assert("gt"@.len() == 2 && "gt"@[0] == 'g' && "gt"@[1] == 't');
    reveal_strlit("plot artist albums");
    assert("plot artist albums"@.len() == 18);
    reveal_strlit("garta");
    assert("garta"@.len() == 5 && "garta"@[0] == 'g' && "garta"@[2] == 'r' && "garta"@[4] == 'a');
    reveal_strlit("gaa");
    assert("gaa"@.len() == 3 && "gaa"@[0] == 'g' && "gaa"@[1] == 'a');
    reveal_strlit("plot artist albums rel");
    assert("plot artist albums rel"@.len() == 22);
    reveal_strlit("gartar");
    assert("gartar"@.len() == 6 && "gartar"@[0] == 'g' && "gartar"@[2] == 'r');
    reveal_strlit("plot artist songs");
    assert("plot artist songs"@.len() == 17 && "plot artist songs"@[1] == 'l');
    reveal_strlit("garts");
    assert("garts"@.len() == 5 && "garts"@[0] == 'g' && "garts"@[2] == 'r' && "garts"@[4] == 's');
    reveal_strlit("plot artist songs rel");
    assert("plot artist songs rel"@.len() == 21);
    reveal_strlit("gartr");
    assert("gartr"@.len() == 5 && "gartr"@[0] == 'g' && "gartr"@[2] == 'r' && "gartr"@[4] == 'r');
    reveal_strlit("plot album songs");
    assert("plot album songs"@.len() == 16 && "plot album songs"@[0] == 'p' && "plot album songs"@[1] == 'l' && "plot album songs"@[5] == 'a');
    reveal_strlit("galbs");
    assert("galbs"@.len() == 5 && "galbs"@[0] == 'g' && "galbs"@[2] == 'l');
    reveal_strlit("plot album songs rel");
    assert("plot album songs rel"@.len() == 20);
    reveal_strlit("galbsr");
    assert("galbsr"@.len() == 6 && "galbsr"@[0] == 'g' && "galbsr"@[2] == 'l');
    reveal_strlit("summarize artist");
    assert("summarize artist"@.len() == 16 && "summarize artist"@[0] == 's');
    reveal_strlit("sa");
    assert("sa"@.len() == 2 && "sa"@[0] == 's');
    reveal_strlit("exit");
    assert("exit"@.len() == 4 && "exit"@[0] == 'e');
    reveal_strlit("quit");
    assert("quit"@.len() == 4 && "quit"@[0] == 'q');
}

} // verus!
