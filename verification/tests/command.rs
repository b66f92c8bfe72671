use endsong::help::{meta_commands, plot_commands, print_commands, print_top_commands, summarize_commands};
use endsong::aspect::Artist;
use endsong::command::{
    command_completions, complete, completion_list, date_range, find_named, is_exit, match_input, parse_aspect,
    parse_i64, parse_span_unit, parse_usize, parse_yes_no, span_millis, Aspect, Command, SpanUnit, UiError,
};

#[test]
fn commands_and_aliases() {
    assert_eq!(match_input("help"), Command::Help);
    assert_eq!(match_input("h"), Command::Help);
    assert_eq!(match_input("print top artists"), Command::PrintTopArtists);
    assert_eq!(match_input("ptarts"), Command::PrintTopArtists);
    assert_eq!(match_input("plot compare rel"), Command::PlotCompareRelative);
    assert_eq!(match_input("gaa"), Command::PlotArtistAlbums);
    assert_eq!(match_input("garta"), Command::PlotArtistAlbums);
    assert_eq!(match_input("summarize artist"), Command::SummarizeArtist);
    assert_eq!(match_input("sa"), Command::SummarizeArtist);
    assert_eq!(match_input(""), Command::Nothing);
    assert_eq!(match_input("print everything"), Command::NotFound);
    assert!(is_exit("exit"));
    assert!(is_exit("quit"));
    assert!(is_exit("q"));
    assert!(!is_exit("help"));
}

#[test]
fn reading_answers() {
    assert_eq!(parse_aspect("artists"), Some(Aspect::Artists));
    assert_eq!(parse_aspect("album"), Some(Aspect::Albums));
    assert_eq!(parse_aspect("Songs"), None);
    assert_eq!(Aspect::Songs.name(), "songs");
    assert_eq!(parse_yes_no("y"), Some(true));
    assert_eq!(parse_yes_no("false"), Some(false));
    assert_eq!(parse_yes_no("maybe"), None);
    assert_eq!(parse_span_unit("weeks"), Some(SpanUnit::Weeks));
    assert_eq!(parse_span_unit("months"), None);
}

#[test]
fn reading_numbers() {
    assert_eq!(parse_usize("42"), Some(42));
    assert_eq!(parse_usize("+7"), Some(7));
    assert_eq!(parse_usize("-7"), None);
    assert_eq!(parse_usize(""), None);
    assert_eq!(parse_usize("1x"), None);
    assert_eq!(parse_usize("18446744073709551615"), Some(usize::MAX));
    assert_eq!(parse_usize("18446744073709551616"), None);
    assert_eq!(parse_i64("-12"), Some(-12));
    assert_eq!(parse_i64("-9223372036854775808"), Some(i64::MIN));
    assert_eq!(parse_i64("9223372036854775808"), None);
    assert_eq!(parse_i64("-"), None);
}

#[test]
fn spans() {
    assert_eq!(span_millis(SpanUnit::Days, 2), Some(172_800_000));
    assert_eq!(span_millis(SpanUnit::Weeks, 1), Some(604_800_000));
    assert_eq!(span_millis(SpanUnit::Days, -1), Some(-86_400_000));
    assert_eq!(span_millis(SpanUnit::Weeks, i64::MAX), None);
}

#[test]
fn completion() {
    let candidates = vec!["Sabaton".to_string(), "Sacred Reich".to_string(), "Theocracy".to_string()];
    assert_eq!(complete(&candidates, "sa"), vec!["Sabaton".to_string(), "Sacred Reich".to_string()]);
    assert_eq!(complete(&candidates, "THEO"), vec!["Theocracy".to_string()]);
    assert!(complete(&candidates, "x").is_empty());
    assert_eq!(
        completion_list(vec!["b".to_string(), "C".to_string(), "a".to_string()]),
        vec!["C".to_string(), "a".to_string(), "b".to_string()]
    );
    let commands = command_completions();
    assert_eq!(commands.len(), 27);
    assert_eq!(commands[0], "help");
    assert_eq!(commands[26], "summarize artist");
}

#[test]
fn shell_errors() {
    assert_eq!(date_range(1, 2), Ok((1, 2)));
    assert_eq!(date_range(2, 2), Err(UiError::DateWrongOrder));
    assert_eq!(date_range(3, 2), Err(UiError::DateWrongOrder));
    assert_eq!(UiError::ParseNum.message(), "Invalid number!");
    assert_eq!(
        UiError::NotFound("artist").message(),
        "Sorry, I couldn't find this artist in the dataset!"
    );
    assert_eq!(
        UiError::InvalidArgument("days, weeks").message(),
        "Invalid argument! Valid inputs: days, weeks"
    );
    assert_eq!(UiError::Interrupted.message(), "");
}

#[test]
fn finding_a_version_by_name() {
    let versions = vec![Artist::new("tia"), Artist::new("TIA"), Artist::new("Tia")];
    assert_eq!(find_named(&versions, "TIA"), Some(1));
    assert_eq!(find_named(&versions, "tIA"), None);
}

#[test]
fn every_command_in_help_and_completion_works() {
    for table in [print_commands(), print_top_commands(), plot_commands(), summarize_commands()] {
        for c in table {
            assert_ne!(match_input(c.0), Command::NotFound, "{}", c.0);
            assert_eq!(match_input(c.0), match_input(c.1), "{} / {}", c.0, c.1);
        }
    }
    for c in meta_commands() {
        assert!(match_input(c.0) == Command::Help || is_exit(c.0));
        assert!(match_input(c.1) == Command::Help || is_exit(c.1));
    }
    for c in command_completions() {
        assert_ne!(match_input(c), Command::NotFound, "{c}");
    }
}
