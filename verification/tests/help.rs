use endsong::help::{help, meta_commands, plot_commands, print_top_commands, Color};

#[test]
fn help_layout() {
    let lines = help();
    let title = format!("{}{} meta commands {}{}", "\x1b[0;32m", "=".repeat(24), "=".repeat(25), "\x1b[0m");
    assert_eq!(lines[0], title);
    assert_eq!(
        lines[1],
        format!("\x1b[1;31m{}help\x1b[0m => prints this command list", " ".repeat(16))
    );
    assert_eq!(lines[2], format!("\x1b[1;35m{}alias: h\x1b[0m", " ".repeat(24)));
    // every line of the description fits in its column
    for line in &lines {
        assert!(!line.contains('\t'));
    }
}

#[test]
fn long_descriptions_are_wrapped() {
    let lines = help();
    let first = lines
        .iter()
        .position(|l| l.contains("print max time"))
        .unwrap();
    assert!(lines[first].ends_with("=> calculates the dates during which you"));
    assert_eq!(
        lines[first + 1],
        format!("{}listened the most to music for a given", " ".repeat(24))
    );
}

#[test]
fn command_tables() {
    let meta = meta_commands();
    assert_eq!(meta.len(), 2);
    assert_eq!(meta[1].0, "exit");
    assert_eq!(meta[1].1, "quit");
    assert_eq!(print_top_commands()[2].1, "ptsons");
    assert!(!plot_commands().is_empty());
}

#[test]
fn color_codes() {
    assert_eq!(Color::Reset.code(), "\x1b[0m");
    assert_eq!(Color::Red.code(), "\x1b[1;31m");
    assert_eq!(Color::LightGreen.code(), "\x1b[0;32m");
}
