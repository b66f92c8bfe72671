use endsong::columns::{adjust_length, center_phrase, command_table, command_text, graph_commands, prepend_spaces_for_newline, section};

#[test]
fn whitespace() {
    assert_eq!(
        adjust_length("print top artists", 20),
        "   print top artists"
    );
    // adjust_length() doesn't work properly with newlines (yet)
    assert_ne!(adjust_length("t\nt", 2), " t\n t");

    assert_eq!(prepend_spaces_for_newline("test", 20), "test");
    assert_eq!(
        prepend_spaces_for_newline("test\nsecond\nthird", 5),
        "test\n     second\n     third"
    );
}

#[test]
fn adjust_length_keeps_wide_phrases() {
    assert_eq!(adjust_length("already wide enough", 5), "already wide enough");
    assert_eq!(adjust_length("exact", 5), "exact");
    assert_eq!(adjust_length("", 3), "   ");
}

#[test]
fn adjust_length_counts_wide_characters() {
    // each of these characters takes two columns
    assert_eq!(adjust_length("日本", 6), "  日本");
}

#[test]
fn prepend_spaces_line_endings() {
    assert_eq!(prepend_spaces_for_newline("a\r\nb", 2), "a\n  b");
    assert_eq!(prepend_spaces_for_newline("a\n", 2), "a");
    assert_eq!(prepend_spaces_for_newline("a\n\nb", 1), "a\n \n b");
    assert_eq!(prepend_spaces_for_newline("\n", 3), "");
    assert_eq!(prepend_spaces_for_newline("a\r", 3), "a\r");
}

#[test]
fn command_text_layout() {
    let text = command_text("help", "h", "prints this command list").unwrap();
    assert_eq!(
        text,
        "\x1b[1;31m                help\x1b[0m => prints this command list\n\x1b[1;35m                        alias: h\x1b[0m"
    );
    let text = command_text("exit", "quit", "exits\nthe program").unwrap();
    assert_eq!(
        text,
        "\x1b[1;31m                exit\x1b[0m => exits\n                the program\n\x1b[1;35m                        alias: quit\x1b[0m"
    );
}

#[test]
fn centered_titles() {
    assert_eq!(
        center_phrase("meta", 22, 50).unwrap(),
        format!("{} meta commands {}", "=".repeat(17), "=".repeat(18))
    );
    assert_eq!(
        center_phrase("print top", 22, 50).unwrap(),
        format!("{} print top commands {}", "=".repeat(14), "=".repeat(16))
    );
    // a phrase already wider than the end column is only filled, never framed
    let long = "x".repeat(120);
    assert_eq!(center_phrase(&long, 22, 50).unwrap(), format!(" {long} commands "));
}

#[test]
fn command_table_sections() {
    let graph = section("graph", &graph_commands()).unwrap();
    assert_eq!(graph.len(), 2);
    assert_eq!(
        graph[0],
        format!("\x1b[0;32m{} graph commands {}\x1b[0m", "=".repeat(16), "=".repeat(18))
    );
    assert_eq!(graph[1], command_text("graph placeholder", "gphd", "placeholder description").unwrap());

    let table = command_table().unwrap();
    assert_eq!(table.len(), 18);
    assert_eq!(table[1], command_text("help", "h", "prints this command list").unwrap());
    assert!(table[4].contains("=> prints every album from the artist\n                        opens another prompt"));
}
