use endsong::display::{leading_whitespace, normalize_path, spaces};

#[test]
fn lib_normalize_paths() {
    // should change the forbidden symbols to '_' in these
    assert_eq!(normalize_path("A|B"), "A_B");
    assert_eq!(normalize_path("A>B<C"), "A_B_C");
    assert_eq!(normalize_path(":A\"B"), "_A_B");
    assert_eq!(normalize_path("A/B"), normalize_path("A\\B"));
    assert_eq!(normalize_path("?A?"), "_A_");
    assert_eq!(normalize_path("A*B"), "A_B");

    // whitespace should be removed
    assert_eq!(normalize_path(" A"), "_A");
    assert_eq!(normalize_path("A "), "A_");
    assert_eq!(normalize_path(" "), "_");
    assert_eq!(normalize_path("   "), "___");

    // empty/only dot should be changed (Windows)
    assert_eq!(normalize_path(""), "_");
    assert_eq!(normalize_path("."), "_");

    assert_eq!(normalize_path(" A|B<>B? "), "_A_B__B__");

    // shouldn't change anything about these
    assert_eq!(normalize_path("A_B"), "A_B");
    assert_eq!(normalize_path("AB"), "AB");
}

#[test]
fn plot_normalize_paths() {
    // should change the forbidden symbols to '_' in these
    assert_eq!(normalize_path("A|B"), "A_B");
    assert_eq!(normalize_path("A>B<C"), "A_B_C");
    assert_eq!(normalize_path(":A\"B"), "_A_B");
    assert_eq!(normalize_path("A/B"), normalize_path("A\\B"));
    assert_eq!(normalize_path("?A?"), "_A_");
    assert_eq!(normalize_path("A*B"), "A_B");

    // whitespace should be removed
    assert_eq!(normalize_path(" A"), "_A");
    assert_eq!(normalize_path("A "), "A_");
    assert_eq!(normalize_path(" "), "_");
    assert_eq!(normalize_path("   "), "___");

    // empty/only dot should be changed (Windows)
    assert_eq!(normalize_path(""), "_");
    assert_eq!(normalize_path("."), "_");

    assert_eq!(normalize_path(" A|B<>B? "), "_A_B__B__");

    // shouldn't change anything about these
    assert_eq!(normalize_path("A_B"), "A_B");
    assert_eq!(normalize_path("AB"), "AB");
}

#[test]
fn display_order_format() {
    assert_eq!(leading_whitespace(3usize, 100usize), String::from("  #3"));
    assert_eq!(leading_whitespace(3usize, 1000usize), String::from("   #3"));
    assert_eq!(leading_whitespace(3usize, 5692usize), String::from("   #3"));
}

#[test]
fn print_order_format() {
    assert_eq!(leading_whitespace(3usize, 100usize), String::from("  #3"));
    assert_eq!(leading_whitespace(3usize, 1000usize), String::from("   #3"));
    assert_eq!(leading_whitespace(3usize, 5692usize), String::from("   #3"));
}

#[test]
fn normalized_paths_are_valid_and_stable() {
    assert_eq!(normalize_path("A\tB"), "A_B");
    assert_eq!(normalize_path("A\nB\u{3000}C"), "A_B_C");
    for path in ["", ".", "..", "a\tb\r\n", " A|B<>B? ", "AC/DC", "a:b*c?d\"e", "plain"] {
        let once = normalize_path(path);
        assert!(!once.is_empty());
        assert_ne!(once, ".");
        assert!(!once.chars().any(|c| c.is_whitespace() || "<>:\"/\\|?*".contains(c)));
        assert_eq!(normalize_path(&once), once);
    }
}

#[test]
fn positions_and_spaces() {
    assert_eq!(spaces(3), "   ");
    assert_eq!(spaces(0), "");
    assert_eq!(spaces(100).len(), 100);
    assert_eq!(spaces(101), "");
    assert_eq!(leading_whitespace(10usize, 10usize), "#10");
    assert_eq!(leading_whitespace(1usize, 1usize), "#1");
}
