use slack_tui::version::{label, short, UNKNOWN};

#[test]
fn short_keeps_the_first_seven_characters() {
    assert_eq!(short("9731436a0e7c4d1b2f3a4b5c6d7e8f9a0b1c2d3e"), "9731436");
}

#[test]
fn short_leaves_an_unknown_commit_readable() {
    assert_eq!(short(UNKNOWN), UNKNOWN);
}

#[test]
fn short_leaves_a_shorter_commit_untouched() {
    assert_eq!(short("abc12"), "abc12");
}

#[test]
fn label_carries_the_crate_version() {
    assert!(label("0.1.0", "9731436a0e7c4d1b2f3a4b5c6d7e8f9a0b1c2d3e").starts_with("0.1.0"));
}

#[test]
fn label_puts_the_short_commit_in_brackets() {
    assert_eq!(label("0.1.0", "9731436a0e7c4d1b2f3a4b5c6d7e8f9a0b1c2d3e"), "0.1.0 (9731436)");
    assert_eq!(label("2.0.0", UNKNOWN), "2.0.0 (unknown)");
}

#[test]
fn a_cut_inside_a_character_keeps_the_whole_commit() {
    assert_eq!(short("abcdeé9"), "abcdeé");
    assert_eq!(short("abcdefé"), "abcdefé");
    assert_eq!(short("abcdefgé"), "abcdefg");
}
