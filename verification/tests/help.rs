use slack_tui::help::{help_bindings, help_groups, help_key_width, help_width, HELP_FOOTER};
use unicode_width::UnicodeWidthStr;

#[test]
fn bindings_come_group_after_group() {
    let bindings = help_bindings();
    assert_eq!(bindings.len(), help_groups().iter().map(|(_, b)| b.len()).sum::<usize>());
    assert_eq!(bindings[0], ("tab", "cycle panes"));
    assert_eq!(bindings.last(), Some(&("q", "quit")));
}

#[test]
fn the_key_column_fits_the_widest_key() {
    let widest = help_bindings().iter().map(|(k, _)| k.width()).max().unwrap_or(0);
    assert_eq!(help_key_width(), widest);
    assert_eq!(help_key_width(), 7);
}

#[test]
fn the_overlay_fits_every_line() {
    let key_w = help_key_width();
    let lines = help_bindings().iter().map(|(_, what)| 2 + key_w + 2 + what.width()).max().unwrap_or(0);
    let names = help_groups().iter().map(|(name, _)| name.width()).max().unwrap_or(0);
    let expected = lines.max(names).max(HELP_FOOTER.width());
    assert_eq!(help_width() as usize, expected);
    assert!(help_width() as usize >= HELP_FOOTER.width());
}
