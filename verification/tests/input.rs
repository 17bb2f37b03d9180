use slack_tui::emoji::emoji_names;
use slack_tui::field::Field;
use slack_tui::input::{accept_ghost, input_ghost};

fn typed(text: &str) -> Field {
    let mut field = Field::default();
    for c in text.chars() {
        field.insert(c);
    }
    field
}

#[test]
fn right_takes_the_suggested_end_of_the_name_and_leaves_the_cursor_after_it() {
    let names = emoji_names();
    let mut buffer = typed("rocke");
    assert_eq!(input_ghost(&buffer, false, &names).as_deref(), Some("t"));
    assert!(accept_ghost(&mut buffer, false, &names));
    assert_eq!(buffer.text(), "rocket");
    assert_eq!(input_ghost(&buffer, false, &names), None, "a complete name suggests nothing");
    buffer.insert('!');
    assert_eq!(buffer.text(), "rocket!", "the cursor stayed at the end");
}

#[test]
fn the_react_row_suggests_nothing_with_the_cursor_mid_text() {
    let names = emoji_names();
    let mut buffer = typed("rocke");
    buffer.left();
    assert_eq!(input_ghost(&buffer, false, &names), None);
    assert!(!accept_ghost(&mut buffer, false, &names));
    buffer.right();
    assert_eq!(input_ghost(&buffer, false, &names).as_deref(), Some("t"), "back at the end, the suggestion is back");
}

#[test]
fn nothing_is_suggested_while_tab_cycles_or_without_names() {
    let names = emoji_names();
    let buffer = typed("rocke");
    assert_eq!(input_ghost(&buffer, true, &names), None);
    assert_eq!(input_ghost(&buffer, false, &[]), None);
}

#[test]
fn a_pasted_glyph_completes_by_its_name() {
    let names = emoji_names();
    let buffer = typed("🚀");
    assert_eq!(input_ghost(&buffer, false, &names), None, "the glyph is already the whole name");
}
