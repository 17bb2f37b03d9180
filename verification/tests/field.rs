use slack_tui::field::Field;

/// The text with the cursor drawn in it, so a test reads as what the row shows.
fn shown(field: &Field) -> String {
    let (before, under, after) = field.split();
    format!("{before}|{under}{after}")
}

fn typed(text: &str) -> Field {
    let mut field = Field::default();
    for c in text.chars() {
        field.insert(c);
    }
    field
}

#[test]
fn typing_leaves_the_cursor_after_the_last_character() {
    assert_eq!(shown(&typed("hey")), "hey|");
    assert_eq!(typed("hey").text(), "hey");
}

#[test]
fn prefilled_text_starts_with_the_cursor_at_the_end() {
    assert_eq!(shown(&Field::new("hey")), "hey|");
    assert_eq!(shown(&Field::default()), "|");
}

#[test]
fn insert_lands_where_the_cursor_is() {
    let mut field = Field::new("hey");
    field.left();
    field.insert('l');
    assert_eq!(shown(&field), "hel|y");
}

#[test]
fn movement_stops_at_both_ends() {
    let mut field = Field::new("ab");
    field.right();
    assert_eq!(shown(&field), "ab|");
    field.left();
    field.left();
    field.left();
    assert_eq!(shown(&field), "|ab");
}

#[test]
fn home_and_end_jump_to_the_edges() {
    let mut field = Field::new("hey");
    field.start();
    assert_eq!(shown(&field), "|hey");
    field.end();
    assert_eq!(shown(&field), "hey|");
}

#[test]
fn backspace_eats_the_character_before_the_cursor_and_nothing_at_the_start() {
    let mut field = Field::new("hey");
    field.backspace();
    assert_eq!(shown(&field), "he|");
    field.start();
    field.backspace();
    assert_eq!(shown(&field), "|he");
    field.right();
    field.backspace();
    assert_eq!(shown(&field), "|e");
}

#[test]
fn delete_eats_the_character_under_the_cursor_and_nothing_at_the_end() {
    let mut field = Field::new("hey");
    field.delete();
    assert_eq!(shown(&field), "hey|");
    field.start();
    field.delete();
    assert_eq!(shown(&field), "|ey");
    field.right();
    field.delete();
    assert_eq!(shown(&field), "e|");
}

#[test]
fn delete_word_takes_the_word_before_the_cursor_with_its_trailing_spaces() {
    let mut field = Field::new("ship it now");
    field.delete_word();
    assert_eq!(shown(&field), "ship it |");

    let mut spaced = Field::new("ship it   ");
    spaced.delete_word();
    assert_eq!(shown(&spaced), "ship |");

    let mut only_word = Field::new("ship");
    only_word.delete_word();
    assert_eq!(shown(&only_word), "|");

    let mut empty = Field::default();
    empty.delete_word();
    assert_eq!(shown(&empty), "|");
}

#[test]
fn delete_word_keeps_what_follows_the_cursor() {
    let mut field = Field::new("ship it now");
    field.start();
    field.right();
    field.right();
    field.right();
    field.right();
    field.delete_word();
    assert_eq!(shown(&field), "| it now");
}

#[test]
fn accents_move_and_delete_as_one_character() {
    let mut field = Field::new("café");
    field.left();
    assert_eq!(shown(&field), "caf|é");
    field.insert('è');
    assert_eq!(shown(&field), "cafè|é");
    field.backspace();
    assert_eq!(shown(&field), "caf|é");
    field.delete();
    assert_eq!(shown(&field), "caf|");
}

#[test]
fn emoji_move_and_delete_as_one_character() {
    let mut field = Field::new("a🚀b");
    field.start();
    field.right();
    assert_eq!(shown(&field), "a|🚀b");
    field.right();
    assert_eq!(shown(&field), "a🚀|b");
    field.backspace();
    assert_eq!(shown(&field), "a|b");
    field.insert('🎉');
    assert_eq!(shown(&field), "a🎉|b");
    field.delete();
    assert_eq!(shown(&field), "a🎉|");
}

#[test]
fn delete_word_splits_multi_byte_words_on_their_spaces() {
    let mut field = Field::new("café 🚀 fusée");
    field.delete_word();
    assert_eq!(shown(&field), "café 🚀 |");
    field.delete_word();
    assert_eq!(shown(&field), "café |");
}

#[test]
fn take_hands_the_text_over_and_resets_the_row() {
    let mut field = Field::new("café");
    assert_eq!(field.take(), "café");
    assert_eq!(shown(&field), "|");
    field.insert('a');
    assert_eq!(shown(&field), "a|");
    field.clear();
    assert_eq!(shown(&field), "|");
}

#[test]
fn backspace_right_after_typing_takes_the_character_back() {
    let mut field = Field::new("ship it");
    field.left();
    field.left();
    field.insert('x');
    field.backspace();
    assert_eq!(shown(&field), "ship |it");
    assert!(!field.at_end());
    field.end();
    assert!(field.at_end());
}

#[test]
fn a_tab_counts_as_a_space_between_words() {
    let mut field = Field::new("ship\tit");
    field.delete_word();
    assert_eq!(shown(&field), "ship\t|");
}

#[test]
fn typing_lands_between_the_pieces_and_they_rejoin() {
    let mut field = Field::new("héllo");
    field.left();
    field.left();
    field.cursor_inside();
    let (b, u, a) = field.split();
    assert_eq!((b.as_str(), u.as_str(), a.as_str()), ("hél", "l", "o"));
    assert_eq!(format!("{b}{u}{a}"), field.text());
    field.insert('✓');
    assert_eq!(field.text(), format!("{b}✓{u}{a}"));
    let (b2, u2, a2) = field.split();
    assert_eq!(b2, format!("{b}✓"));
    assert_eq!(format!("{u2}{a2}"), format!("{u}{a}"));
    field.end();
    let (_, under, after) = field.split();
    assert!(under.is_empty() && after.is_empty() && field.at_end());
}
