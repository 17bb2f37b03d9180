use slack_tui::emoji::{emoji_names, glyph, name_for, shortcode};

#[test]
fn glyphs_are_known_by_name_whatever_their_shading() {
    assert_eq!(name_for("🚀"), Some("rocket"));
    assert_eq!(name_for("👍🏿"), Some("+1"));
    assert_eq!(name_for("❤️"), Some("heart"));
    assert_eq!(name_for("rocket"), None);
    assert_eq!(name_for(""), None);
}

#[test]
fn anything_else_stands_as_typed() {
    assert_eq!(shortcode("🎉"), "tada");
    assert_eq!(shortcode("partyparrot"), "partyparrot");
}

#[test]
fn names_come_in_alphabetical_order() {
    let names = emoji_names();
    assert_eq!(names.first().map(String::as_str), Some("+1"));
    assert!(names.windows(2).all(|w| w[0] < w[1]));
    assert!(names.iter().any(|n| n == "white_check_mark"));
}

#[test]
fn known_names_have_a_glyph_and_custom_ones_none() {
    assert_eq!(glyph("rocket"), Some("🚀"));
    assert_eq!(glyph("+1"), Some("👍"));
    assert_eq!(glyph("partyparrot"), None);
}
