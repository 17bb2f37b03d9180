use slack_tui::theme::{Color, Theme};

#[test]
fn every_listed_name_resolves_to_itself() {
    for name in Theme::names() {
        assert_eq!(Theme::named(name).map(|t| t.name), Some(name), "{name}");
    }
}

#[test]
fn names_are_forgiving_and_unknown_is_none() {
    assert_eq!(Theme::named("Tokyo Night").unwrap().name, "tokyonight");
    assert_eq!(Theme::named("catppuccin_mocha").unwrap().name, "catppuccin");
    assert_eq!(Theme::named("Rose-Pine Dawn").unwrap().name, "rosepine-dawn");
    assert_eq!(Theme::named("solarized"), None);
    assert_eq!(Theme::named(""), None);
}

#[test]
fn user_colors_are_stable_and_spread() {
    let theme = Theme::default();
    assert_eq!(theme.user("vivien"), theme.user(" vivien "));
    let mut distinct: Vec<Color> = ["a", "b", "c", "d", "e", "f", "g", "h"].iter().map(|n| theme.user(n)).collect();
    distinct.dedup();
    assert!(distinct.len() > 1);
}

#[test]
fn aliases_pick_the_same_palette() {
    assert_eq!(Theme::named("slack"), Some(Theme::default()));
    assert_eq!(Theme::named("Latte"), Theme::named("catppuccin-latte"));
    assert_eq!(Theme::named("dawn").unwrap().base, Color::Rgb(0xfa, 0xf4, 0xed));
}

#[test]
fn a_user_colour_follows_the_name_hash() {
    let theme = Theme::named("nord").unwrap();
    let hash = "ab".bytes().fold(7usize, |h, b| h.wrapping_mul(33).wrapping_add(b as usize));
    assert_eq!(theme.user("ab"), theme.users[hash % 6]);
    assert_eq!(theme.user(""), theme.users[7 % 6]);
}

#[test]
fn an_unknown_theme_setting_lists_the_known_ones() {
    assert_eq!(slack_tui::theme::theme_setting("Nord").map(|t| t.name), Ok("nord"));
    assert_eq!(
        slack_tui::theme::theme_setting("solarized").map(|t| t.name),
        Err("unknown theme `solarized` (try default, dracula, catppuccin, catppuccin-latte, rosepine, rosepine-dawn, nord, tokyonight, monokai)".to_string())
    );
}
