use slack_tui::live::Reaction;
use slack_tui::react::{is_mine, pill_text, pills, reaction_name, strip, Pick, PickKey, Search};

fn reaction(name: &str) -> Reaction {
    Reaction { name: name.into(), count: 1, users: vec!["U2".into()] }
}

#[test]
fn strip_puts_the_message_first_then_the_most_used_then_the_starters() {
    let favorites = vec![("fire".to_owned(), 3), ("eyes".to_owned(), 5), ("tada".to_owned(), 3)];
    let strip = strip(&[reaction("rocket"), reaction("eyes")], &favorites);
    assert_eq!(strip, ["rocket", "eyes", "fire", "tada", "+1", "white_check_mark", "heart", "joy"]);
}

#[test]
fn search_finds_custom_emoji_too() {
    let search = Search::of("partyp".into(), &["partyparrot".into()]);
    assert_eq!(search.found.first().map(String::as_str), Some("partyparrot"));
}

#[test]
fn a_pasted_glyph_reacts_with_the_name_slack_wants() {
    assert_eq!(reaction_name("🚀"), "rocket");
    assert_eq!(reaction_name("👍🏽"), "+1", "a skin tone reacts with the base name");
    assert_eq!(reaction_name("rocket"), "rocket");
    assert_eq!(reaction_name(":rocket:"), "rocket");
    assert_eq!(reaction_name("partyparrot"), "partyparrot", "a custom emoji is a name of its own");
}

#[test]
fn the_strip_holds_eight_at_most_and_never_twice_the_same() {
    let on = [reaction("a"), reaction("b"), reaction("a"), reaction("c"), reaction("d"), reaction("e"), reaction("f"), reaction("g"), reaction("h"), reaction("i")];
    assert_eq!(strip(&on, &[]), ["a", "b", "c", "d", "e", "f", "g", "h"]);
    assert_eq!(strip(&[], &[]), ["+1", "white_check_mark", "eyes", "tada", "heart", "joy", "pray", "rocket"]);
}

#[test]
fn the_choices_are_the_search_results_while_searching() {
    let mut pick = Pick { channel: "C1".into(), ts: "1".into(), strip: vec!["+1".into()], selected: 0, search: None };
    assert_eq!(pick.choices(), ["+1"]);
    pick.search = Some(Search { query: "ro".into(), found: vec!["rocket".into()] });
    assert_eq!(pick.choices(), ["rocket"]);
}

#[test]
fn a_search_ranks_exact_names_first() {
    let search = Search::of("x".into(), &[]);
    assert_eq!(search.found.first().map(String::as_str), Some("x"));
    assert_eq!(search.query, "x");
}

#[test]
fn a_pill_shows_the_glyph_or_the_bare_name_and_the_count() {
    let tada = Reaction { name: "tada".into(), count: 12, users: vec!["U1".into(), "U2".into()] };
    assert_eq!(pill_text(&tada), "🎉 12");
    assert_eq!(pill_text(&Reaction { name: "partyparrot".into(), count: 1, users: vec![] }), "partyparrot 1");
    assert!(is_mine(&tada, "U2"));
    assert!(!is_mine(&tada, "U3"));
    assert!(!is_mine(&Reaction { name: "x".into(), count: 1, users: vec!["".into()] }, ""));
}

fn picker() -> Pick {
    Pick {
        channel: "C1".into(),
        ts: "1".into(),
        strip: ["rocket", "eyes", "fire"].map(String::from).to_vec(),
        selected: 0,
        search: None,
    }
}

#[test]
fn the_picker_moves_reacts_and_closes() {
    let (next, chosen) = picker().key(PickKey::Right, &[]);
    assert_eq!(next.as_ref().map(|p| p.selected), Some(1));
    assert_eq!(chosen, None);
    let far = Pick { selected: 2, ..picker() };
    assert_eq!(far.key(PickKey::Char('l'), &[]).0.map(|p| p.selected), Some(2));
    assert_eq!(picker().key(PickKey::Left, &[]).0.map(|p| p.selected), Some(0));
    assert_eq!(far.key(PickKey::Enter, &[]), (None, Some("fire".to_string())));
    assert_eq!(picker().key(PickKey::Char('2'), &[]), (None, Some("eyes".to_string())));
    assert_eq!(picker().key(PickKey::Char('8'), &[]), (None, None));
    assert_eq!(picker().key(PickKey::Other, &[]), (None, None));
}

#[test]
fn slash_searches_and_backspace_on_an_empty_query_goes_back_to_the_strip() {
    let (searching, _) = picker().key(PickKey::Char('/'), &[]);
    let searching = searching.expect("still open");
    assert_eq!(searching.search.as_ref().map(|s| s.query.as_str()), Some(""));
    let (typed, _) = searching.key(PickKey::Char('t'), &["tacocat".into()]);
    let typed = typed.expect("still open");
    assert_eq!(typed.search.as_ref().map(|s| s.query.as_str()), Some("t"));
    assert!(typed.choices().iter().any(|c| c == "tacocat"));
    let (erased, _) = typed.key(PickKey::Backspace, &[]);
    let erased = erased.expect("still open");
    assert_eq!(erased.search.as_ref().map(|s| s.query.as_str()), Some(""));
    let (back, _) = erased.key(PickKey::Backspace, &[]);
    let back = back.expect("still open");
    assert_eq!(back.search, None);
    assert_eq!(back.strip, picker().strip);
}

#[test]
fn reaction_pills_glow_when_mine() {
    let reactions = vec![
        Reaction { name: "rocket".into(), count: 3, users: vec!["U1".into(), "U2".into()] },
        Reaction { name: "merged".into(), count: 1, users: vec!["U2".into()] },
    ];
    let row = pills(&reactions, "U1");
    assert_eq!(row, vec![("🚀 3".to_string(), true), ("merged 1".to_string(), false)]);
    assert!(pills(&reactions, "").iter().all(|(_, mine)| !mine));
    assert!(pills(&[], "U1").is_empty());
}
