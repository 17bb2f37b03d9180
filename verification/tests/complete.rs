use slack_tui::complete::{ghost, rank, Cycle};

fn candidates() -> Vec<String> {
    ["rocket", "rock", "racing_car", "tada"].map(String::from).to_vec()
}

#[test]
fn ranking_puts_the_closest_match_first_and_keeps_the_rest() {
    assert_eq!(rank("rock", &candidates())[0], "rock");
    assert!(rank("rock", &candidates()).contains(&"rocket".to_string()));
    assert_eq!(rank("zzz", &candidates()), Vec::<String>::new());
}

#[test]
fn an_empty_token_offers_every_candidate_in_order() {
    assert_eq!(rank("", &candidates()), candidates());
}

#[test]
fn the_ghost_completes_what_the_token_starts() {
    assert_eq!(ghost("rock", &candidates()).as_deref(), Some("et"), "a candidate it starts wins over the fuzzy match");
    assert_eq!(ghost("ROCK", &candidates()).as_deref(), Some("et"), "case does not matter");
    assert_eq!(ghost("", &candidates()), None);
    assert_eq!(ghost("zzz", &candidates()), None);
    assert_eq!(ghost("rcar", &candidates()), None, "a fuzzy match the token does not start suggests nothing");
}

#[test]
fn cycling_walks_the_candidates_both_ways_and_wraps() {
    let mut cycle = Cycle::new("rock", &candidates()).expect("matches");
    assert_eq!(cycle.current(), "rock");
    cycle.advance(false);
    assert_eq!(cycle.current(), "rocket");
    cycle.advance(false);
    assert_eq!(cycle.current(), "rock", "two matches, so it wraps");
    cycle.advance(true);
    assert_eq!(cycle.current(), "rocket");
    assert_eq!(Cycle::new("zzz", &candidates()), None);
}

#[test]
fn the_hint_marks_the_option_in_hand_and_labels_them_all() {
    let cycle = Cycle::new("rock", &candidates()).expect("matches");
    assert_eq!(cycle.hint(str::to_owned), "[rock]  rocket");
    assert_eq!(cycle.hint(|o| format!("· {o}")), "[· rock]  · rocket");
}

#[test]
fn ranking_keeps_fifty_at_most() {
    let many: Vec<String> = (0..60).map(|i| format!("name{i}")).collect();
    assert_eq!(rank("", &many).len(), 50);
    assert_eq!(rank("name", &many).len(), 50);
}

#[test]
fn the_hint_shows_four_options_from_the_one_in_hand() {
    let names: Vec<String> = ["aa", "ab", "ac", "ad", "ae"].map(String::from).to_vec();
    let mut cycle = Cycle::new("a", &names).expect("matches");
    assert_eq!(cycle.hint(str::to_owned), "[aa]  ab  ac  ad");
    cycle.advance(true);
    assert_eq!(cycle.hint(str::to_owned), "[ae]");
}

#[test]
fn the_ghost_starts_as_many_bytes_in_as_the_token_takes() {
    let names = vec!["kelvin".to_string()];
    assert_eq!(ghost("\u{212A}", &names).as_deref(), Some("vin"), "the Kelvin sign takes three bytes");
    let odd = vec!["k\u{20AC}x".to_string()];
    assert_eq!(ghost("\u{212A}", &odd), None, "three bytes in falls inside the euro sign");
}
