use slack_tui::feedback::{after_key, animating, location, redraw_in, status_line, Screen, Toast, Typing, Until};
use slack_tui::motion::{FRAME_MS, SPINNER_FRAME_MS};
use slack_tui::quit::{press, quit_prompt, QuitKey};

const SECOND: u64 = 1000;

/// Who types in the open conversation reaches the line; the signed-in user and other
/// conversations do not.
fn typing(t: &mut Typing, channel: &str, user: &str, now: u64) {
    if channel == "C1" && user != "U1" {
        t.mark(user, now);
    }
}

#[test]
fn a_typist_shows_for_five_seconds_then_goes_quiet() {
    let mut t = Typing::new();
    typing(&mut t, "C1", "U2", 0);
    assert_eq!(t.line(0).as_deref(), Some("U2 is typing···"));
    assert_eq!(t.line(4 * SECOND).as_deref(), Some("U2 is typing···"));
    assert_eq!(t.line(5 * SECOND), None);
}

#[test]
fn typing_again_extends_only_that_person() {
    let mut t = Typing::new();
    typing(&mut t, "C1", "U2", 0);
    typing(&mut t, "C1", "U3", 3 * SECOND);
    assert_eq!(t.line(6 * SECOND).as_deref(), Some("U3 is typing···"));
    typing(&mut t, "C1", "U3", 6 * SECOND);
    assert_eq!(t.line(10 * SECOND).as_deref(), Some("U3 is typing···"));
}

#[test]
fn typing_elsewhere_or_by_me_shows_nothing() {
    let mut t = Typing::new();
    typing(&mut t, "C2", "U2", 0);
    typing(&mut t, "C1", "U1", 0);
    assert_eq!(t.line(0), None);
}

#[test]
fn several_typists_read_as_one_line_whatever_their_order() {
    let mut t = Typing::new();
    typing(&mut t, "C1", "U3", 0);
    typing(&mut t, "C1", "U2", 0);
    assert_eq!(t.line(0).as_deref(), Some("U2 and U3 are typing···"));
    typing(&mut t, "C1", "U4", 0);
    assert_eq!(t.line(0).as_deref(), Some("3 people are typing···"));
}

#[test]
fn opening_another_conversation_forgets_its_typists() {
    let mut t = Typing::new();
    typing(&mut t, "C1", "U2", 0);
    t.clear();
    assert_eq!(t.line(0), None);
}

#[test]
fn a_toast_goes_after_two_seconds_and_an_error_at_the_next_key() {
    let toast = Toast::timed("saved".into(), 10 * SECOND);
    assert!(toast.live(11 * SECOND));
    assert!(!toast.live(12 * SECOND));
    assert_eq!(after_key(Some(Toast::timed("saved".into(), 0))).map(|t| t.text), Some("saved".to_string()));
    let error = Toast::failure("no network");
    assert_eq!(error.text, "✗ no network");
    assert_eq!(error.until, Until::NextKey);
    assert!(error.live(u64::MAX));
    assert_eq!(after_key(Some(error)), None);
}

#[test]
fn quitting_takes_the_same_key_twice_in_a_short_while() {
    let (pending, quit) = press(None, QuitKey::Q, 0);
    assert!(!quit);
    assert_eq!(quit_prompt(pending, 100).as_deref(), Some("press q again to quit"));
    assert_eq!(press(pending, QuitKey::CtrlC, 100), (Some((QuitKey::CtrlC, 100)), false));
    assert_eq!(press(pending, QuitKey::Q, 1499), (None, true));
    assert_eq!(press(pending, QuitKey::Q, 1500), (Some((QuitKey::Q, 1500)), false));
    assert_eq!(quit_prompt(pending, 1500), None);
    assert_eq!(quit_prompt(Some((QuitKey::CtrlC, 0)), 0).as_deref(), Some("press ctrl-c again to quit"));
}

#[test]
fn status_follows_where_you_are() {
    assert_eq!(location(None, None, 0), "loading channels…");
    assert_eq!(location(None, None, 2), "2 conversations · ? for help");
    assert_eq!(location(None, Some("C1"), 2), "C1");
    assert_eq!(location(Some(1), Some("C1"), 2), "1 results · enter to jump · esc to close");
}

#[test]
fn toast_covers_the_status_for_two_seconds() {
    let toast = Toast::timed("permalink copied".into(), 0);
    assert_eq!(status_line(Some(&toast), 0, "C1".into()), "permalink copied");
    assert_eq!(status_line(Some(&toast), 1999, "C1".into()), "permalink copied");
    assert_eq!(status_line(Some(&toast), 2000, "C1".into()), "C1");
}

#[test]
fn error_survives_time_and_clears_on_the_next_key() {
    let error = Toast::failure("boom");
    assert_eq!(status_line(Some(&error), 60 * SECOND, "C1".into()), "✗ boom");
    assert!(!animating(screen(), Some(&error), 60 * SECOND), "nothing to wake up for");
    let after = after_key(Some(error));
    assert_eq!(status_line(after.as_ref(), 60 * SECOND, "C1".into()), "C1");
}

fn screen() -> Screen {
    Screen {
        firehose: false,
        jump: false,
        help: false,
        inbox: None,
        loading: false,
        search: None,
        no_messages: false,
        pictures_loading: false,
    }
}

#[test]
fn animates_only_while_an_empty_state_is_visible() {
    let nothing_open = Screen { no_messages: true, ..screen() };
    assert!(animating(nothing_open, None, 0), "no conversation picked yet");
    assert!(!animating(Screen { loading: true, ..nothing_open }, None, 0), "history is loading");
    assert!(animating(nothing_open, None, 0), "empty channel");
    assert!(!animating(screen(), None, 0));
    assert!(animating(Screen { search: Some(true), ..screen() }, None, 0), "search without results");
    assert!(!animating(Screen { search: Some(false), ..nothing_open }, None, 0), "results hide the empty channel");
    assert!(!animating(Screen { help: true, search: Some(true), ..screen() }, None, 0), "a modal covers it");
    assert!(animating(Screen { inbox: Some((true, false)), ..screen() }, None, 0), "an empty inbox");
    assert!(!animating(Screen { inbox: Some((false, false)), ..nothing_open }, None, 0));
}

#[test]
fn timed_toast_keeps_the_loop_awake_until_it_ends() {
    assert_eq!(redraw_in(screen(), None, 0), None);
    let toast = Toast::timed("no link in this message".into(), 1000);
    assert_eq!(redraw_in(screen(), Some(&toast), 1000), Some(FRAME_MS));
    assert_eq!(redraw_in(screen(), Some(&toast), 3000), None);
    assert_eq!(redraw_in(screen(), Some(&Toast::failure("boom")), 0), None, "an error waits for a key");
}

#[test]
fn loading_wakes_the_loop_at_spinner_speed() {
    assert_eq!(redraw_in(Screen { loading: true, ..screen() }, None, 0), Some(SPINNER_FRAME_MS));
    assert_eq!(redraw_in(Screen { inbox: Some((true, true)), ..screen() }, None, 0), Some(SPINNER_FRAME_MS), "inbox is loading");
    assert_eq!(redraw_in(Screen { pictures_loading: true, ..screen() }, None, 0), Some(SPINNER_FRAME_MS));
}
