use slack_tui::state::{Focus, Live};
use slack_tui::status::{hints, key_hints, live_dot};

#[test]
fn key_hints_stay_short_and_follow_the_focus() {
    let hint_of = |focus| key_hints(None, false, false, focus);
    for focus in [Focus::Channels, Focus::Messages, Focus::Thread] {
        let hints = hint_of(focus);
        assert!(hints.starts_with("j/k move"), "{focus:?}: {hints}");
        assert!(hints.ends_with("? more"), "{focus:?}: {hints}");
        assert_eq!(hints.split(" · ").count(), 5, "{focus:?}: {hints}");
    }
    assert!(hint_of(Focus::Messages).contains("enter thread"));
    assert!(hint_of(Focus::Thread).contains("esc close"));
    assert!(hint_of(Focus::Channels).contains("/ filter"));
}

#[test]
fn a_picker_or_a_row_in_hand_takes_over_the_hints() {
    assert_eq!(key_hints(Some(true), true, true, Focus::Thread), "type a name · ←/→ move · enter react · esc cancel");
    assert_eq!(key_hints(Some(false), false, false, Focus::Channels), "1-8 react · h/l move · enter react · / search · esc cancel");
    assert_eq!(key_hints(None, true, true, Focus::Channels), "tab cycle · → accept · ↑ history · enter run · esc cancel");
    assert_eq!(key_hints(None, false, true, Focus::Messages), "enter send · esc cancel");
}

#[test]
fn the_update_notice_comes_before_the_hints() {
    assert_eq!(hints(None, "keys", None), "keys");
    assert_eq!(hints(Some("[rock]  rocket"), "keys", None), "[rock]  rocket");
    assert_eq!(hints(None, "keys", Some("update available · slack update")), "update available · slack update · keys");
}

#[test]
fn the_dot_tells_how_updates_arrive() {
    assert_eq!(live_dot(&Live::Connected), "● ");
    assert_eq!(live_dot(&Live::Connecting), "○ ");
    assert_eq!(live_dot(&Live::Polling("refused".into())), "↻ ");
}
