use slack_tui::empty::{empty_state, floating, ghost, text_start, Empty};
use slack_tui::sidebar::Kind;
use unicode_width::UnicodeWidthStr;

fn ghost_rows_share_one_width_and_blink_rarely() {
    for frame in 0..32 {
        let rows = ghost(frame);
        assert!(rows.iter().all(|r| r.width() == rows[0].width()), "frame {frame}: {rows:?}");
    }
    assert!(ghost(0)[1].contains("◠ ◠"));
    assert!(ghost(14)[1].contains("─ ─"));
    assert_eq!((0..32).filter(|f| ghost(*f)[1].contains("─ ─")).count(), 2);
}

#[test]
fn ui_ghost_rows_share_one_width_and_blink_rarely() {
    ghost_rows_share_one_width_and_blink_rarely();
}

#[test]
fn empty_ghost_rows_share_one_width_and_blink_rarely() {
    ghost_rows_share_one_width_and_blink_rarely();
}

#[test]
fn the_ghost_floats_up_four_frames_and_down_four() {
    let ups: Vec<bool> = (0..9).map(floating).collect();
    assert_eq!(ups, [false, false, false, false, true, true, true, true, false]);
}

#[test]
fn text_starts_past_the_time_and_the_name() {
    assert_eq!(text_start(0), 7);
    assert_eq!(text_start(10), 17);
}

fn caption(title: &str, hint: &str, key: &'static str) -> Option<Empty> {
    Some(Empty { title: title.into(), hint: hint.into(), key: Some(key) })
}

#[test]
fn an_empty_pane_says_what_to_do_next() {
    assert_eq!(empty_state(false, None, 0, Some(Kind::Dm), "D1"), caption("nothing here yet", "say hi to D1 with", "r"));
    assert_eq!(
        empty_state(false, None, 0, Some(Kind::Public), "#ops"),
        caption("nothing here yet", "be the first to post in #ops with", "r")
    );
    assert_eq!(empty_state(false, None, 0, None, ""), caption("pick a conversation", "on the left, then", "enter"));
    assert_eq!(empty_state(false, Some(0), 3, Some(Kind::Dm), "D1"), caption("no results", "try other words with", "s"));
}

#[test]
fn a_pane_with_something_to_show_or_still_loading_has_no_caption() {
    assert_eq!(empty_state(true, None, 0, None, ""), None);
    assert_eq!(empty_state(false, Some(2), 0, None, ""), None);
    assert_eq!(empty_state(false, None, 1, Some(Kind::Public), "#ops"), None);
}
