use slack_tui::firehose::{push, Firehose, FirehoseKey, FirehoseOutcome, CAPACITY};
use std::collections::VecDeque;

fn line(n: u64) -> String {
    format!("event {n} on prod")
}

#[test]
fn ring_buffer_and_scrolling() {
    let mut wall = VecDeque::new();
    for n in 0..(CAPACITY as u64 + 5) {
        push(&mut wall, line(n));
    }
    assert_eq!(wall.len(), CAPACITY);
    assert_eq!(wall.front().unwrap(), "event 5 on prod");
    let mut view = Firehose::default();
    assert!(view.following());
    view.move_by(-1, wall.len());
    assert_eq!(view.selected, Some(CAPACITY - 2));
    view.move_by(10, wall.len());
    assert!(view.following());
    view.move_by(i64::MIN / 2, wall.len());
    assert_eq!(view.selected, Some(0));
    view.follow();
    assert!(view.following());
}

#[test]
fn an_empty_wall_always_follows() {
    let mut view = Firehose { selected: Some(3) };
    view.move_by(-1, 0);
    assert!(view.following());
}

#[test]
fn wall_keys_move_open_and_close() {
    let mut view = Firehose::default();
    assert_eq!(view.key(FirehoseKey::Enter, 5), FirehoseOutcome::Open(4), "following opens the newest line");
    assert_eq!(view.key(FirehoseKey::Char('k'), 5), FirehoseOutcome::Stay);
    assert_eq!(view.selected, Some(3));
    view.key(FirehoseKey::PageUp, 5);
    assert_eq!(view.selected, Some(0));
    view.key(FirehoseKey::Down, 5);
    assert_eq!(view.key(FirehoseKey::Enter, 5), FirehoseOutcome::Open(1));
    view.key(FirehoseKey::Char('G'), 5);
    assert!(view.following());
    view.key(FirehoseKey::Char('g'), 5);
    assert_eq!(view.selected, Some(0));
    assert_eq!(view.key(FirehoseKey::Char('n'), 5), FirehoseOutcome::Noise);
    assert!(view.following());
    assert_eq!(view.key(FirehoseKey::Enter, 0), FirehoseOutcome::Stay, "an empty wall opens nothing");
    assert_eq!(view.key(FirehoseKey::Char('f'), 5), FirehoseOutcome::Close);
    assert_eq!(view.key(FirehoseKey::Esc, 5), FirehoseOutcome::Close);
    assert_eq!(view.key(FirehoseKey::Char('q'), 5), FirehoseOutcome::Quit);
    assert_eq!(view.key(FirehoseKey::Char('?'), 5), FirehoseOutcome::Help);
    assert_eq!(view.key(FirehoseKey::Char('x'), 5), FirehoseOutcome::Stay);
    let mut stale = Firehose { selected: Some(7) };
    assert_eq!(stale.key(FirehoseKey::Enter, 3), FirehoseOutcome::Stay, "a line no longer shown opens nothing");
}
