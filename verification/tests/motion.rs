use slack_tui::motion::{frame, frame_of, spinner, spinner_of};
use std::time::Duration;

#[test]
fn spinner_steps_every_80ms_and_wraps_around() {
    assert_eq!(spinner(Duration::ZERO), "⠋");
    assert_eq!(spinner(Duration::from_millis(79)), "⠋");
    assert_eq!(spinner(Duration::from_millis(80)), "⠙");
    assert_eq!(spinner(Duration::from_millis(799)), "⠏");
    assert_eq!(spinner(Duration::from_millis(800)), "⠋");
}

#[test]
fn frame_steps_every_300ms() {
    assert_eq!(frame(Duration::from_millis(299)), 0);
    assert_eq!(frame(Duration::from_millis(300)), 1);
    assert_eq!(frame(Duration::from_secs(3)), 10);
}

#[test]
fn steps_count_from_whole_milliseconds() {
    assert_eq!(frame_of(0), 0);
    assert_eq!(frame_of(599), 1);
    assert_eq!(spinner_of(160), "⠹");
    assert_eq!(spinner(Duration::from_micros(80_999)), "⠙");
}

#[test]
fn the_frame_counter_wraps_at_32_bits() {
    assert_eq!(frame_of(300 * (1u128 << 32)), 0);
    assert_eq!(frame_of(300 * ((1u128 << 32) + 5)), 5);
}
