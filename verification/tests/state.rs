use slack_tui::state::{Focus, Live};

#[test]
fn tab_walks_the_open_panes_and_back_tab_walks_them_backwards() {
    assert_eq!(Focus::Channels.next(false), Focus::Messages);
    assert_eq!(Focus::Messages.next(false), Focus::Channels);
    assert_eq!(Focus::Messages.next(true), Focus::Thread);
    assert_eq!(Focus::Thread.next(true), Focus::Channels);
    assert_eq!(Focus::Channels.prev(true), Focus::Thread);
    assert_eq!(Focus::Channels.prev(false), Focus::Messages);
    assert_eq!(Focus::Thread.prev(true), Focus::Messages);
    assert_eq!(Focus::Messages.prev(true), Focus::Channels);
}

#[test]
fn the_app_starts_on_the_channels_and_connecting() {
    assert_eq!(Focus::default(), Focus::Channels);
    assert_eq!(Live::default(), Live::Connecting);
}
