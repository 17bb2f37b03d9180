use slack_tui::keys::{
    browse, confirms, go_left, reading_focus, route, toggle_reading, AppKey, Browse, Layers, Route,
};
use slack_tui::state::Focus;

fn nothing_open() -> Layers {
    Layers { help: false, confirming: false, input: false, palette: false, jump: false, firehose: false, inbox: false }
}

#[test]
fn the_topmost_layer_takes_the_key() {
    let none = nothing_open();
    assert_eq!(route(none, AppKey::Char('j')), Route::Browse);
    assert_eq!(route(none, AppKey::Char(':')), Route::OpenPalette);
    assert_eq!(route(none, AppKey::Ctrl('k')), Route::OpenJump);
    assert_eq!(route(none, AppKey::Super('k')), Route::OpenJump);
    assert_eq!(route(Layers { help: true, input: true, ..none }, AppKey::Char('x')), Route::CloseHelp);
    assert_eq!(route(Layers { help: true, ..none }, AppKey::Ctrl('c')), Route::Quit);
    assert_eq!(route(Layers { confirming: true, input: true, ..none }, AppKey::Char('y')), Route::Confirm);
    assert_eq!(route(Layers { input: true, palette: true, ..none }, AppKey::Char(':')), Route::Input);
    assert_eq!(route(Layers { palette: true, ..none }, AppKey::Esc), Route::Palette);
    assert_eq!(route(Layers { jump: true, ..none }, AppKey::Char(':')), Route::Jump, "':' is typed into the jump list");
    assert_eq!(route(Layers { firehose: true, inbox: true, ..none }, AppKey::Ctrl('k')), Route::OpenJump);
    assert_eq!(route(Layers { firehose: true, inbox: true, ..none }, AppKey::Char('j')), Route::Firehose);
    assert_eq!(route(Layers { inbox: true, ..none }, AppKey::Enter), Route::Inbox);
}

#[test]
fn quit_and_help() {
    let none = nothing_open();
    assert_eq!(route(none, AppKey::Char('?')), Route::Browse);
    assert_eq!(browse(AppKey::Char('?'), Focus::Channels), Browse::Help);
    assert_eq!(route(Layers { help: true, ..none }, AppKey::Char('j')), Route::CloseHelp);
    assert_eq!(route(none, AppKey::Ctrl('c')), Route::Quit);
}

#[test]
fn delete_asks_first_and_only_y_goes_through() {
    assert!(confirms(AppKey::Char('y')));
    assert!(!confirms(AppKey::Char('Y')));
    assert!(!confirms(AppKey::Enter));
}

#[test]
fn the_panes_keys() {
    assert_eq!(browse(AppKey::Char('q'), Focus::Channels), Browse::Quit);
    assert_eq!(browse(AppKey::Char('r'), Focus::Messages), Browse::Reply { in_thread: false });
    assert_eq!(browse(AppKey::Char('r'), Focus::Thread), Browse::Reply { in_thread: true });
    assert_eq!(browse(AppKey::Char('t'), Focus::Messages), Browse::Reply { in_thread: true });
    assert_eq!(browse(AppKey::Char('g'), Focus::Messages), Browse::Move(i64::MIN / 2));
    assert_eq!(browse(AppKey::End, Focus::Messages), Browse::Move(i64::MAX / 2));
    assert_eq!(browse(AppKey::PageUp, Focus::Messages), Browse::Move(-10));
    assert_eq!(browse(AppKey::Char('l'), Focus::Channels), Browse::Right);
    assert_eq!(browse(AppKey::Left, Focus::Channels), Browse::Left);
    assert_eq!(browse(AppKey::Char('+'), Focus::Messages), Browse::React);
    assert_eq!(browse(AppKey::Char('e'), Focus::Messages), Browse::React);
    assert_eq!(browse(AppKey::Char('E'), Focus::Messages), Browse::Compose);
    assert_eq!(browse(AppKey::Char('z'), Focus::Messages), Browse::Reading);
    assert_eq!(browse(AppKey::Char('x'), Focus::Messages), Browse::Nothing);
    assert_eq!(browse(AppKey::Ctrl('r'), Focus::Messages), Browse::Nothing);
}

#[test]
fn left_backs_out_and_reading_keeps_the_messages() {
    assert_eq!(go_left(Focus::Thread), (Focus::Messages, true));
    assert_eq!(go_left(Focus::Messages), (Focus::Channels, false));
    assert_eq!(go_left(Focus::Channels), (Focus::Channels, false));
    assert_eq!(reading_focus(Focus::Channels, true), Focus::Messages);
    assert_eq!(reading_focus(Focus::Channels, false), Focus::Channels);
    assert_eq!(reading_focus(Focus::Thread, true), Focus::Thread);
}

#[test]
fn reading_mode_needs_an_open_conversation() {
    assert_eq!(toggle_reading(false, false), (false, true), "open a conversation first");
    assert_eq!(toggle_reading(false, true), (true, false));
    assert_eq!(toggle_reading(true, true), (false, false));
}
