//! Where a key goes: the layer on top takes it (a shown key list, a delete waiting for its
//! answer, the input row, the command line, the jump list, the wall, the inbox), and the panes
//! read whatever reaches them.
use crate::state::Focus;
use vstd::prelude::*;

verus! {

/// A key as the app first sees it; `Ctrl` and `Super` are a character pressed with control or
/// with the system key.
#[derive(Clone, Copy, Debug, PartialEq, Eq, Structural)]
pub enum AppKey {
    Char(char),
    Ctrl(char),
    Super(char),
    Tab,
    BackTab,
    Left,
    Right,
    Up,
    Down,
    Home,
    End,
    PageUp,
    PageDown,
    Enter,
    Esc,
    Other,
}

/// What is open over the panes.
#[derive(Clone, Copy, Debug, PartialEq, Eq, Structural)]
pub struct Layers {
    pub help: bool,
    pub confirming: bool,
    pub input: bool,
    pub palette: bool,
    pub jump: bool,
    pub firehose: bool,
    pub inbox: bool,
}

/// Who takes a key.
#[derive(Clone, Copy, Debug, PartialEq, Eq, Structural)]
pub enum Route {
    /// Control-c: the app quits, whatever is open.
    Quit,
    /// The key list closes, and the key does nothing else.
    CloseHelp,
    /// The delete waiting for its answer.
    Confirm,
    Input,
    Palette,
    /// `:` opens the command line.
    OpenPalette,
    Jump,
    /// Control-k (or the system key with k) opens the jump list.
    OpenJump,
    Firehose,
    Inbox,
    /// The panes.
    Browse,
}

/// The layer that takes `key`, topmost first.
pub open spec fn routed(open: Layers, key: AppKey) -> Route {
    if key == AppKey::Ctrl('c') {
        Route::Quit
    } else if open.help {
        Route::CloseHelp
    } else if open.confirming {
        Route::Confirm
    } else if open.input {
        Route::Input
    } else if open.palette {
        Route::Palette
    } else if key == AppKey::Char(':') && !open.jump {
        Route::OpenPalette
    } else if open.jump {
        Route::Jump
    } else if key == AppKey::Ctrl('k') || key == AppKey::Super('k') {
        Route::OpenJump
    } else if open.firehose {
        Route::Firehose
    } else if open.inbox {
        Route::Inbox
    } else {
        Route::Browse
    }
}

/// Who takes `key` with `open` over the panes.
pub fn route(open: Layers, key: AppKey) -> (r: Route)
    ensures
        r == routed(open, key),
{
    if key == AppKey::Ctrl('c') {
        return Route::Quit;
    }
    if open.help {
        return Route::CloseHelp;
    }
    if open.confirming {
        return Route::Confirm;
    }
    if open.input {
        return Route::Input;
    }
    if open.palette {
        return Route::Palette;
    }
    if key == AppKey::Char(':') && !open.jump {
        return Route::OpenPalette;
    }
    if open.jump {
        return Route::Jump;
    }
    if key == AppKey::Ctrl('k') || key == AppKey::Super('k') {
        return Route::OpenJump;
    }
    if open.firehose {
        return Route::Firehose;
    }
    if open.inbox {
        return Route::Inbox;
    }
    Route::Browse
}

/// Control-c quits from anywhere, and while the key list is shown every other key only closes
/// it.
pub proof fn law_control_c_always_quits(open: Layers, key: AppKey)
    ensures
        routed(open, AppKey::Ctrl('c')) == Route::Quit,
        open.help && key != AppKey::Ctrl('c') ==> routed(open, key) == Route::CloseHelp,
{
}

/// A delete waiting for its answer, the input row and the command line each take every key
/// but control-c while they are the topmost layer, so no key reaches the panes past them.
pub proof fn law_open_rows_keep_their_keys(open: Layers, key: AppKey)
    requires
        key != AppKey::Ctrl('c'),
        !open.help,
    ensures
        open.confirming ==> routed(open, key) == Route::Confirm,
        !open.confirming && open.input ==> routed(open, key) == Route::Input,
        !open.confirming && !open.input && open.palette ==> routed(open, key) == Route::Palette,
        (open.confirming || open.input || open.palette) ==> routed(open, key) != Route::Browse,
{
}

/// A delete cannot be undone, so only `y` goes through; every other key keeps the message.
pub fn confirms(key: AppKey) -> (b: bool)
    ensures
        b == (key == AppKey::Char('y')),
{
    key == AppKey::Char('y')
}

/// What a key on the panes asks for.
#[derive(Clone, Copy, Debug, PartialEq, Eq, Structural)]
pub enum Browse {
    Quit,
    Help,
    /// `tab`: the next pane.
    NextPane,
    /// `shift-tab`: the pane before.
    PrevPane,
    /// Dives in: a channel to its messages, a message with replies to its thread.
    Right,
    /// Backs out: the thread to the messages (closing it), the messages to the channels.
    Left,
    /// The cursor of the focused pane moves by this many rows.
    Move(i64),
    Activate,
    Escape,
    /// The filter row opens on the current filter.
    Filter,
    Search,
    /// The reply row opens, for the thread when `in_thread`.
    Reply { in_thread: bool },
    /// The editor opens on the reply.
    Compose,
    /// The react row opens on the selected message.
    React,
    /// The selected message opens in Slack.
    Open,
    /// The first link of the selected message opens.
    OpenLink,
    /// The selected message's link is copied.
    Yank,
    Refresh,
    Inbox,
    Promises,
    Firehose,
    /// The reading view turns on or off.
    Reading,
    Nothing,
}

/// The table of the panes' keys; `r` replies in the thread when the thread pane has focus,
/// `e` (or `+`) reacts and `E` writes the reply in the editor.
pub open spec fn browse_of(key: AppKey, focus: Focus) -> Browse {
    match key {
        AppKey::Char('q') => Browse::Quit,
        AppKey::Char('?') => Browse::Help,
        AppKey::Tab => Browse::NextPane,
        AppKey::BackTab => Browse::PrevPane,
        AppKey::Char('l') | AppKey::Right => Browse::Right,
        AppKey::Char('h') | AppKey::Left => Browse::Left,
        AppKey::Char('j') | AppKey::Down => Browse::Move(1i64),
        AppKey::Char('k') | AppKey::Up => Browse::Move(-1i64),
        AppKey::Char('g') | AppKey::Home => Browse::Move((i64::MIN / 2) as i64),
        AppKey::Char('G') | AppKey::End => Browse::Move((i64::MAX / 2) as i64),
        AppKey::PageDown => Browse::Move(10i64),
        AppKey::PageUp => Browse::Move(-10i64),
        AppKey::Enter => Browse::Activate,
        AppKey::Esc => Browse::Escape,
        AppKey::Char('/') => Browse::Filter,
        AppKey::Char('s') => Browse::Search,
        AppKey::Char('r') => Browse::Reply { in_thread: focus == Focus::Thread },
        AppKey::Char('t') => Browse::Reply { in_thread: true },
        AppKey::Char('E') => Browse::Compose,
        AppKey::Char('e') | AppKey::Char('+') => Browse::React,
        AppKey::Char('o') => Browse::Open,
        AppKey::Char('u') => Browse::OpenLink,
        AppKey::Char('y') => Browse::Yank,
        AppKey::Char('R') => Browse::Refresh,
        AppKey::Char('i') => Browse::Inbox,
        AppKey::Char('p') => Browse::Promises,
        AppKey::Char('f') => Browse::Firehose,
        AppKey::Char('z') => Browse::Reading,
        _ => Browse::Nothing,
    }
}

/// What `key` asks of the panes while `focus` has them.
pub fn browse(key: AppKey, focus: Focus) -> (r: Browse)
    ensures
        r == browse_of(key, focus),
{
    match key {
        AppKey::Tab => Browse::NextPane,
        AppKey::BackTab => Browse::PrevPane,
        AppKey::Right => Browse::Right,
        AppKey::Left => Browse::Left,
        AppKey::Down => Browse::Move(1),
        AppKey::Up => Browse::Move(-1),
        AppKey::Home => Browse::Move(i64::MIN / 2),
        AppKey::End => Browse::Move(i64::MAX / 2),
        AppKey::PageDown => Browse::Move(10),
        AppKey::PageUp => Browse::Move(-10),
        AppKey::Enter => Browse::Activate,
        AppKey::Esc => Browse::Escape,
        AppKey::Char(c) => browse_char(c, focus),
        _ => Browse::Nothing,
    }
}

/// The panes' letter keys.
fn browse_char(c: char, focus: Focus) -> (r: Browse)
    ensures
        r == browse_of(AppKey::Char(c), focus),
{
    if c == 'q' {
        Browse::Quit
    } else if c == '?' {
        Browse::Help
    } else if c == 'l' {
        Browse::Right
    } else if c == 'h' {
        Browse::Left
    } else if c == 'j' {
        Browse::Move(1)
    } else if c == 'k' {
        Browse::Move(-1)
    } else if c == 'g' {
        Browse::Move(i64::MIN / 2)
    } else if c == 'G' {
        Browse::Move(i64::MAX / 2)
    } else if c == '/' {
        Browse::Filter
    } else if c == 's' {
        Browse::Search
    } else if c == 'r' {
        Browse::Reply { in_thread: focus == Focus::Thread }
    } else if c == 't' {
        Browse::Reply { in_thread: true }
    } else if c == 'E' {
        Browse::Compose
    } else if c == 'e' || c == '+' {
        Browse::React
    } else if c == 'o' {
        Browse::Open
    } else if c == 'u' {
        Browse::OpenLink
    } else if c == 'y' {
        Browse::Yank
    } else if c == 'R' {
        Browse::Refresh
    } else if c == 'i' {
        Browse::Inbox
    } else if c == 'p' {
        Browse::Promises
    } else if c == 'f' {
        Browse::Firehose
    } else if c == 'z' {
        Browse::Reading
    } else {
        Browse::Nothing
    }
}

/// Where `←` leaves the focus, and whether it closes the open thread: the thread pane backs
/// out to the messages and closes the thread, the messages to the channels.
pub fn go_left(focus: Focus) -> (r: (Focus, bool))
    ensures
        r == match focus {
            Focus::Thread => (Focus::Messages, true),
            Focus::Messages => (Focus::Channels, false),
            Focus::Channels => (Focus::Channels, false),
        },
{
    match focus {
        Focus::Thread => (Focus::Messages, true),
        Focus::Messages => (Focus::Channels, false),
        Focus::Channels => (Focus::Channels, false),
    }
}

/// `z`: the reading view turns on or off; it only turns on over an open conversation, and
/// says so (the second value) when there is none.
pub fn toggle_reading(reading: bool, conversation_open: bool) -> (r: (bool, bool))
    ensures
        r == if reading {
            (false, false)
        } else if conversation_open {
            (true, false)
        } else {
            (false, true)
        },
{
    if reading {
        (false, false)
    } else if conversation_open {
        (true, false)
    } else {
        (false, true)
    }
}

/// After the panes took a key in the reading view, the channel list never keeps the focus.
pub fn reading_focus(focus: Focus, reading: bool) -> (r: Focus)
    ensures
        r == if reading && focus == Focus::Channels {
            Focus::Messages
        } else {
            focus
        },
{
    if reading && focus == Focus::Channels {
        Focus::Messages
    } else {
        focus
    }
}


/// How far a move goes, down positive; nothing for any other outcome.
pub open spec fn step_of(b: Browse) -> int {
    match b {
        Browse::Move(d) => d as int,
        _ => 0,
    }
}

/// In the panes the letters `j`, `k`, `l`, `h`, `g` and `G` do what the arrows, `home` and
/// `end` do, whatever has focus; a step up undoes a step down, and top and bottom lie in
/// opposite directions.
pub proof fn law_letters_move_like_the_arrows(f: Focus)
    ensures
        browse_of(AppKey::Char('j'), f) == browse_of(AppKey::Down, f),
        browse_of(AppKey::Char('k'), f) == browse_of(AppKey::Up, f),
        browse_of(AppKey::Char('l'), f) == browse_of(AppKey::Right, f),
        browse_of(AppKey::Char('h'), f) == browse_of(AppKey::Left, f),
        browse_of(AppKey::Char('g'), f) == browse_of(AppKey::Home, f),
        browse_of(AppKey::Char('G'), f) == browse_of(AppKey::End, f),
        browse_of(AppKey::Down, f) == Browse::Move(1),
        step_of(browse_of(AppKey::Up, f)) == -step_of(browse_of(AppKey::Down, f)),
        browse_of(AppKey::PageUp, f) is Move && step_of(browse_of(AppKey::PageDown, f)) > 1,
        step_of(browse_of(AppKey::PageUp, f)) == -step_of(browse_of(AppKey::PageDown, f)),
        browse_of(AppKey::End, f) matches Browse::Move(d) && d > 0,
        browse_of(AppKey::Home, f) matches Browse::Move(u) && u < 0,
{
}

} // verus!
