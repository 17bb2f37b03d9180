//! The plain state the app keeps between keys: which pane has focus, how live updates
//! arrive, and the signed-in user's own message under the cursor.
use vstd::prelude::*;

verus! {

/// The pane that takes the keys.
#[derive(Clone, Copy, Debug, PartialEq, Eq, Structural)]
pub enum Focus {
    Channels,
    Messages,
    Thread,
}

impl Default for Focus {
    fn default() -> (f: Self)
        ensures
            f == Focus::Channels,
    {
        Focus::Channels
    }
}

/// The pane `tab` moves to from `focus`: channels, messages, then the thread when one is open,
/// and round again.
pub open spec fn next_pane(focus: Focus, thread_open: bool) -> Focus {
    match focus {
        Focus::Channels => Focus::Messages,
        Focus::Messages => if thread_open {
            Focus::Thread
        } else {
            Focus::Channels
        },
        Focus::Thread => Focus::Channels,
    }
}

/// The pane `shift-tab` moves to from `focus`: the same round, backwards.
pub open spec fn prev_pane(focus: Focus, thread_open: bool) -> Focus {
    match focus {
        Focus::Channels => if thread_open {
            Focus::Thread
        } else {
            Focus::Messages
        },
        Focus::Thread => Focus::Messages,
        Focus::Messages => Focus::Channels,
    }
}

impl Focus {
    /// The pane `tab` moves to.
    pub fn next(self, thread_open: bool) -> (r: Focus)
        ensures
            r == next_pane(self, thread_open),
    {
        match (self, thread_open) {
            (Focus::Channels, _) => Focus::Messages,
            (Focus::Messages, true) => Focus::Thread,
            _ => Focus::Channels,
        }
    }

    /// The pane `shift-tab` moves to.
    pub fn prev(self, thread_open: bool) -> (r: Focus)
        ensures
            r == prev_pane(self, thread_open),
    {
        match (self, thread_open) {
            (Focus::Channels, true) => Focus::Thread,
            (Focus::Channels, false) | (Focus::Thread, _) => Focus::Messages,
            (Focus::Messages, _) => Focus::Channels,
        }
    }
}

/// `tab` and `shift-tab` undo each other on the panes that are open, and `tab` never lands on
/// the thread pane while no thread is open.
pub proof fn law_tab_and_back_tab_undo_each_other(focus: Focus, thread_open: bool)
    requires
        thread_open || focus != Focus::Thread,
    ensures
        prev_pane(next_pane(focus, thread_open), thread_open) == focus,
        next_pane(prev_pane(focus, thread_open), thread_open) == focus,
        !thread_open ==> next_pane(focus, thread_open) != Focus::Thread && prev_pane(focus, thread_open)
            != Focus::Thread,
{
}

/// How live updates arrive: connecting, connected, or polling because the live connection
/// gave up (with why).
#[derive(Clone, Debug, PartialEq, Eq)]
pub enum Live {
    Connecting,
    Connected,
    Polling(String),
}

impl Default for Live {
    fn default() -> (l: Self)
        ensures
            l is Connecting,
    {
        Live::Connecting
    }
}

/// The selected message, once it is the signed-in user's own: all `:edit` and `:delete` may
/// touch.
#[derive(Clone, Debug, PartialEq)]
pub struct MyMessage {
    pub channel: String,
    pub ts: String,
    pub text: String,
}

} // verus!
