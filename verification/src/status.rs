//! The status bar: the connection dot, and the keys that work right now.
use crate::state::{Focus, Live};
use vstd::prelude::*;

verus! {

/// The dot that tells how live updates arrive: connected, connecting, or polling.
pub fn live_dot(live: &Live) -> (r: &'static str)
    ensures
        r@ == match live {
            Live::Connected => "● "@,
            Live::Connecting => "○ "@,
            Live::Polling(_) => "↻ "@,
        },
{
    match live {
        Live::Connected => "● ",
        Live::Connecting => "○ ",
        Live::Polling(_) => "↻ ",
    }
}

/// The keys that work right now: `react` is `Some(searching)` while the reaction picker is
/// open; then the command line, then an open input row, then the focused pane decide.
pub open spec fn key_hints_for(react: Option<bool>, palette_open: bool, input_open: bool, focus: Focus) -> Seq<char> {
    if react == Some(true) {
        "type a name · ←/→ move · enter react · esc cancel"@
    } else if react is Some {
        "1-8 react · h/l move · enter react · / search · esc cancel"@
    } else if palette_open {
        "tab cycle · → accept · ↑ history · enter run · esc cancel"@
    } else if input_open {
        "enter send · esc cancel"@
    } else {
        match focus {
            Focus::Channels => "j/k move · enter open · / filter · ^k jump · ? more"@,
            Focus::Messages => "j/k move · enter thread · r reply · + react · ? more"@,
            Focus::Thread => "j/k move · r reply · + react · esc close · ? more"@,
        }
    }
}

/// The keys that work right now.
pub fn key_hints(react: Option<bool>, palette_open: bool, input_open: bool, focus: Focus) -> (r: &'static str)
    ensures
        r@ == key_hints_for(react, palette_open, input_open, focus),
{
    match react {
        Some(true) => "type a name · ←/→ move · enter react · esc cancel",
        Some(false) => "1-8 react · h/l move · enter react · / search · esc cancel",
        None => if palette_open {
            "tab cycle · → accept · ↑ history · enter run · esc cancel"
        } else if input_open {
            "enter send · esc cancel"
        } else {
            match focus {
                Focus::Channels => "j/k move · enter open · / filter · ^k jump · ? more",
                Focus::Messages => "j/k move · enter thread · r reply · + react · ? more",
                Focus::Thread => "j/k move · r reply · + react · esc close · ? more",
            }
        },
    }
}

/// The right side of the status bar: the completion being cycled, or else the key hints;
/// after the update notice when there is one.
pub fn hints(cycling: Option<&str>, keys: &str, update: Option<&str>) -> (r: String)
    ensures
        ({
            let shown = match cycling {
                Some(c) => c@,
                None => keys@,
            };
            r@ == match update {
                Some(u) => u@ + " · "@ + shown,
                None => shown,
            }
        }),
{
    let shown = match cycling {
        Some(c) => c,
        None => keys,
    };
    match update {
        Some(u) => {
            let mut r = u.to_owned();
            r.append(" · ");
            r.append(shown);
            r
        },
        None => shown.to_owned(),
    }
}

} // verus!
