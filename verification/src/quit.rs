//! `q` and `ctrl-c` ask for a second press, so one stray key never closes the app.
use vstd::prelude::*;

verus! {

/// How long the first press waits for the second, in milliseconds.
pub const QUIT_WINDOW_MS: u64 = 1500;

/// The key that started a quit: only the same key finishes it.
#[derive(Clone, Copy, Debug, PartialEq, Eq, Structural)]
pub enum QuitKey {
    Q,
    CtrlC,
}

impl QuitKey {
    /// How the key is named in the prompt.
    pub fn name(self) -> (r: &'static str)
        ensures
            r@ == match self {
                QuitKey::Q => "q"@,
                QuitKey::CtrlC => "ctrl-c"@,
            },
    {
        match self {
            QuitKey::Q => "q",
            QuitKey::CtrlC => "ctrl-c",
        }
    }
}

/// The time from `at` to `now`, none when `now` is earlier.
pub open spec fn since(now: u64, at: u64) -> nat {
    if now >= at {
        (now - at) as nat
    } else {
        0
    }
}

/// Whether a press of `key` at `now` finishes the quit that `pending` started.
pub open spec fn finishes(pending: Option<(QuitKey, u64)>, key: QuitKey, now: u64) -> bool {
    match pending {
        Some((k, at)) => k == key && since(now, at) < QUIT_WINDOW_MS,
        None => false,
    }
}

/// What a press of `key` at `now` leaves, with `pending` the quit waiting for its second
/// press: the quit waiting after it, and whether the app quits.
pub open spec fn pressed(pending: Option<(QuitKey, u64)>, key: QuitKey, now: u64) -> (Option<(QuitKey, u64)>, bool) {
    if finishes(pending, key, now) {
        (None, true)
    } else {
        (Some((key, now)), false)
    }
}

/// A press of `key` at `now`.
pub fn press(pending: Option<(QuitKey, u64)>, key: QuitKey, now: u64) -> (r: (Option<(QuitKey, u64)>, bool))
    ensures
        r == pressed(pending, key, now),
{
    let again = match pending {
        Some((k, at)) => k == key && (if now >= at { now - at } else { 0 }) < QUIT_WINDOW_MS,
        None => false,
    };
    if again {
        (None, true)
    } else {
        (Some((key, now)), false)
    }
}

/// The status line while a quit waits for its second press: `press q again to quit`.
pub fn quit_prompt(pending: Option<(QuitKey, u64)>, now: u64) -> (r: Option<String>)
    ensures
        match pending {
            Some((k, at)) => if since(now, at) < QUIT_WINDOW_MS {
                r matches Some(s) && s@ == "press "@ + (match k {
                    QuitKey::Q => "q"@,
                    QuitKey::CtrlC => "ctrl-c"@,
                }) + " again to quit"@
            } else {
                r is None
            },
            None => r is None,
        },
{
    match pending {
        Some((k, at)) => {
            let waited = if now >= at { now - at } else { 0 };
            if waited < QUIT_WINDOW_MS {
                let mut s = "press ".to_owned();
                s.append(k.name());
                s.append(" again to quit");
                Some(s)
            } else {
                None
            }
        },
        None => None,
    }
}

/// One press alone never quits: the first press only asks.
pub proof fn law_one_press_never_quits(key: QuitKey, now: u64)
    ensures
        !pressed(None, key, now).1,
{
}

/// A key other than the one that started the quit never finishes it, and starts a quit of
/// its own.
pub proof fn law_only_the_same_key_finishes(started: QuitKey, at: u64, key: QuitKey, now: u64)
    requires
        started != key,
    ensures
        pressed(Some((started, at)), key, now) == (Some((key, now)), false),
{
}

/// From whatever state, pressing a key and pressing it again quits exactly when the second
/// press comes inside the window, unless the first press already quit.
pub proof fn law_second_press_in_the_window_quits(
    pending: Option<(QuitKey, u64)>,
    key: QuitKey,
    first: u64,
    second: u64,
)
    requires
        !pressed(pending, key, first).1,
    ensures
        pressed(pressed(pending, key, first).0, key, second).1 <==> since(second, first) < QUIT_WINDOW_MS,
{
}

} // verus!
