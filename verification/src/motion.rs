//! What moves on screen is drawn from the time elapsed since start, so nothing has to count
//! frames.
use std::time::Duration;
use vstd::prelude::*;

verus! {

/// One step of the empty-state animation, in milliseconds.
pub const FRAME_MS: u128 = 300;

/// One step of the spinner, in milliseconds.
pub const SPINNER_FRAME_MS: u128 = 80;

/// What `Duration::as_millis` gives for a duration: its whole milliseconds.
pub uninterp spec fn millis(d: Duration) -> u128;

/// `Duration::as_millis`: the whole milliseconds of `d`.
#[verifier::external_body]
fn whole_millis(d: Duration) -> (r: u128)
    ensures
        r == millis(d),
{
    d.as_millis()
}

/// The animation step reached after `ms` milliseconds, kept to 32 bits as a frame counter.
pub open spec fn frame_at(ms: u128) -> u32 {
    ((ms / FRAME_MS) % 0x1_0000_0000) as u32
}

/// The spinner's glyphs, in the order it turns.
pub open spec fn spinner_glyphs() -> Seq<Seq<char>> {
    seq!["⠋"@, "⠙"@, "⠹"@, "⠸"@, "⠼"@, "⠴"@, "⠦"@, "⠧"@, "⠇"@, "⠏"@]
}

/// The spinner glyph shown after `ms` milliseconds: one step every `SPINNER_FRAME_MS`, round
/// and round.
pub open spec fn spinner_at(ms: u128) -> Seq<char> {
    spinner_glyphs()[((ms / SPINNER_FRAME_MS) % 10) as int]
}

/// The animation step after `ms` milliseconds.
pub fn frame_of(ms: u128) -> (r: u32)
    ensures
        r == frame_at(ms),
{
    ((ms / FRAME_MS) % 0x1_0000_0000) as u32
}

/// The animation step after `elapsed`.
pub fn frame(elapsed: Duration) -> (r: u32)
    ensures
        r == frame_at(millis(elapsed)),
{
    frame_of(whole_millis(elapsed))
}

/// The spinner glyph after `ms` milliseconds.
pub fn spinner_of(ms: u128) -> (r: &'static str)
    ensures
        r@ == spinner_at(ms),
{
    let k = (ms / SPINNER_FRAME_MS) % 10;
    if k == 0 {
        "⠋"
    } else if k == 1 {
        "⠙"
    } else if k == 2 {
        "⠹"
    } else if k == 3 {
        "⠸"
    } else if k == 4 {
        "⠼"
    } else if k == 5 {
        "⠴"
    } else if k == 6 {
        "⠦"
    } else if k == 7 {
        "⠧"
    } else if k == 8 {
        "⠇"
    } else {
        "⠏"
    }
}

/// The spinner glyph after `elapsed`.
pub fn spinner(elapsed: Duration) -> (r: &'static str)
    ensures
        r@ == spinner_at(millis(elapsed)),
{
    spinner_of(whole_millis(elapsed))
}

} // verus!
