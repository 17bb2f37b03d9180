//! The wall of every live message: a bounded ring, and a view that follows the newest line
//! unless the user scrolled up.
use crate::steps::clamp;
use std::collections::VecDeque;
use vstd::prelude::*;

verus! {

/// How many lines the wall keeps; older ones fall off the front.
pub const CAPACITY: usize = 1000;

/// The wall view: follows the newest line unless the user scrolled up.
#[derive(Debug, PartialEq, Eq, Structural)]
pub struct Firehose {
    pub selected: Option<usize>,
}

impl Default for Firehose {
    /// A view that follows the newest line.
    fn default() -> (f: Self)
        ensures
            f.selected is None,
    {
        Firehose { selected: None }
    }
}

/// Where the view stands after a step of `delta` over `len` lines: on a line, or following the
/// newest one again once the step reaches it.
pub open spec fn stepped(selected: Option<usize>, delta: i64, len: nat) -> Option<usize> {
    if len == 0 {
        None
    } else {
        let current = match selected {
            Some(i) => i as int,
            None => len - 1,
        };
        let next = clamp(current + delta, 0, len - 1);
        if next + 1 < len {
            Some(next as usize)
        } else {
            None
        }
    }
}

impl Firehose {
    /// Whether the view follows the newest line.
    pub fn following(&self) -> (r: bool)
        ensures
            r == self.selected is None,
    {
        self.selected.is_none()
    }

    /// Moves over `len` lines by `delta`; reaching the newest line follows it again.
    pub fn move_by(&mut self, delta: i64, len: usize)
        requires
            len <= i64::MAX,
            len == 0 || match old(self).selected {
                Some(i) => i <= i64::MAX && i64::MIN <= i + delta <= i64::MAX,
                None => i64::MIN <= len - 1 + delta <= i64::MAX,
            },
        ensures
            final(self).selected == stepped(old(self).selected, delta, len as nat),
    {
        if len == 0 {
            self.selected = None;
            return;
        }
        let current: i64 = match self.selected {
            Some(i) => i as i64,
            None => (len - 1) as i64,
        };
        let target = current + delta;
        let next: usize = if target < 0 {
            0
        } else if target as u64 >= len as u64 {
            len - 1
        } else {
            target as usize
        };
        self.selected = if next + 1 < len {
            Some(next)
        } else {
            None
        };
    }

    /// Back to the newest line.
    pub fn follow(&mut self)
        ensures
            final(self).selected is None,
    {
        self.selected = None;
    }
}

/// What the wall holds after `line` arrives: it goes at the end, and the oldest line falls off
/// when the wall is full.
pub open spec fn pushed<T>(wall: Seq<T>, line: T) -> Seq<T> {
    if wall.len() >= CAPACITY {
        wall.subrange(wall.len() - CAPACITY + 1, wall.len() as int).push(line)
    } else {
        wall.push(line)
    }
}

/// Adds `line` at the end of the wall, dropping the oldest when it is full.
pub fn push<T>(wall: &mut VecDeque<T>, line: T)
    requires
        old(wall)@.len() <= CAPACITY,
    ensures
        final(wall)@ == pushed(old(wall)@, line),
{
    if wall.len() == CAPACITY {
        wall.pop_front();
    }
    wall.push_back(line);
}

/// The wall never holds more than `CAPACITY` lines, always ends with the newest one, and keeps
/// the lines before it in arrival order.
pub proof fn law_wall_is_bounded<T>(wall: Seq<T>, line: T)
    requires
        wall.len() <= CAPACITY,
    ensures
        pushed(wall, line).len() <= CAPACITY,
        pushed(wall, line).last() == line,
        pushed(wall, line).drop_last() == wall.skip(wall.len() - (pushed(wall, line).len() - 1)),
{
    let p = pushed(wall, line);
    assert(p.drop_last() =~= wall.skip(wall.len() - (p.len() - 1)));
}

/// Scrolling past the newest line follows it again, and following survives any step down.
pub proof fn law_scrolling_down_follows(selected: Option<usize>, len: nat)
    requires
        0 < len <= i64::MAX,
        selected matches Some(i) ==> i < len,
    ensures
        stepped(selected, len as i64, len) is None,
        stepped(None, 1, len) is None,
{
}

/// A key as the wall reads it.
#[derive(Clone, Copy, Debug, PartialEq, Eq, Structural)]
pub enum FirehoseKey {
    Esc,
    Enter,
    Up,
    Down,
    PageUp,
    PageDown,
    Home,
    End,
    Char(char),
    Other,
}

/// What a key on the wall asks of the app besides moving the view.
#[derive(Clone, Copy, Debug, PartialEq, Eq, Structural)]
pub enum FirehoseOutcome {
    Stay,
    /// The wall closes.
    Close,
    /// The app quits.
    Quit,
    /// The key list opens.
    Help,
    /// The quiet lines are shown, or hidden again; the view follows the newest line.
    Noise,
    /// The wall closes on the conversation of line `i` of the `len` shown (and its thread).
    Open(usize),
}

/// How far a key moves the view over the wall, if it moves it: a line, a page of ten, or all
/// the way to the top.
pub open spec fn key_step(key: FirehoseKey) -> Option<i64> {
    match key {
        FirehoseKey::Down | FirehoseKey::Char('j') => Some(1i64),
        FirehoseKey::Up | FirehoseKey::Char('k') => Some(-1i64),
        FirehoseKey::PageDown => Some(10i64),
        FirehoseKey::PageUp => Some(-10i64),
        FirehoseKey::Home | FirehoseKey::Char('g') => Some((i64::MIN / 2) as i64),
        _ => None,
    }
}

impl Firehose {
    /// What `key` does on a wall showing `len` lines: `esc` and `f` close it, `q` quits, `?`
    /// shows the keys, `n` shows or hides the quiet lines and follows again; `j`/`k`, the
    /// arrows and the page keys move, `g` and `home` go to the top, `G` and `end` follow the
    /// newest line; `enter` opens the line under the cursor, the newest when following.
    pub fn key(&mut self, key: FirehoseKey, len: usize) -> (r: FirehoseOutcome)
        requires
            len == 0 || len + 10 <= i64::MAX,
            len == 0 || (old(self).selected matches Some(i) ==> i + 10 <= i64::MAX),
        ensures
            match key_step(key) {
                Some(d) => r is Stay && final(self).selected == stepped(old(self).selected, d, len as nat),
                None => match key {
                    FirehoseKey::Esc | FirehoseKey::Char('f') => r is Close && *final(self) == *old(self),
                    FirehoseKey::Char('q') => r is Quit && *final(self) == *old(self),
                    FirehoseKey::Char('?') => r is Help && *final(self) == *old(self),
                    FirehoseKey::Char('n') => r is Noise && final(self).selected is None,
                    FirehoseKey::End | FirehoseKey::Char('G') => r is Stay && final(self).selected is None,
                    FirehoseKey::Enter => *final(self) == *old(self) && {
                        let at = match old(self).selected {
                            Some(i) => i as int,
                            None => len - 1,
                        };
                        if 0 <= at < len {
                            r == FirehoseOutcome::Open(at as usize)
                        } else {
                            r is Stay
                        }
                    },
                    _ => r is Stay && *final(self) == *old(self),
                },
            },
    {
        match key {
            FirehoseKey::Down => {
                self.move_by(1, len);
                FirehoseOutcome::Stay
            },
            FirehoseKey::Up => {
                self.move_by(-1, len);
                FirehoseOutcome::Stay
            },
            FirehoseKey::PageDown => {
                self.move_by(10, len);
                FirehoseOutcome::Stay
            },
            FirehoseKey::PageUp => {
                self.move_by(-10, len);
                FirehoseOutcome::Stay
            },
            FirehoseKey::Home => {
                self.move_by(i64::MIN / 2, len);
                FirehoseOutcome::Stay
            },
            FirehoseKey::End => {
                self.follow();
                FirehoseOutcome::Stay
            },
            FirehoseKey::Esc => FirehoseOutcome::Close,
            FirehoseKey::Enter => {
                let at = match self.selected {
                    Some(i) => Some(i),
                    None => if len > 0 {
                        Some(len - 1)
                    } else {
                        None
                    },
                };
                match at {
                    Some(i) => if i < len {
                        FirehoseOutcome::Open(i)
                    } else {
                        FirehoseOutcome::Stay
                    },
                    None => FirehoseOutcome::Stay,
                }
            },
            FirehoseKey::Char(c) => {
                if c == 'f' {
                    FirehoseOutcome::Close
                } else if c == 'q' {
                    FirehoseOutcome::Quit
                } else if c == '?' {
                    FirehoseOutcome::Help
                } else if c == 'n' {
                    self.follow();
                    FirehoseOutcome::Noise
                } else if c == 'j' {
                    self.move_by(1, len);
                    FirehoseOutcome::Stay
                } else if c == 'k' {
                    self.move_by(-1, len);
                    FirehoseOutcome::Stay
                } else if c == 'g' {
                    self.move_by(i64::MIN / 2, len);
                    FirehoseOutcome::Stay
                } else if c == 'G' {
                    self.follow();
                    FirehoseOutcome::Stay
                } else {
                    FirehoseOutcome::Stay
                }
            },
            FirehoseKey::Other => FirehoseOutcome::Stay,
        }
    }
}

} // verus!
