//! Whether a newer build exists: the installed commit against the newest one of the repo,
//! asked at most once a day.
use crate::text::{chars_of, same_str, split_words, string_of, words};
use crate::version::UNKNOWN;
use vstd::prelude::*;

verus! {

/// A day, in seconds.
pub const A_DAY: i64 = 86400;

/// How the running binary compares to the newest commit of the repo.
#[derive(Clone, Copy, Debug, PartialEq, Eq, Structural)]
pub enum Standing {
    Current,
    Behind,
    /// Built without git history, or the check could not run: nothing can be said.
    Unknown,
}

/// Where a binary built from `installed` stands when the repo's newest commit is `latest`.
pub open spec fn standing_of(installed: Seq<char>, latest: Option<Seq<char>>) -> Standing {
    if installed == UNKNOWN@ {
        Standing::Unknown
    } else {
        match latest {
            Some(l) => if l == installed {
                Standing::Current
            } else {
                Standing::Behind
            },
            None => Standing::Unknown,
        }
    }
}

/// How the installed commit compares to the newest one, when it is known.
pub fn standing(installed: &str, latest: Option<&str>) -> (r: Standing)
    ensures
        r == standing_of(
            installed@,
            match latest {
                Some(l) => Some(l@),
                None => None,
            },
        ),
{
    if same_str(installed, UNKNOWN) {
        return Standing::Unknown;
    }
    match latest {
        Some(l) => if same_str(l, installed) {
            Standing::Current
        } else {
            Standing::Behind
        },
        None => Standing::Unknown,
    }
}

/// What the last check found, and when (seconds since the epoch), so a failed one also waits
/// a day before trying again.
#[derive(Debug)]
pub struct Check {
    pub commit: Option<String>,
    pub at: i64,
}

/// Whether it is time to ask again at `now`: never asked, or asked a day or more before.
pub open spec fn is_due(last: Option<i64>, now: i64) -> bool {
    match last {
        None => true,
        Some(at) => now - at >= A_DAY,
    }
}

/// Whether the newest commit should be asked again at `now`.
pub fn due(last: Option<&Check>, now: i64) -> (r: bool)
    requires
        last matches Some(c) ==> i64::MIN <= now - c.at <= i64::MAX,
    ensures
        r == is_due(
            match last {
                Some(c) => Some(c.at),
                None => None,
            },
            now,
        ),
{
    match last {
        None => true,
        Some(c) => now - c.at >= A_DAY,
    }
}

/// The commit a `git ls-remote` listing names first: its first word, if it has one.
pub fn head_commit(listing: &str) -> (r: Option<String>)
    ensures
        match r {
            Some(c) => words(listing@).len() > 0 && c@ == words(listing@)[0],
            None => words(listing@).len() == 0,
        },
{
    let v = chars_of(listing);
    let ws = split_words(v.as_slice());
    if ws.len() == 0 {
        None
    } else {
        assert(ws@.map_values(|w: Vec<char>| w@)[0] == ws@[0]@);
        Some(string_of(ws[0].as_slice()))
    }
}

} // verus!
