//! What an empty pane shows: a small floating ghost over a two-line caption.
use crate::sidebar::Kind;
use vstd::prelude::*;

verus! {

/// The caption under the ghost, chosen from what the pane is showing.
#[derive(Debug, PartialEq, Eq)]
pub struct Empty {
    pub title: String,
    pub hint: String,
    pub key: Option<&'static str>,
}

/// A caption as its title, hint and key.
pub open spec fn empty_view(e: Empty) -> (Seq<char>, Seq<char>, Option<Seq<char>>) {
    (
        e.title@,
        e.hint@,
        match e.key {
            Some(k) => Some(k@),
            None => None,
        },
    )
}

/// What an empty message pane says, from what it shows: nothing while loading or while there
/// are messages or results; otherwise a caption that fits a search with no results, no open
/// conversation, a quiet conversation with people, or a quiet channel named `label`.
pub open spec fn caption(loading: bool, results: Option<nat>, messages: nat, current: Option<Kind>, label: Seq<char>) -> Option<
    (Seq<char>, Seq<char>, Option<Seq<char>>),
> {
    if loading {
        None
    } else if results == Some(0nat) {
        Some(("no results"@, "try other words with"@, Some("s"@)))
    } else if results is Some {
        None
    } else if messages > 0 {
        None
    } else {
        match current {
            None => Some(("pick a conversation"@, "on the left, then"@, Some("enter"@))),
            Some(Kind::Dm) | Some(Kind::GroupDm) => Some(("nothing here yet"@, "say hi to "@ + label + " with"@, Some("r"@))),
            Some(_) => Some(("nothing here yet"@, "be the first to post in "@ + label + " with"@, Some("r"@))),
        }
    }
}

/// The caption of an empty message pane: `results` counts the results of an open search,
/// `messages` those of the open conversation, `current` is its kind and `label` its name.
pub fn empty_state(loading: bool, results: Option<usize>, messages: usize, current: Option<Kind>, label: &str) -> (r: Option<Empty>)
    ensures
        match r {
            Some(e) => caption(
                loading,
                match results {
                    Some(n) => Some(n as nat),
                    None => None,
                },
                messages as nat,
                current,
                label@,
            ) == Some(empty_view(e)),
            None => caption(
                loading,
                match results {
                    Some(n) => Some(n as nat),
                    None => None,
                },
                messages as nat,
                current,
                label@,
            ) is None,
        },
{
    if loading {
        return None;
    }
    match results {
        Some(0) => {
            return Some(Empty { title: "no results".to_owned(), hint: "try other words with".to_owned(), key: Some("s") });
        },
        Some(_) => {
            return None;
        },
        None => {},
    }
    if messages > 0 {
        return None;
    }
    match current {
        None => Some(Empty { title: "pick a conversation".to_owned(), hint: "on the left, then".to_owned(), key: Some("enter") }),
        Some(Kind::Dm) | Some(Kind::GroupDm) => {
            let mut hint = "say hi to ".to_owned();
            hint.append(label);
            hint.append(" with");
            Some(Empty { title: "nothing here yet".to_owned(), hint, key: Some("r") })
        },
        Some(_) => {
            let mut hint = "be the first to post in ".to_owned();
            hint.append(label);
            hint.append(" with");
            Some(Empty { title: "nothing here yet".to_owned(), hint, key: Some("r") })
        },
    }
}

/// How many rows the ghost has.
pub const GHOST_H: u16 = 4;

/// Whether the ghost blinks at `frame`: once every sixteen frames.
pub open spec fn blinks(frame: u32) -> bool {
    frame % 16 == 14
}

/// The ghost's rows at `frame`: the hood, the eyes (closed while it blinks), the mouth and the
/// hem.
pub open spec fn ghost_rows(frame: u32) -> Seq<Seq<char>> {
    seq![
        "╭─────╮"@,
        if blinks(frame) { "│ ─ ─ │"@ } else { "│ ◠ ◠ │"@ },
        "│  ‿  │"@,
        "╰┬┬┬┬┬╯"@,
    ]
}

/// The ghost at `frame`. Every row is the same width so the face never drifts from the hem.
pub fn ghost(frame: u32) -> (r: [&'static str; 4])
    ensures
        r@.map_values(|s: &str| s@) == ghost_rows(frame),
{
    let eyes = if frame % 16 == 14 { "│ ─ ─ │" } else { "│ ◠ ◠ │" };
    let r = ["╭─────╮", eyes, "│  ‿  │", "╰┬┬┬┬┬╯"];
    assert(r@.map_values(|s: &str| s@) =~= ghost_rows(frame));
    r
}

/// Every row of the ghost has seven characters, whatever the frame, so the rows line up.
pub proof fn law_ghost_rows_line_up(frame: u32)
    ensures
        ghost_rows(frame).len() == GHOST_H,
        forall|i: int| 0 <= i < ghost_rows(frame).len() ==> #[trigger] ghost_rows(frame)[i].len() == 7,
{
    reveal_strlit("╭─────╮");
    reveal_strlit("│ ─ ─ │");
    reveal_strlit("│ ◠ ◠ │");
    reveal_strlit("│  ‿  │");
    reveal_strlit("╰┬┬┬┬┬╯");
}

/// Whether the ghost floats up at `frame`: up for four frames, down for four.
pub open spec fn is_up(frame: u32) -> bool {
    (frame / 4) % 2 == 1
}

/// Whether the ghost is up at `frame`.
pub fn floating(frame: u32) -> (r: bool)
    ensures
        r == is_up(frame),
{
    (frame / 4) % 2 == 1
}

/// How wide the time column of a message is.
pub const TIME_W: usize = 5;

/// The column a message's text starts on: past the time and the name, with a space after
/// each.
pub fn text_start(name_w: usize) -> (r: usize)
    requires
        name_w + TIME_W + 2 <= usize::MAX,
    ensures
        r == TIME_W + 1 + name_w + 1,
{
    TIME_W + 1 + name_w + 1
}

} // verus!
