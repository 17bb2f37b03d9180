//! How messages sit in their list: a dim day line over the first message of each day, a blank
//! row between groups, and no header on a message that continues the one before, except the
//! selected message, which always shows its header.
use vstd::prelude::*;

verus! {

/// How one message sits in its list.
#[derive(Clone, Copy, Debug, PartialEq, Eq, Structural)]
pub struct ItemRow {
    /// Time and author on the first line; a continuation drops them.
    pub header: bool,
    /// The day line goes above it.
    pub new_day: bool,
    /// A blank row goes above it.
    pub gap: bool,
    /// The header shows the time (the reading view shows it on the selected row alone).
    pub show_time: bool,
    pub selected: bool,
}

/// How message `i` sits, given the day each message falls on, whether each continues the one
/// before it (same author, soon after), whether each ends on a blank row (a code block with
/// nothing drawn under it), which message is selected and whether the reading view is on.
pub open spec fn item_row(
    days: Seq<Seq<char>>,
    continued: Seq<bool>,
    blank: Seq<bool>,
    selected: nat,
    zen: bool,
    i: int,
) -> ItemRow {
    let new_day = if i == 0 {
        days[0] != Seq::<char>::empty()
    } else {
        days[i] != days[i - 1]
    };
    ItemRow {
        header: !continued[i] || i == selected,
        new_day,
        gap: i > 0 && !blank[i - 1] && (new_day || !continued[i]),
        show_time: !zen || i == selected,
        selected: i == selected,
    }
}

/// Whether a message ends on a blank row, so the next one needs no gap: its text ends in a
/// code block and nothing (a picture, the reactions, the reply count) is drawn under it.
pub fn ends_blank(pictures: bool, reactions: bool, replies_shown: bool, ends_in_code: bool) -> (b: bool)
    ensures
        b == (!pictures && !reactions && !replies_shown && ends_in_code),
{
    !(pictures || reactions || replies_shown) && ends_in_code
}

/// How each message sits in its list; see `item_row`.
pub fn item_rows(
    days: &[String],
    continued: &[bool],
    blank: &[bool],
    selected: usize,
    zen: bool,
) -> (r: Vec<ItemRow>)
    requires
        continued@.len() == days@.len(),
        blank@.len() == days@.len(),
    ensures
        r@.len() == days@.len(),
        forall|i: int|
            0 <= i < r@.len() ==> #[trigger] r@[i] == item_row(
                days@.map_values(|d: String| d@),
                continued@,
                blank@,
                selected as nat,
                zen,
                i,
            ),
{
    let ghost ds = days@.map_values(|d: String| d@);
    let mut r: Vec<ItemRow> = Vec::new();
    let mut i: usize = 0;
    while i < days.len()
        invariant
            i <= days@.len(),
            continued@.len() == days@.len(),
            blank@.len() == days@.len(),
            ds == days@.map_values(|d: String| d@),
            r@.len() == i,
            forall|j: int|
                0 <= j < i ==> #[trigger] r@[j] == item_row(ds, continued@, blank@, selected as nat, zen, j),
        decreases days.len() - i,
    {
        let new_day = if i == 0 {
            !days[0].as_str().is_empty()
        } else {
            !crate::text::same_str(days[i].as_str(), days[i - 1].as_str())
        };
        let gap = i > 0 && !blank[i - 1] && (new_day || !continued[i]);
        let row = ItemRow {
            header: !continued[i] || i == selected,
            new_day,
            gap,
            show_time: !zen || i == selected,
            selected: i == selected,
        };
        proof {
            assert(ds[i as int] == days@[i as int]@);
            if i > 0 {
                assert(ds[i - 1] == days@[i - 1]@);
            } else {
                assert(ds[0] == days@[0]@);
                assert(ds[0].len() == 0 ==> ds[0] =~= Seq::<char>::empty());
            }
            assert(row == item_row(ds, continued@, blank@, selected as nat, zen, i as int));
        }
        r.push(row);
        i += 1;
    }
    r
}

/// The selected message always shows its header with the time, so the cursor bar is never the
/// only mark; the first message never has a blank row above it; and a message that opens a
/// new day, or starts a new group, after one that did not end blank, gets one.
pub proof fn law_the_selected_message_keeps_its_header(
    days: Seq<Seq<char>>,
    continued: Seq<bool>,
    blank: Seq<bool>,
    selected: nat,
    zen: bool,
    i: int,
)
    requires
        continued.len() == days.len(),
        blank.len() == days.len(),
        0 <= i < days.len(),
    ensures
        i == selected ==> item_row(days, continued, blank, selected, zen, i).header && item_row(
            days,
            continued,
            blank,
            selected,
            zen,
            i,
        ).show_time,
        !item_row(days, continued, blank, selected, zen, 0).gap,
        i > 0 && !blank[i - 1] && (days[i] != days[i - 1] || !continued[i]) ==> item_row(
            days,
            continued,
            blank,
            selected,
            zen,
            i,
        ).gap,
{
}

} // verus!
