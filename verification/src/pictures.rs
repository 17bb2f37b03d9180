//! Where pictures land on screen: the rows each message item reserved for them, walked from
//! the list's scroll offset, keeping only the pictures that fit whole in the pane.
use crate::layout::{Area, Size};
use crate::text::copy_string;
use vstd::prelude::*;

verus! {

/// Rows a message item reserved for a picture, counted from the item's first line.
#[derive(Debug, PartialEq, Eq)]
pub struct Slot {
    pub line: usize,
    pub file: String,
    pub size: Size,
}

/// Where a picture lands on screen this frame.
#[derive(Debug, PartialEq, Eq)]
pub struct Placement {
    pub file: String,
    pub area: Area,
}

/// The row just below `area`, held at the last row the screen can have.
pub open spec fn bottom_of(area: Area) -> nat {
    if area.y + area.height > u16::MAX {
        u16::MAX as nat
    } else {
        (area.y + area.height) as nat
    }
}

/// The column just right of `area`, held at the last column the screen can have.
pub open spec fn right_of(area: Area) -> nat {
    if area.x + area.width > u16::MAX {
        u16::MAX as nat
    } else {
        (area.x + area.width) as nat
    }
}

/// A placement as its file and area.
pub open spec fn placement_view(p: Placement) -> (Seq<char>, Area) {
    (p.file@, p.area)
}

/// A slot as its line, file and size.
pub open spec fn slot_view(s: Slot) -> (nat, Seq<char>, Size) {
    (s.line as nat, s.file@, s.size)
}

/// The pictures of one item whose first line is on row `y` that fit above `bottom`, each as
/// wide as it is or as the pane leaves right of column `x`.
pub open spec fn fitting(slots: Seq<(nat, Seq<char>, Size)>, y: nat, bottom: nat, x: u16, right: nat) -> Seq<(Seq<char>, Area)>
    decreases slots.len(),
{
    if slots.len() == 0 {
        Seq::empty()
    } else {
        let before = fitting(slots.drop_last(), y, bottom, x, right);
        let (line, file, size) = slots.last();
        let top = y + line;
        if top + size.height <= bottom {
            let room = if right >= x { (right - x) as nat } else { 0 };
            let width = if (size.width as nat) <= room { size.width } else { room as u16 };
            before.push((file, Area { x, y: top as u16, width, height: size.height }))
        } else {
            before
        }
    }
}

/// The pictures of `items` (each its height and its slots), the first on row `y`, that fit
/// whole above `bottom`; the walk stops once an item reaches the bottom.
pub open spec fn walk(items: Seq<(nat, Seq<(nat, Seq<char>, Size)>)>, y: nat, bottom: nat, x: u16, right: nat) -> Seq<
    (Seq<char>, Area),
>
    decreases items.len(),
{
    if items.len() == 0 {
        Seq::empty()
    } else {
        let here = fitting(items[0].1, y, bottom, x, right);
        let next = y + items[0].0;
        if next >= bottom {
            here
        } else {
            here + walk(items.drop_first(), next, bottom, x, right)
        }
    }
}

/// The items as their heights and slots.
pub open spec fn item_views(rows: Seq<(usize, Vec<Slot>)>) -> Seq<(nat, Seq<(nat, Seq<char>, Size)>)> {
    rows.map_values(|r: (usize, Vec<Slot>)| (r.0 as nat, r.1@.map_values(|s: Slot| slot_view(s))))
}

/// Whether heights and lines leave room to add a row number to them.
pub open spec fn addable(rows: Seq<(usize, Vec<Slot>)>) -> bool {
    forall|i: int|
        0 <= i < rows.len() ==> #[trigger] rows[i].0 + u16::MAX <= usize::MAX && forall|k: int|
            0 <= k < rows[i].1@.len() ==> #[trigger] rows[i].1@[k].line + 2 * u16::MAX <= usize::MAX
}

/// The pictures that fit whole in the pane `inner`, at column `x`, walking the items from the
/// scroll `offset` down; a picture cut by the pane edge is skipped rather than squeezed.
pub fn placements(inner: Area, x: u16, offset: usize, rows: &[(usize, Vec<Slot>)]) -> (r: Vec<Placement>)
    requires
        addable(rows@),
    ensures
        r@.map_values(|p: Placement| placement_view(p)) == walk(
            if offset <= rows@.len() {
                item_views(rows@).skip(offset as int)
            } else {
                Seq::empty()
            },
            inner.y as nat,
            bottom_of(inner),
            x,
            right_of(inner),
        ),
{
    let ghost all = item_views(rows@);
    let ghost items = if offset <= rows@.len() {
        all.skip(offset as int)
    } else {
        Seq::empty()
    };
    let bottom: usize = if inner.y as usize + inner.height as usize > 65535 {
        65535
    } else {
        inner.y as usize + inner.height as usize
    };
    let right: usize = if inner.x as usize + inner.width as usize > 65535 {
        65535
    } else {
        inner.x as usize + inner.width as usize
    };
    let mut out: Vec<Placement> = Vec::new();
    let mut y: usize = inner.y as usize;
    let mut i: usize = offset;
    if offset > rows.len() {
        i = rows.len();
    }
    proof {
        if offset <= rows@.len() {
            assert(all.skip(offset as int) == all.skip(i as int));
        } else {
            assert(all.skip(i as int).len() == 0);
        }
    }
    while i < rows.len()
        invariant_except_break
            i <= rows@.len(),
            all == item_views(rows@),
            addable(rows@),
            bottom == bottom_of(inner),
            right == right_of(inner),
            y <= bottom <= 65535,
            out@.map_values(|p: Placement| placement_view(p)) + walk(all.skip(i as int), y as nat, bottom as nat, x, right as nat)
                == walk(items, inner.y as nat, bottom as nat, x, right as nat),
        ensures
            out@.map_values(|p: Placement| placement_view(p)) == walk(items, inner.y as nat, bottom as nat, x, right as nat),
        decreases rows.len() - i,
    {
        let (height, slots) = (rows[i].0, &rows[i].1);
        let ghost sv = slots@.map_values(|s: Slot| slot_view(s));
        let ghost before = out@.map_values(|p: Placement| placement_view(p));
        proof {
            assert(all.skip(i as int)[0] == all[i as int]);
            assert(all[i as int] == (height as nat, sv));
        }
        let mut k: usize = 0;
        while k < slots.len()
            invariant
                k <= slots@.len(),
                sv == slots@.map_values(|s: Slot| slot_view(s)),
                y <= bottom <= 65535,
                right <= 65535,
                forall|m: int| 0 <= m < slots@.len() ==> #[trigger] slots@[m].line + 2 * u16::MAX <= usize::MAX,
                out@.map_values(|p: Placement| placement_view(p)) == before + fitting(
                    sv.take(k as int),
                    y as nat,
                    bottom as nat,
                    x,
                    right as nat,
                ),
            decreases slots.len() - k,
        {
            proof {
                let t = sv.take(k + 1);
                assert(t.drop_last() == sv.take(k as int));
                assert(t.last() == slot_view(slots@[k as int]));
            }
            let slot = &slots[k];
            let top = y + slot.line;
            if top + (slot.size.height as usize) <= bottom {
                let room: usize = if right >= x as usize { right - x as usize } else { 0 };
                let width: u16 = if (slot.size.width as usize) <= room { slot.size.width } else { room as u16 };
                let p = Placement {
                    file: copy_string(&slot.file),
                    area: Area { x, y: top as u16, width, height: slot.size.height },
                };
                let ghost old_out = out@;
                out.push(p);
                assert(out@.map_values(|p: Placement| placement_view(p)) == old_out.map_values(
                    |p: Placement| placement_view(p),
                ).push(placement_view(p)));
            }
            k += 1;
        }
        assert(sv.take(sv.len() as int) == sv);
        let next = y + height;
        proof {
            assert(all.skip(i as int).drop_first() == all.skip(i + 1));
        }
        if next >= bottom {
            break;
        }
        y = next;
        i += 1;
    }
    out
}

} // verus!
