//! Boxes of terminal cells: the sizes the screen is cut into, and boxes centred in them.
use vstd::prelude::*;

verus! {

/// A rectangle of terminal cells.
#[derive(Clone, Copy, Debug, PartialEq, Eq, Structural)]
pub struct Area {
    pub x: u16,
    pub y: u16,
    pub width: u16,
    pub height: u16,
}

/// A size in terminal cells.
#[derive(Clone, Copy, Debug, PartialEq, Eq, Structural)]
pub struct Size {
    pub width: u16,
    pub height: u16,
}

/// A box `width` by `height` cells in the middle of `area`, shrunk to fit when the area is
/// smaller: where it stands.
pub open spec fn centered_box(area: Area, width: u16, height: u16) -> Area {
    let w = if width <= area.width { width } else { area.width };
    let h = if height <= area.height { height } else { area.height };
    Area { x: (area.x + (area.width - w) / 2) as u16, y: (area.y + (area.height - h) / 2) as u16, width: w, height: h }
}

/// Whether the corner of a `width` by `height` box centred in `area` can be named in cell
/// numbers.
pub open spec fn addressable(area: Area, width: u16, height: u16) -> bool {
    let w = if width <= area.width { width } else { area.width };
    let h = if height <= area.height { height } else { area.height };
    area.x + (area.width - w) / 2 <= u16::MAX && area.y + (area.height - h) / 2 <= u16::MAX
}

/// A box of `width` by `height` cells in the middle of `area`, shrunk to fit when the
/// terminal is smaller.
pub fn centered_cells(area: Area, width: u16, height: u16) -> (r: Area)
    requires
        addressable(area, width, height),
    ensures
        r == centered_box(area, width, height),
{
    let width = if width <= area.width { width } else { area.width };
    let height = if height <= area.height { height } else { area.height };
    Area { x: area.x + (area.width - width) / 2, y: area.y + (area.height - height) / 2, width, height }
}

/// A box taking `width` and `height` percent of `area`, in the middle of it.
pub fn centered_pct(area: Area, width: u16, height: u16) -> (r: Area)
    requires
        area.width * width <= u16::MAX,
        area.height * height <= u16::MAX,
        addressable(area, ((area.width * width) / 100) as u16, ((area.height * height) / 100) as u16),
    ensures
        r == centered_box(area, ((area.width * width) / 100) as u16, ((area.height * height) / 100) as u16),
{
    centered_cells(area, area.width * width / 100, area.height * height / 100)
}

/// A centred box never spills out of its area, and sits as far from one side as from the
/// other, give or take a cell.
pub proof fn law_centered_box_fits(area: Area, width: u16, height: u16)
    requires
        addressable(area, width, height),
    ensures
        ({
            let r = centered_box(area, width, height);
            &&& area.x <= r.x
            &&& r.x + r.width <= area.x + area.width
            &&& area.y <= r.y
            &&& r.y + r.height <= area.y + area.height
            &&& (r.x - area.x) <= (area.x + area.width) - (r.x + r.width) <= (r.x - area.x) + 1
            &&& (r.y - area.y) <= (area.y + area.height) - (r.y + r.height) <= (r.y - area.y) + 1
        }),
{
}

/// How wide the reading view's column is on an area `width` cells wide: three quarters of
/// it, never narrower than 80 columns nor wider than 110, and never wider than the area.
pub open spec fn reading_width(width: u16) -> u16 {
    let q = width * 3 / 4;
    let c = if q < 80 {
        80
    } else if q > 110 {
        110
    } else {
        q
    };
    (if c <= width {
        c
    } else {
        width as int
    }) as u16
}

/// The reading view's one column, centred in `area`.
pub fn reading_column(area: Area) -> (r: Area)
    requires
        area.width * 3 <= u16::MAX,
        area.x + area.width <= u16::MAX,
    ensures
        r == (Area {
            x: (area.x + (area.width - reading_width(area.width)) / 2) as u16,
            y: area.y,
            width: reading_width(area.width),
            height: area.height,
        }),
        area.x <= r.x,
        r.x + r.width <= area.x + area.width,
{
    let q = area.width * 3 / 4;
    let c: u16 = if q < 80 {
        80
    } else if q > 110 {
        110
    } else {
        q
    };
    let width = if c <= area.width {
        c
    } else {
        area.width
    };
    Area { x: area.x + (area.width - width) / 2, y: area.y, width, height: area.height }
}

/// Which of the panes (channels, conversation, thread) recede: every pane but the focused one,
/// and all of them under a box drawn over the panes; the thread pane only while it is open.
pub fn receding(focus: crate::state::Focus, thread_open: bool, modal: bool) -> (r: (bool, bool, bool))
    ensures
        r == (
            focus != crate::state::Focus::Channels || modal,
            focus != crate::state::Focus::Messages || modal,
            thread_open && (focus != crate::state::Focus::Thread || modal),
        ),
{
    (
        focus != crate::state::Focus::Channels || modal,
        focus != crate::state::Focus::Messages || modal,
        thread_open && (focus != crate::state::Focus::Thread || modal),
    )
}

} // verus!
