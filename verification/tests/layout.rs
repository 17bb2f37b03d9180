use slack_tui::layout::{centered_cells, centered_pct, reading_column, receding, Area};
use slack_tui::state::Focus;

#[test]
fn a_box_sits_in_the_middle_of_its_area() {
    let area = Area { x: 10, y: 5, width: 80, height: 20 };
    assert_eq!(centered_cells(area, 40, 10), Area { x: 30, y: 10, width: 40, height: 10 });
    assert_eq!(centered_cells(area, 41, 11), Area { x: 29, y: 9, width: 41, height: 11 });
}

#[test]
fn a_box_too_big_for_the_terminal_shrinks_to_fit() {
    let area = Area { x: 0, y: 0, width: 40, height: 12 };
    assert_eq!(centered_cells(area, 90, 30), area);
}

#[test]
fn a_percentage_box_takes_that_share_of_the_area() {
    let area = Area { x: 0, y: 0, width: 100, height: 50 };
    assert_eq!(centered_pct(area, 92, 90), Area { x: 4, y: 2, width: 92, height: 45 });
}

#[test]
fn the_reading_column_is_three_quarters_between_80_and_110() {
    let at = |width: u16| reading_column(Area { x: 0, y: 1, width, height: 20 });
    assert_eq!(at(120), Area { x: 15, y: 1, width: 90, height: 20 });
    assert_eq!(at(200), Area { x: 45, y: 1, width: 110, height: 20 });
    assert_eq!(at(100), Area { x: 10, y: 1, width: 80, height: 20 });
    assert_eq!(at(60), Area { x: 0, y: 1, width: 60, height: 20 }, "never wider than the terminal");
    assert_eq!(reading_column(Area { x: 4, y: 0, width: 120, height: 5 }).x, 19);
}

#[test]
fn every_pane_but_the_focused_one_recedes() {
    assert_eq!(receding(Focus::Channels, false, false), (false, true, false));
    assert_eq!(receding(Focus::Messages, true, false), (true, false, true));
    assert_eq!(receding(Focus::Thread, true, false), (true, true, false));
    assert_eq!(receding(Focus::Thread, true, true), (true, true, true), "a box over the panes dims them all");
}
