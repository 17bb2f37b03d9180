use slack_tui::layout::{Area, Size};
use slack_tui::pictures::{placements, Placement, Slot};

fn slot(line: usize, file: &str, width: u16, height: u16) -> Slot {
    Slot { line, file: file.into(), size: Size { width, height } }
}

#[test]
fn pictures_land_under_their_lines_while_they_fit() {
    let inner = Area { x: 1, y: 2, width: 50, height: 10 };
    let rows = vec![(4, vec![slot(1, "F1", 20, 3)]), (6, vec![slot(1, "F2", 20, 6)]), (3, vec![slot(0, "F3", 5, 1)])];
    assert_eq!(
        placements(inner, 5, 0, &rows),
        vec![Placement { file: "F1".into(), area: Area { x: 5, y: 3, width: 20, height: 3 } }]
    );
    let tall = Area { height: 20, ..inner };
    let placed: Vec<String> = placements(tall, 5, 0, &rows).into_iter().map(|p| p.file).collect();
    assert_eq!(placed, ["F1", "F2", "F3"]);
}

#[test]
fn the_walk_starts_at_the_scroll_offset_and_narrows_to_the_pane() {
    let inner = Area { x: 0, y: 0, width: 30, height: 10 };
    let rows = vec![(4, vec![slot(1, "F1", 20, 3)]), (6, vec![slot(0, "F2", 40, 4)])];
    assert_eq!(
        placements(inner, 10, 1, &rows),
        vec![Placement { file: "F2".into(), area: Area { x: 10, y: 0, width: 20, height: 4 } }]
    );
    assert_eq!(placements(inner, 10, 5, &rows), vec![]);
}
