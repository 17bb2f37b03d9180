use slack_tui::items::{ends_blank, item_rows, ItemRow};

fn days(n: usize, day: &str) -> Vec<String> {
    vec![day.to_string(); n]
}

#[test]
fn selected_message_shows_its_header_even_when_it_continues_the_previous_one() {
    let days = days(2, "Thursday, September 14");
    let continued = [false, true];
    let blank = [false, false];
    let headers = |selected: usize| item_rows(&days, &continued, &blank, selected, false).iter().filter(|r| r.header).count();
    assert_eq!(headers(0), 1);
    assert_eq!(headers(1), 2);
}

#[test]
fn a_day_line_opens_each_day_and_groups_are_spaced() {
    let days: Vec<String> = ["Mon", "Mon", "Mon", "Tue"].iter().map(|d| d.to_string()).collect();
    let rows = item_rows(&days, &[false, true, false, true], &[false, false, true, false], 3, false);
    assert_eq!(
        rows[0],
        ItemRow { header: true, new_day: true, gap: false, show_time: true, selected: false }
    );
    assert_eq!(
        rows[1],
        ItemRow { header: false, new_day: false, gap: false, show_time: true, selected: false }
    );
    assert_eq!(
        rows[2],
        ItemRow { header: true, new_day: false, gap: true, show_time: true, selected: false }
    );
    assert_eq!(
        rows[3],
        ItemRow { header: true, new_day: true, gap: false, show_time: true, selected: true },
        "a message after a code block needs no gap, and the selected row keeps its header"
    );
}

#[test]
fn the_reading_view_shows_the_time_on_the_selected_row_alone() {
    let days = days(3, "Mon");
    let rows = item_rows(&days, &[false, false, false], &[false, false, false], 1, true);
    assert_eq!(rows.iter().map(|r| r.show_time).collect::<Vec<_>>(), [false, true, false]);
    assert!(item_rows(&[], &[], &[], 0, false).is_empty());
}

#[test]
fn a_code_block_ends_blank_unless_something_is_drawn_under_it() {
    assert!(ends_blank(false, false, false, true));
    assert!(!ends_blank(true, false, false, true));
    assert!(!ends_blank(false, true, false, true));
    assert!(!ends_blank(false, false, true, true));
    assert!(!ends_blank(false, false, false, false));
}
