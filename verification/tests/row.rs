use slack_tui::emoji::emoji_names;
use slack_tui::inbox::{Item, ItemKind};
use slack_tui::row::{Input, Row, RowKey, RowOutcome, Submission, EMPTY_EDIT};

fn row_with(input: Input, text: &str) -> Row {
    let mut row = Row::start(input, "");
    let names = emoji_names();
    for c in text.chars() {
        assert_eq!(row.key(RowKey::Char(c), &names), RowOutcome::Edited);
    }
    row
}

fn reply() -> Input {
    Input::Reply { channel: "C1".into(), thread_ts: None, label: "#general".into() }
}

fn react() -> Input {
    Input::React { channel: "C1".into(), ts: "1".into() }
}

#[test]
fn the_input_row_edits_where_the_cursor_sits() {
    let names = emoji_names();
    let mut row = row_with(reply(), "helo");
    row.key(RowKey::Left, &names);
    row.key(RowKey::Char('l'), &names);
    assert_eq!(row.text(), "hello");
    row.key(RowKey::Home, &names);
    assert_eq!(row.key(RowKey::Delete, &names), RowOutcome::Edited);
    row.key(RowKey::Ctrl('e'), &names);
    row.key(RowKey::Char('!'), &names);
    assert_eq!(row.key(RowKey::Enter, &names), RowOutcome::Submit);
    assert_eq!(
        row.submission(),
        Submission::Send { channel: "C1".into(), thread_ts: None, text: "ello!".into() }
    );
}

#[test]
fn ctrl_w_eats_the_word_before_the_cursor_and_ctrl_a_goes_back_to_the_start() {
    let names = emoji_names();
    let mut row = row_with(reply(), "ship it now");
    assert_eq!(row.key(RowKey::Ctrl('w'), &names), RowOutcome::Edited);
    assert_eq!(row.text(), "ship it ");
    row.key(RowKey::Ctrl('a'), &names);
    row.key(RowKey::Char('>'), &names);
    assert_eq!(row.text(), ">ship it ");
    assert_eq!(row.key(RowKey::Ctrl('z'), &names), RowOutcome::Stay);
    assert_eq!(row.text(), ">ship it ", "an unbound control key types nothing");
}

#[test]
fn an_edit_prefill_starts_with_the_cursor_after_the_last_character() {
    let names = emoji_names();
    let mut row = Row::start(Input::Edit { channel: "C1".into(), ts: "1".into() }, "café");
    row.key(RowKey::Char('!'), &names);
    assert_eq!(row.text(), "café!");
    row.key(RowKey::Home, &names);
    row.key(RowKey::Char('¡'), &names);
    assert_eq!(row.text(), "¡café!");
    assert_eq!(
        row.submission(),
        Submission::Edit { channel: "C1".into(), ts: "1".into(), text: "¡café!".into() }
    );
}

#[test]
fn tab_cycles_emoji_names_and_reacts_with_the_bare_name() {
    let names = emoji_names();
    let mut row = row_with(react(), "rocke");
    assert_eq!(row.key(RowKey::Tab, &names), RowOutcome::Stay);
    assert_eq!(row.text(), "rocket");
    row.key(RowKey::Tab, &names);
    assert_eq!(row.text(), "arrows_counterclockwise");
    row.key(RowKey::BackTab, &names);
    assert_eq!(row.text(), "rocket");
    assert_eq!(row.submission(), Submission::React { channel: "C1".into(), ts: "1".into(), name: "rocket".into() });
}

#[test]
fn a_pasted_glyph_or_colons_react_with_the_name() {
    for (typed, name) in [("🚀", "rocket"), ("👍🏽", "+1"), (":rocket:", "rocket"), ("partyparrot", "partyparrot")] {
        match row_with(react(), typed).submission() {
            Submission::React { name: got, .. } => assert_eq!(got, name, "{typed}"),
            other => panic!("{typed} gave {other:?}"),
        }
    }
    assert_eq!(row_with(react(), "::").submission(), Submission::Nothing);
}

#[test]
fn tab_on_a_pasted_glyph_completes_to_its_name() {
    let names = emoji_names();
    let mut row = row_with(react(), "🚀");
    row.key(RowKey::Tab, &names);
    assert_eq!(row.text(), "rocket");
}

#[test]
fn an_edit_drops_the_options_being_cycled_and_so_does_leaving_the_row() {
    let names = emoji_names();
    let mut row = row_with(react(), "rocke");
    row.key(RowKey::Tab, &names);
    row.key(RowKey::Backspace, &names);
    assert_eq!(row.text(), "rocke");
    row.key(RowKey::Tab, &names);
    assert_eq!(row.text(), "rocket", "cycling starts over on the best name");
}

#[test]
fn right_takes_the_grey_end_of_the_name() {
    let names = emoji_names();
    let mut row = row_with(react(), "rocke");
    assert_eq!(row.ghost(&names).as_deref(), Some("t"));
    row.key(RowKey::Right, &names);
    assert_eq!(row.text(), "rocket");
    assert_eq!(row.ghost(&names), None, "a complete name suggests nothing");
    row.key(RowKey::Char('!'), &names);
    assert_eq!(row.text(), "rocket!", "the cursor stayed at the end");
}

#[test]
fn the_react_row_waits_for_the_cursor_at_the_end() {
    let names = emoji_names();
    let mut row = row_with(react(), "rocke");
    row.key(RowKey::Left, &names);
    assert_eq!(row.ghost(&names), None);
    row.key(RowKey::Right, &names);
    assert_eq!(row.ghost(&names).as_deref(), Some("t"));
    row.key(RowKey::Left, &names);
    row.key(RowKey::End, &names);
    assert_eq!(row.text(), "rocke", "from mid-text, end only moves the cursor");
    row.key(RowKey::End, &names);
    assert_eq!(row.text(), "rocket", "at the end, end takes the suggestion");
}

#[test]
fn a_reply_row_completes_nothing_and_keeps_its_arrows() {
    let names = emoji_names();
    let mut row = row_with(reply(), "rocke");
    assert_eq!(row.ghost(&names), None);
    row.key(RowKey::Tab, &names);
    assert_eq!(row.text(), "rocke", "tab completes nothing in a reply");
    row.key(RowKey::Left, &names);
    row.key(RowKey::Right, &names);
    row.key(RowKey::Char('t'), &names);
    assert_eq!(row.text(), "rocket", "→ moved the cursor back to the end");
}

#[test]
fn empty_reply_is_dropped_and_escape_cancels() {
    let names = emoji_names();
    assert_eq!(row_with(reply(), "").submission(), Submission::Nothing);
    assert_eq!(row_with(reply(), "  ").submission(), Submission::Nothing);
    let mut row = row_with(reply(), "z");
    assert_eq!(row.key(RowKey::Esc, &names), RowOutcome::Close);
    assert_eq!(row_with(Input::Search, "").submission(), Submission::Nothing);
    assert_eq!(row_with(Input::Search, " deploy ").submission(), Submission::Search(" deploy ".into()));
    let mut filter = row_with(Input::Filter, "ran");
    assert_eq!(filter.key(RowKey::Esc, &names), RowOutcome::Close);
    assert_eq!(filter.submission(), Submission::Filtered);
    assert_eq!(filter.input(), &Input::Filter);
}

#[test]
fn an_empty_edit_is_refused_rather_than_deleting() {
    let names = emoji_names();
    let mut row = Row::start(Input::Edit { channel: "C1".into(), ts: "1".into() }, "a");
    row.key(RowKey::Backspace, &names);
    assert_eq!(row.submission(), Submission::Refused(EMPTY_EDIT.into()));
    assert!(EMPTY_EDIT.contains(":delete"));
}

#[test]
fn thread_reply_targets_the_root() {
    let row = row_with(Input::Reply { channel: "C1".into(), thread_ts: Some("9".into()), label: "#g thread".into() }, "ok");
    assert_eq!(
        row.submission(),
        Submission::Send { channel: "C1".into(), thread_ts: Some("9".into()), text: "ok".into() }
    );
}

#[test]
fn an_inbox_reply_answers_its_item() {
    let item = Item {
        key: "c".into(),
        kind: ItemKind::Mention,
        channel: "C2".into(),
        label: "#random".into(),
        thread_ts: Some("9".into()),
        ts: "10".into(),
    };
    let row = row_with(Input::InboxReply { item: item.clone() }, "ok");
    assert_eq!(row.submission(), Submission::Answer { item: item.clone(), text: "ok".into() });
    assert_eq!(row_with(Input::InboxReply { item }, " ").submission(), Submission::Nothing);
}

#[test]
fn the_row_says_what_it_is_for() {
    assert_eq!(reply().prompt(), "reply to #general");
    assert_eq!(react().prompt(), "react with");
    assert_eq!(Input::Edit { channel: "C1".into(), ts: "1".into() }.prompt(), "edit");
    assert_eq!(Input::Filter.prompt(), "filter");
    assert_eq!(Input::Search.prompt(), "search");
}
