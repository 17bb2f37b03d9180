use slack_tui::inbox::{heading, thread_to_open, title, Inbox, InboxKey, InboxOutcome, Item, ItemKind};

const NOW: u64 = 1_700_000_000_000;
const HOUR: u64 = 3_600_000;

fn item(key: &str, kind: ItemKind) -> Item {
    Item {
        key: key.into(),
        kind,
        channel: "C1".into(),
        label: format!("#{key}"),
        thread_ts: None,
        ts: "5.0".into(),
    }
}

fn loaded(items: Vec<Item>) -> Inbox {
    let mut inbox = Inbox::new(Vec::new(), Vec::new());
    inbox.items = items;
    inbox.loading = false;
    inbox
}

#[test]
fn read_and_snooze_remove_and_remember() {
    let mut inbox = Inbox::new(Vec::new(), Vec::new());
    inbox.set_items(vec![item("a", ItemKind::Dm), item("b", ItemKind::Mention), item("c", ItemKind::Thread)], NOW);
    inbox.move_by(1);
    let read = inbox.read_selected().unwrap();
    assert_eq!(read.key, "b");
    assert_eq!(inbox.flash, "marked #b read");
    assert_eq!(inbox.items.len(), 2);
    assert_eq!(inbox.selected, 1);
    let snoozed = inbox.snooze_selected("in 1 hour", NOW + HOUR).unwrap();
    assert_eq!(snoozed.key, "c");
    assert_eq!(inbox.flash, "snoozed until in 1 hour");
    assert_eq!(inbox.selected, 0);
    inbox.set_items(vec![item("a", ItemKind::Dm), item("b", ItemKind::Mention), item("c", ItemKind::Thread)], NOW);
    assert_eq!(inbox.items.iter().map(|i| i.key.as_str()).collect::<Vec<_>>(), ["a"]);
    assert_eq!(inbox.read_all().len(), 1);
    assert_eq!(inbox.flash, "marked 1 read");
    assert!(inbox.items.is_empty());
    assert!(inbox.read_selected().is_none());
    assert!(inbox.take_selected().is_none());
}

#[test]
fn a_snooze_ends_and_something_newer_brings_a_read_item_back() {
    let mut inbox = Inbox::new(Vec::new(), Vec::new());
    inbox.set_items(vec![item("a", ItemKind::Dm), item("b", ItemKind::Mention)], NOW);
    assert!(!inbox.loading);
    inbox.read_selected().unwrap();
    inbox.snooze_selected("in 1 hour", NOW + HOUR).unwrap();
    assert_eq!(inbox.read, vec![("a".to_string(), "5.0".to_string())]);
    assert_eq!(inbox.snoozed, vec![("b".to_string(), NOW + HOUR)]);
    inbox.set_items(vec![item("a", ItemKind::Dm), item("b", ItemKind::Mention)], NOW + HOUR - 1);
    assert!(inbox.items.is_empty(), "read and still snoozed");
    inbox.set_items(vec![item("a", ItemKind::Dm), item("b", ItemKind::Mention)], NOW + HOUR);
    assert_eq!(inbox.items.iter().map(|i| i.key.as_str()).collect::<Vec<_>>(), ["b"], "the snooze is over");
    assert!(inbox.snoozed.is_empty(), "an ended snooze is forgotten");
    let newer = Item { ts: "7.0".into(), ..item("a", ItemKind::Dm) };
    inbox.set_items(vec![newer, item("b", ItemKind::Mention)], NOW + HOUR);
    assert_eq!(inbox.items.iter().map(|i| i.key.as_str()).collect::<Vec<_>>(), ["a", "b"], "a newer message shows again");
}

#[test]
fn reloading_a_shorter_list_keeps_the_cursor_inside() {
    let mut inbox = Inbox::new(Vec::new(), Vec::new());
    inbox.set_items(vec![item("a", ItemKind::Dm), item("b", ItemKind::Dm), item("c", ItemKind::Dm)], NOW);
    inbox.move_by(2);
    assert_eq!(inbox.selected, 2);
    inbox.set_items(vec![item("a", ItemKind::Dm)], NOW);
    assert_eq!(inbox.selected, 0);
    inbox.set_items(Vec::new(), NOW);
    assert_eq!(inbox.selected, 0);
    assert!(inbox.selected_item().is_none());
}

#[test]
fn reading_everything_remembers_each_item() {
    let mut inbox = Inbox::new(vec![("a".into(), "1.0".into())], Vec::new());
    inbox.set_items(vec![item("a", ItemKind::Dm), item("b", ItemKind::Thread)], NOW);
    assert_eq!(inbox.key(InboxKey::Char('a')), InboxOutcome::ReadAll(vec![item("a", ItemKind::Dm), item("b", ItemKind::Thread)]));
    assert_eq!(inbox.read, vec![("a".to_string(), "5.0".to_string()), ("b".to_string(), "5.0".to_string())]);
    inbox.set_items(vec![item("a", ItemKind::Dm), item("b", ItemKind::Thread)], NOW);
    assert!(inbox.items.is_empty());
}

#[test]
fn inbox_escape_closes_and_q_quits() {
    let mut inbox = loaded(vec![item("a", ItemKind::Dm)]);
    assert_eq!(inbox.key(InboxKey::Esc), InboxOutcome::Close);
    assert_eq!(inbox.key(InboxKey::Char('q')), InboxOutcome::Quit);
    assert_eq!(inbox.key(InboxKey::Char('?')), InboxOutcome::Help);
}

#[test]
fn inbox_read_snooze_reply_and_open() {
    let mut inbox = loaded(vec![item("a", ItemKind::Mention), item("b", ItemKind::Mention)]);
    match inbox.key(InboxKey::Right) {
        InboxOutcome::Read(i) => assert_eq!(i.key, "a"),
        other => panic!("→ gave {other:?}"),
    }
    assert_eq!(inbox.key(InboxKey::Left), InboxOutcome::Stay);
    assert!(inbox.picking_snooze);
    assert_eq!(inbox.key(InboxKey::Char('3')), InboxOutcome::Chose(2));
    let snoozed = inbox.snooze_selected("tomorrow", NOW + 24 * HOUR).unwrap();
    assert_eq!(snoozed.key, "b");
    assert!(!inbox.picking_snooze);
    assert!(inbox.items.is_empty());
    assert_eq!(inbox.key(InboxKey::Left), InboxOutcome::Stay);
    assert!(!inbox.picking_snooze, "nothing to snooze, nothing to ask");

    inbox.items = vec![Item { thread_ts: Some("9".into()), ..item("c", ItemKind::Mention) }];
    assert_eq!(inbox.key(InboxKey::Char('r')), InboxOutcome::Reply(inbox.items[0].clone()));
    assert_eq!(inbox.key(InboxKey::Char('o')), InboxOutcome::Open(inbox.items[0].clone()));
    match inbox.key(InboxKey::Enter) {
        InboxOutcome::Enter(i) => assert_eq!(thread_to_open(&i).as_deref(), Some("9")),
        other => panic!("enter gave {other:?}"),
    }
    assert_eq!(inbox.items.len(), 1, "opening reads nothing");
}

#[test]
fn the_snooze_question_takes_a_preset_or_goes_away() {
    let mut inbox = loaded(vec![item("a", ItemKind::Dm)]);
    inbox.key(InboxKey::Char('s'));
    assert!(inbox.picking_snooze);
    assert_eq!(inbox.key(InboxKey::Char('1')), InboxOutcome::Chose(0));
    assert_eq!(inbox.key(InboxKey::Char('4')), InboxOutcome::Chose(3));
    assert_eq!(inbox.key(InboxKey::Char('5')), InboxOutcome::Stay);
    assert_eq!(inbox.key(InboxKey::Char('j')), InboxOutcome::Stay, "other keys wait for an answer");
    assert!(inbox.picking_snooze);
    inbox.key(InboxKey::Esc);
    assert!(!inbox.picking_snooze);
    inbox.key(InboxKey::Char('h'));
    inbox.key(InboxKey::Char('q'));
    assert!(!inbox.picking_snooze, "q stops asking instead of quitting");
}

#[test]
fn keys_move_reload_and_read_everything() {
    let mut inbox = loaded(vec![item("a", ItemKind::Dm), item("b", ItemKind::Dm), item("c", ItemKind::Dm)]);
    inbox.key(InboxKey::Char('G'));
    assert_eq!(inbox.selected, 2);
    inbox.key(InboxKey::Up);
    assert_eq!(inbox.selected, 1);
    inbox.key(InboxKey::Home);
    assert_eq!(inbox.selected, 0);
    inbox.key(InboxKey::Char('d'));
    assert_eq!(inbox.flash, "marked #a read");
    inbox.key(InboxKey::Down);
    assert_eq!(inbox.flash, "", "each key clears the note");
    assert_eq!(inbox.key(InboxKey::Char('R')), InboxOutcome::Reload);
    assert!(inbox.loading);
    match inbox.key(InboxKey::Char('a')) {
        InboxOutcome::ReadAll(all) => assert_eq!(all.len(), 2),
        other => panic!("a gave {other:?}"),
    }
    assert_eq!(inbox.flash, "marked 2 read");
    assert_eq!(inbox.selected, 0);
}

#[test]
fn a_mention_opens_its_own_thread_and_a_dm_none() {
    assert_eq!(thread_to_open(&item("a", ItemKind::Mention)).as_deref(), Some("5.0"));
    assert_eq!(thread_to_open(&item("a", ItemKind::Dm)), None);
    let reply = Item { thread_ts: Some("4.0".into()), ..item("a", ItemKind::Thread) };
    assert_eq!(thread_to_open(&reply).as_deref(), Some("4.0"));
}

#[test]
fn items_are_listed_with_their_mark_and_the_title_counts_them() {
    assert_eq!(heading(ItemKind::Dm, 3), ("✉", "3 new".to_string()));
    assert_eq!(heading(ItemKind::Mention, 1), ("@", "mention".to_string()));
    assert_eq!(heading(ItemKind::Thread, 12), ("⤷", "12 new in thread".to_string()));
    assert_eq!(title(true, 4), "inbox · loading…");
    assert_eq!(title(false, 0), "inbox · all clear");
    assert_eq!(title(false, 7), "inbox · 7");
}
