use slack_tui::conversation::{Conversation, Post, Thread};
use slack_tui::sidebar::Badge;
use slack_tui::state::Focus;

fn msg(ts: &str, text: &str) -> Post {
    Post {
        ts: ts.into(),
        thread_ts: None,
        text: text.into(),
        edited: false,
        reply_count: 0,
        latest_reply: None,
        reactions: vec![],
        files: vec![],
    }
}

fn open(messages: Vec<Post>) -> Conversation {
    let selected = messages.len().saturating_sub(1);
    Conversation { messages, selected, thread: None, searching: false }
}

#[test]
fn live_message_appends_and_follows_bottom() {
    let mut c = open(vec![msg("1", "a")]);
    c.arrive(msg("2", "b"));
    assert_eq!(c.messages.len(), 2);
    assert_eq!(c.selected, 1);
    c.arrive(msg("2", "b"));
    assert_eq!(c.messages.len(), 2, "the same message twice lands once");
    let elsewhere = Badge::default().noticed(false);
    assert_eq!(elsewhere, Badge { unread: true, mentions: 0 });
    assert_eq!(elsewhere.noticed(true), Badge { unread: true, mentions: 1 });
}

#[test]
fn a_cursor_above_the_bottom_stays_and_search_results_never_follow() {
    let mut c = open(vec![msg("1", "a"), msg("2", "b")]);
    c.selected = 0;
    c.arrive(msg("3", "c"));
    assert_eq!(c.selected, 0);
    let mut results = open(vec![msg("1", "a")]);
    results.searching = true;
    results.arrive(msg("2", "b"));
    assert_eq!(results.messages.len(), 2);
    assert_eq!(results.selected, 0);
    let mut empty = open(vec![]);
    empty.arrive(msg("1", "first"));
    assert_eq!(empty.selected, 0);
}

#[test]
fn live_reply_updates_root_and_open_thread() {
    let mut c = open(vec![msg("1", "root")]);
    c.thread = Some(Thread { channel: "C1".into(), root_ts: "1".into(), messages: vec![msg("1", "root")], selected: 0 });
    let reply = Post { thread_ts: Some("1".into()), ..msg("2", "reply") };
    c.arrive(reply);
    assert_eq!(c.messages.len(), 1);
    assert_eq!(c.messages[0].reply_count, 1);
    assert_eq!(c.messages[0].latest_reply.as_deref(), Some("2"));
    let t = c.thread.as_ref().unwrap();
    assert_eq!(t.messages.len(), 2);
    assert_eq!(t.selected, 1);
    c.arrive(Post { thread_ts: Some("1".into()), ..msg("2", "reply") });
    assert_eq!(c.thread.as_ref().unwrap().messages.len(), 2, "a reply lands once in its thread");
    c.arrive(Post { thread_ts: Some("9".into()), ..msg("3", "other thread") });
    assert_eq!(c.thread.as_ref().unwrap().messages.len(), 2);
    assert_eq!(c.messages.len(), 1, "a reply never lands in the channel list");
    c.arrive(Post { thread_ts: Some("4".into()), ..msg("4", "a root naming itself") });
    assert_eq!(c.messages.len(), 2);
}

#[test]
fn live_edit_delete_and_reactions() {
    let mut c = open(vec![msg("1", "a"), msg("2", "b")]);
    c.change("1", "edited", true);
    assert_eq!(c.messages[0].text, "edited");
    assert!(c.messages[0].edited);
    assert_eq!(c.messages[1].text, "b");
    c.react("1", "tada", "U1", true);
    c.react("1", "tada", "U2", true);
    assert_eq!(c.messages[0].reactions[0].count, 2);
    assert_eq!(c.messages[0].reactions[0].users, vec!["U1", "U2"]);
    c.react("1", "tada", "U1", false);
    assert_eq!(c.messages[0].reactions[0].users, vec!["U2"]);
    c.react("1", "tada", "U2", false);
    assert!(c.messages[0].reactions.is_empty());
    c.delete("2");
    assert_eq!(c.messages.len(), 1);
    assert_eq!(c.selected, 0);
}

#[test]
fn changes_reach_the_open_thread_too() {
    let mut c = open(vec![msg("1", "root")]);
    c.thread = Some(Thread {
        channel: "C1".into(),
        root_ts: "1".into(),
        messages: vec![msg("1", "root"), msg("2", "x"), msg("3", "y")],
        selected: 2,
    });
    c.change("2", "x!", true);
    c.react("1", "eyes", "U1", true);
    assert_eq!(c.messages[0].reactions.len(), 1);
    c.delete("3");
    let t = c.thread.as_ref().unwrap();
    assert_eq!(t.messages[1].text, "x!");
    assert_eq!(t.messages[0].reactions.len(), 1);
    assert_eq!(t.messages.len(), 2);
    assert_eq!(t.selected, 1, "the cursor stays inside the thread");
    c.delete("1");
    assert!(c.messages.is_empty());
    assert_eq!(c.selected, 0);
}

#[test]
fn refresh_keeps_selection_when_not_at_bottom() {
    let mut c = open(vec![msg("1", "a"), msg("2", "b"), msg("3", "c")]);
    c.selected = 0;
    c.reload(vec![msg("0", "z"), msg("1", "a"), msg("2", "b"), msg("3", "c")]);
    assert_eq!(c.selected, 1);
}

#[test]
fn a_refresh_at_the_bottom_follows_the_new_last_message() {
    let mut c = open(vec![msg("1", "a"), msg("2", "b")]);
    c.reload(vec![msg("1", "a"), msg("2", "b"), msg("3", "c")]);
    assert_eq!(c.selected, 2);
    c.selected = 0;
    c.reload(vec![msg("7", "x"), msg("8", "y")]);
    assert_eq!(c.selected, 1, "the message it was on is gone");
    c.reload(vec![]);
    assert_eq!(c.selected, 0);
    c.open_thread("C1".into(), "7".into(), vec![msg("7", "x"), msg("9", "reply")]);
    let t = c.thread.as_ref().unwrap();
    assert_eq!((t.root_ts.as_str(), t.messages.len(), t.selected), ("7", 2, 1));
}

#[test]
fn thread_reply_goes_to_the_root_of_the_selection_or_of_the_open_thread() {
    let reply = Post { thread_ts: Some("1".into()), ..msg("2", "b") };
    let mut c = open(vec![msg("1", "a"), reply]);
    assert_eq!(c.reply_target(None, false, Focus::Messages), None, "pick a conversation first");
    assert_eq!(c.reply_target(Some("C1"), false, Focus::Messages), Some(("C1".into(), None)));
    assert_eq!(c.reply_target(Some("C1"), true, Focus::Messages), Some(("C1".into(), Some("1".into()))));
    c.selected = 0;
    assert_eq!(c.reply_target(Some("C1"), true, Focus::Messages), Some(("C1".into(), Some("1".into()))));
    assert_eq!(c.reply_target(Some("C1"), true, Focus::Thread), None, "no thread open");
    c.open_thread("C1".into(), "1".into(), vec![msg("1", "a")]);
    assert_eq!(c.reply_target(Some("C1"), true, Focus::Thread), Some(("C1".into(), Some("1".into()))));
    let empty = open(vec![]);
    assert_eq!(empty.reply_target(Some("C1"), true, Focus::Messages), None);
}
