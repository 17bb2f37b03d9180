use slack_tui::conversation::{Conversation, Post};
use slack_tui::feedback::{Typing, Until};
use slack_tui::images::{FileRef, Thumb, Thumbs};
use slack_tui::inbox::{Inbox, Item, ItemKind};
use slack_tui::session::{apply_live, enter_item, route, Action, Incoming, LiveEvent, Session};
use slack_tui::sidebar::{Badge, ChannelRow, Kind};
use slack_tui::state::{Focus, Live};
use slack_tui::typesafe::Unavailable;
use std::collections::VecDeque;

fn msg(ts: &str, text: &str) -> Post {
    Post {
        ts: ts.into(),
        thread_ts: None,
        text: text.into(),
        edited: false,
        reply_count: 0,
        latest_reply: None,
        reactions: vec![],
        files: vec![],
    }
}

fn session() -> Session<()> {
    Session {
        current: None,
        me: "U1".into(),
        live: Live::Connecting,
        conversation: Conversation { messages: vec![], selected: 0, thread: None, searching: false },
        badges: vec![],
        unread: vec![],
        typing: Typing::new(),
        wall: VecDeque::new(),
        firehose_open: false,
        triage: false,
        loading: true,
        toast: None,
        focus: Focus::Channels,
        latest: None,
        row_open: false,
        channels: vec![],
        people: vec![],
        inbox: None,
        thumbs: Thumbs::off(),
    }
}

fn message(channel: &str, post: Post, author: &str) -> LiveEvent {
    LiveEvent::Message { channel: channel.into(), post, author: Some(author.into()), author_known: true, mentions_me: false }
}

/// The session with C1 open on one message.
fn watching_c1() -> Session<()> {
    let mut s = session();
    assert_eq!(route(&mut s, Incoming::DmOpened("C1".into()), 0), vec![Action::LoadHistory("C1".into())]);
    route(&mut s, Incoming::History { channel: "C1".into(), messages: vec![msg("1", "a")] }, 0);
    s
}

#[test]
fn live_messages_reach_the_open_conversation_and_light_up_the_others() {
    let mut s = watching_c1();
    apply_live(&mut s, LiveEvent::Connected, 0);
    assert_eq!(s.live, Live::Connected);
    apply_live(&mut s, message("C1", msg("2", "b"), "U2"), 0);
    assert_eq!(s.conversation.messages.len(), 2);
    assert_eq!(s.conversation.selected, 1);
    apply_live(&mut s, message("C1", msg("2", "b"), "U2"), 0);
    assert_eq!(s.conversation.messages.len(), 2);
    apply_live(&mut s, message("C2", msg("3", "elsewhere"), "U2"), 0);
    assert!(s.unread.contains(&"C2".to_string()));
    assert_eq!(s.badges, vec![("C2".to_string(), Badge { unread: true, mentions: 0 })]);
    assert_eq!(s.conversation.messages.len(), 2);
    assert_eq!(s.wall.len(), 3, "every message goes on the wall");
    apply_live(&mut s, LiveEvent::Disconnected, 0);
    assert_eq!(s.live, Live::Connecting);
    apply_live(&mut s, LiveEvent::GaveUp("boom".into()), 0);
    assert_eq!(s.live, Live::Polling("boom".into()));
}

#[test]
fn edits_deletions_and_reactions_touch_only_the_open_conversation() {
    let mut s = watching_c1();
    apply_live(&mut s, LiveEvent::Changed { channel: "C2".into(), ts: "1".into(), text: "x".into(), edited: true }, 0);
    assert_eq!(s.conversation.messages[0].text, "a");
    apply_live(&mut s, LiveEvent::Changed { channel: "C1".into(), ts: "1".into(), text: "a!".into(), edited: true }, 0);
    assert_eq!(s.conversation.messages[0].text, "a!");
    let react = |channel: &str| LiveEvent::Reaction {
        channel: channel.into(),
        ts: "1".into(),
        name: "tada".into(),
        user: "U2".into(),
        added: true,
    };
    apply_live(&mut s, react("C2"), 0);
    assert!(s.conversation.messages[0].reactions.is_empty());
    apply_live(&mut s, react("C1"), 0);
    assert_eq!(s.conversation.messages[0].reactions.len(), 1);
    apply_live(&mut s, LiveEvent::Deleted { channel: "C2".into(), ts: "1".into() }, 0);
    assert_eq!(s.conversation.messages.len(), 1);
    apply_live(&mut s, LiveEvent::Deleted { channel: "C1".into(), ts: "1".into() }, 0);
    assert!(s.conversation.messages.is_empty());
}

#[test]
fn typing_shows_for_others_in_the_open_conversation_only() {
    let mut s = watching_c1();
    apply_live(&mut s, LiveEvent::Typing { channel: "C1".into(), user: "U1".into() }, 0);
    apply_live(&mut s, LiveEvent::Typing { channel: "C2".into(), user: "U3".into() }, 0);
    assert_eq!(s.typing.line(0), None);
    apply_live(&mut s, LiveEvent::Typing { channel: "C1".into(), user: "U2".into() }, 0);
    assert_eq!(s.typing.line(0).as_deref(), Some("U2 is typing···"));
}

#[test]
fn opening_a_conversation_clears_the_typists_and_the_badge() {
    let mut s = watching_c1();
    apply_live(&mut s, LiveEvent::Typing { channel: "C1".into(), user: "U2".into() }, 0);
    route(&mut s, Incoming::DmOpened("C2".into()), 0);
    assert_eq!(s.typing.line(0), None);
    assert_eq!(s.current.as_deref(), Some("C2"));
    assert!(s.conversation.messages.is_empty());
    assert_eq!(s.focus, Focus::Messages);
}

#[test]
fn unknown_live_authors_are_learned_once_seen() {
    let mut s = session();
    let event = LiveEvent::Message {
        channel: "C1".into(),
        post: msg("1", "x"),
        author: Some("U77".into()),
        author_known: false,
        mentions_me: false,
    };
    assert_eq!(apply_live(&mut s, event, 0), vec![Action::LearnUsers(vec!["U77".into()])]);
}

#[test]
fn triage_classifies_live_lines_only_while_the_firehose_is_open() {
    let mut s = session();
    s.triage = true;
    assert!(apply_live(&mut s, message("C2", msg("1", "one"), "U2"), 0).is_empty());
    s.firehose_open = true;
    assert_eq!(
        apply_live(&mut s, message("C2", msg("2", "two"), "U2"), 0),
        vec![Action::Classify { channel: "C2".into(), ts: "2".into() }]
    );
}

#[test]
fn badges_come_from_counts_and_live_mentions() {
    let mut s = session();
    route(
        &mut s,
        Incoming::Channels {
            rows: vec![ChannelRow::new("C1", "#general", Kind::Public), ChannelRow::new("C2", "#random", Kind::Public)],
            people: vec![],
            badges: vec![("C2".to_string(), Badge { unread: true, mentions: 2 })],
            me: "U1".into(),
        },
        0,
    );
    assert!(!s.loading);
    assert_eq!(s.unread, ["C2"]);
    let ping = LiveEvent::Message {
        channel: "C1".into(),
        post: msg("1", "<@U1> ping"),
        author: Some("U2".into()),
        author_known: true,
        mentions_me: true,
    };
    apply_live(&mut s, ping, 0);
    assert_eq!(s.badges[1], ("C1".to_string(), Badge { unread: true, mentions: 1 }));
    route(&mut s, Incoming::DmOpened("C1".into()), 0);
    assert!(s.badges.iter().all(|(id, _)| id != "C1"));
    assert!(!s.unread.contains(&"C1".to_string()));
}

#[test]
fn polling_only_when_feed_is_down() {
    let mut s = watching_c1();
    s.loading = false;
    assert_eq!(route(&mut s, Incoming::Tick, 0), vec![Action::LoadHistory("C1".into())]);
    apply_live(&mut s, LiveEvent::Connected, 0);
    assert_eq!(route(&mut s, Incoming::Tick, 0), vec![]);
    apply_live(&mut s, LiveEvent::GaveUp("boom".into()), 0);
    assert!(matches!(s.live, Live::Polling(_)));
    assert_eq!(route(&mut s, Incoming::Tick, 0), vec![Action::LoadHistory("C1".into())]);
    s.row_open = true;
    assert_eq!(route(&mut s, Incoming::Tick, 0), vec![], "nothing reloads under the input row");
}

#[test]
fn triage_failure_turns_it_off_with_one_notice() {
    let mut s = session();
    s.triage = true;
    route(&mut s, Incoming::TriageUnavailable(Unavailable("quota exhausted".into())), 0);
    assert!(!s.triage);
    assert_eq!(s.toast.as_ref().unwrap().text, "⚠ typesafe unavailable: quota exhausted");
    route(&mut s, Incoming::TriageUnavailable(Unavailable("again".into())), 5000);
    assert!(!s.toast.as_ref().unwrap().text.contains("again"));
}

#[test]
fn notices_and_errors_end_the_loading_and_an_empty_notice_does_nothing() {
    let mut s = session();
    route(&mut s, Incoming::Toast(String::new()), 0);
    assert!(s.loading && s.toast.is_none());
    route(&mut s, Incoming::Toast("joined".into()), 10);
    assert!(!s.loading);
    assert_eq!(s.toast.as_ref().unwrap().until, Until::Time(2010));
    s.loading = true;
    route(&mut s, Incoming::Error("boom".into()), 0);
    assert!(!s.loading);
    assert_eq!(s.toast.as_ref().unwrap().text, "✗ boom");
    assert_eq!(s.toast.as_ref().unwrap().until, Until::NextKey);
    route(&mut s, Incoming::Latest(Some("abc1234".into())), 0);
    assert_eq!(s.latest.as_deref(), Some("abc1234"));
}

#[test]
fn joining_leaving_and_sending_ask_for_what_changed() {
    let mut s = session();
    assert_eq!(
        route(&mut s, Incoming::Joined("C1".into()), 0),
        vec![Action::LoadChannels, Action::LoadHistory("C1".into())]
    );
    assert_eq!(
        route(&mut s, Incoming::Sent { channel: "C1".into(), thread_ts: Some("9".into()) }, 0),
        vec![Action::LoadReplies { channel: "C1".into(), ts: "9".into() }, Action::LoadHistory("C1".into())]
    );
    assert!(s.loading);
    assert_eq!(s.toast.as_ref().unwrap().text, "sent ✓");
    assert_eq!(route(&mut s, Incoming::Sent { channel: "C2".into(), thread_ts: None }, 0), vec![]);
    assert!(!s.loading);
    route(&mut s, Incoming::Replies { channel: "C1".into(), ts: "9".into(), messages: vec![msg("9", "root")] }, 0);
    assert!(s.conversation.thread.is_some());
    assert_eq!(route(&mut s, Incoming::Left("C1".into()), 0), vec![Action::LoadChannels]);
    assert_eq!(s.current, None);
    assert!(s.conversation.thread.is_none());
    assert_eq!(s.focus, Focus::Channels);
    assert_eq!(s.toast.as_ref().unwrap().text, "left");
}

#[test]
fn a_history_for_another_conversation_is_ignored() {
    let mut s = watching_c1();
    route(&mut s, Incoming::History { channel: "C9".into(), messages: vec![msg("5", "z")] }, 0);
    assert_eq!(s.conversation.messages.len(), 1);
    assert_eq!(s.conversation.messages[0].ts, "1");
    assert!(!s.loading);
}

fn inbox_item(key: &str) -> Item {
    Item { key: key.into(), kind: ItemKind::Mention, channel: "C1".into(), label: format!("#{key}"), thread_ts: None, ts: "5.0".into() }
}

#[test]
fn inbox_items_reach_the_open_inbox_and_the_model_when_triage_is_on() {
    let mut s = session();
    assert_eq!(route(&mut s, Incoming::Inbox { items: vec![inbox_item("a")], at: 0 }, 0), vec![]);
    assert!(s.inbox.is_none(), "no inbox open, nothing kept");
    s.inbox = Some(Inbox::new(vec![("b".into(), "5.0".into())], vec![]));
    assert_eq!(route(&mut s, Incoming::Inbox { items: vec![inbox_item("a"), inbox_item("b")], at: 0 }, 0), vec![]);
    let inbox = s.inbox.as_ref().unwrap();
    assert!(!inbox.loading);
    assert_eq!(inbox.items, vec![inbox_item("a")], "what was read stays out");
    s.triage = true;
    assert_eq!(
        route(&mut s, Incoming::Inbox { items: vec![inbox_item("a"), inbox_item("b")], at: 0 }, 0),
        vec![Action::Prioritize(vec![inbox_item("a")])]
    );
    assert_eq!(route(&mut s, Incoming::Inbox { items: vec![inbox_item("b")], at: 0 }, 0), vec![], "nothing left to rank");
}

#[test]
fn a_message_sent_elsewhere_says_so_in_the_inbox() {
    let mut s = session();
    s.inbox = Some(Inbox::new(vec![], vec![]));
    assert_eq!(route(&mut s, Incoming::Sent { channel: "C9".into(), thread_ts: None }, 0), vec![]);
    assert_eq!(s.inbox.as_ref().unwrap().flash, "sent ✓");
    assert!(!s.loading);
}

fn with_picture(ts: &str, id: &str) -> Post {
    Post { files: vec![FileRef { id: id.into(), thumb_url: Some(format!("https://files/{id}")) }], ..msg(ts, "look") }
}

#[test]
fn pictures_on_screen_are_fetched_once_and_forgotten_when_gone() {
    let mut s = watching_c1();
    s.thumbs = Thumbs::on();
    let history = vec![msg("1", "a"), with_picture("2", "F1")];
    assert_eq!(
        route(&mut s, Incoming::History { channel: "C1".into(), messages: history }, 0),
        vec![Action::LoadImage { id: "F1".into(), url: "https://files/F1".into() }]
    );
    assert!(s.thumbs.loading());
    let again = vec![msg("1", "a"), with_picture("2", "F1")];
    assert_eq!(route(&mut s, Incoming::History { channel: "C1".into(), messages: again }, 0), vec![], "asked for once");
    assert_eq!(route(&mut s, Incoming::Thumb { id: "F1".into(), picture: Some(()) }, 0), vec![]);
    assert!(matches!(s.thumbs.get("F1"), Some(Thumb::Ready(()))));
    let live = apply_live(&mut s, message("C1", with_picture("3", "F2"), "U2"), 0);
    assert_eq!(live, vec![Action::LoadImage { id: "F2".into(), url: "https://files/F2".into() }]);
    assert_eq!(route(&mut s, Incoming::History { channel: "C1".into(), messages: vec![msg("1", "a")] }, 0), vec![]);
    assert!(s.thumbs.get("F1").is_none(), "off screen, forgotten");
    assert_eq!(
        route(&mut s, Incoming::Replies { channel: "C1".into(), ts: "1".into(), messages: vec![with_picture("5", "F3")] }, 0),
        vec![Action::LoadImage { id: "F3".into(), url: "https://files/F3".into() }],
        "a thread's pictures are fetched too"
    );
}

#[test]
fn without_pictures_nothing_is_fetched() {
    let mut s = watching_c1();
    assert_eq!(route(&mut s, Incoming::History { channel: "C1".into(), messages: vec![with_picture("2", "F1")] }, 0), vec![]);
    route(&mut s, Incoming::Thumb { id: "F1".into(), picture: Some(()) }, 0);
    assert!(matches!(s.thumbs.get("F1"), Some(Thumb::Failed)));
}

#[test]
fn entering_an_inbox_item_opens_its_conversation_and_thread() {
    let mut s = session();
    s.inbox = Some(Inbox::new(vec![], vec![]));
    let actions = enter_item(&mut s, Item { channel: "C7".into(), ..inbox_item("a") });
    assert_eq!(actions, vec![Action::LoadHistory("C7".into()), Action::LoadReplies { channel: "C7".into(), ts: "5.0".into() }]);
    assert!(s.inbox.is_none());
    assert_eq!(s.current.as_deref(), Some("C7"));
    let dm = Item { kind: ItemKind::Dm, channel: "D1".into(), ..inbox_item("d") };
    assert_eq!(enter_item(&mut s, dm), vec![Action::LoadHistory("D1".into())], "a direct message opens no thread");
}
