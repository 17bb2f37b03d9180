//! One step of the app's state: what a live event from Slack, or an answer the background
//! tasks bring back, changes, and what it asks to be done next. Messages, edits, deletions
//! and reactions reach the open conversation; a message elsewhere lights that channel up.
use crate::conversation::{
    arrival_fits, arrived, changed, deleted, posts, reaction_fits, reacted_in, reloaded_at, Conversation,
    ConversationView, Post, PostView, ThreadView,
};
use crate::feedback::{marked, Toast, Typing, Until, TOAST_LIFE_MS, TYPING_LIFE_MS};
use crate::firehose::{push, pushed, CAPACITY};
use crate::images::{asked, file_view, kept, FileRef, ThumbState, Thumbs};
use crate::inbox::{copy_items, items, loaded_at, thread_of, thread_to_open, Inbox, InboxView, Item, ItemView};
use crate::sidebar::{row_views, Badge, ChannelRow, RowView};
use crate::state::{Focus, Live};
use crate::text::{copy_string, opt_view, same_str, texts};
use crate::typesafe::Unavailable;
use std::collections::VecDeque;
use vstd::prelude::*;

verus! {

/// One line of the firehose wall: where a message was posted, and its thread.
#[derive(Debug, PartialEq, Eq)]
pub struct WallLine {
    pub channel: String,
    pub ts: String,
    pub thread_ts: Option<String>,
}

/// A wall line as texts.
pub struct WallView {
    pub channel: Seq<char>,
    pub ts: Seq<char>,
    pub thread_ts: Option<Seq<char>>,
}

impl View for WallLine {
    type V = WallView;

    open spec fn view(&self) -> WallView {
        WallView { channel: self.channel@, ts: self.ts@, thread_ts: opt_view(self.thread_ts) }
    }
}

/// The views of the wall.
pub open spec fn wall_views(s: Seq<WallLine>) -> Seq<WallView> {
    s.map_values(|l: WallLine| l@)
}

/// How live updates arrive, as texts.
pub enum LiveView {
    Connecting,
    Connected,
    Polling(Seq<char>),
}

/// `l` as texts.
pub open spec fn live_view(l: Live) -> LiveView {
    match l {
        Live::Connecting => LiveView::Connecting,
        Live::Connected => LiveView::Connected,
        Live::Polling(r) => LiveView::Polling(r@),
    }
}

/// A toast as its text and when it ends.
pub open spec fn toast_view(t: Option<Toast>) -> Option<(Seq<char>, Until)> {
    match t {
        Some(t) => Some((t.text@, t.until)),
        None => None,
    }
}

/// The badges as (conversation id, badge).
pub open spec fn badge_views(b: Seq<(String, Badge)>) -> Seq<(Seq<char>, Badge)> {
    b.map_values(|e: (String, Badge)| (e.0@, e.1))
}

/// The people as (id, handle).
pub open spec fn people_of(p: Seq<(String, String)>) -> Seq<(Seq<char>, Seq<char>)> {
    p.map_values(|e: (String, String)| (e.0@, e.1@))
}

/// What the app keeps between events, as far as events change it; `R` is what the terminal
/// draws a picture with.
pub struct Session<R> {
    /// The conversation open, by id.
    pub current: Option<String>,
    /// The signed-in user's id.
    pub me: String,
    pub live: Live,
    pub conversation: Conversation,
    /// The unread state of each conversation, by id.
    pub badges: Vec<(String, Badge)>,
    /// The conversations with messages not read yet, by id.
    pub unread: Vec<String>,
    pub typing: Typing,
    /// Every live message, newest last, for the firehose.
    pub wall: VecDeque<WallLine>,
    pub firehose_open: bool,
    /// Whether the model is asked how pressing messages are.
    pub triage: bool,
    pub loading: bool,
    pub toast: Option<Toast>,
    pub focus: Focus,
    /// The newest commit of the project, once the update check answered.
    pub latest: Option<String>,
    /// Whether the input row is open.
    pub row_open: bool,
    pub channels: Vec<ChannelRow>,
    /// The people, as (id, handle).
    pub people: Vec<(String, String)>,
    /// The inbox overlay, while it is open.
    pub inbox: Option<Inbox>,
    /// The pictures of the messages on screen.
    pub thumbs: Thumbs<R>,
}

/// The inbox, when open, as plain values.
pub open spec fn inbox_view(b: Option<Inbox>) -> Option<InboxView> {
    match b {
        Some(b) => Some(b@),
        None => None,
    }
}

/// A session as plain values.
pub struct SessionView {
    pub current: Option<Seq<char>>,
    pub me: Seq<char>,
    pub live: LiveView,
    pub conversation: ConversationView,
    pub badges: Seq<(Seq<char>, Badge)>,
    pub unread: Seq<Seq<char>>,
    pub typing: Seq<(Seq<char>, nat)>,
    pub wall: Seq<WallView>,
    pub firehose_open: bool,
    pub triage: bool,
    pub loading: bool,
    pub toast: Option<(Seq<char>, Until)>,
    pub focus: Focus,
    pub latest: Option<Seq<char>>,
    pub row_open: bool,
    pub channels: Seq<RowView>,
    pub people: Seq<(Seq<char>, Seq<char>)>,
    pub inbox: Option<InboxView>,
    /// The pictures known, by file id, and where each stands.
    pub thumbs: Seq<(Seq<char>, ThumbState)>,
    /// Whether the terminal can draw pictures.
    pub can_draw: bool,
}

impl<R> View for Session<R> {
    type V = SessionView;

    open spec fn view(&self) -> SessionView {
        SessionView {
            current: opt_view(self.current),
            me: self.me@,
            live: live_view(self.live),
            conversation: self.conversation@,
            badges: badge_views(self.badges@),
            unread: texts(self.unread@),
            typing: self.typing.view(),
            wall: wall_views(self.wall@),
            firehose_open: self.firehose_open,
            triage: self.triage,
            loading: self.loading,
            toast: toast_view(self.toast),
            focus: self.focus,
            latest: opt_view(self.latest),
            row_open: self.row_open,
            channels: row_views(self.channels@),
            people: people_of(self.people@),
            inbox: inbox_view(self.inbox),
            thumbs: self.thumbs.entries(),
            can_draw: self.thumbs.can_draw(),
        }
    }
}

/// An event of Slack's live feed.
pub enum LiveEvent {
    Connected,
    Disconnected,
    /// The live feed gave up, with why; the app polls instead.
    GaveUp(String),
    /// A message was posted in `channel`; `author` wrote it, `author_known` says whether their
    /// name is known yet, `mentions_me` whether it mentions the signed-in user.
    Message { channel: String, post: Post, author: Option<String>, author_known: bool, mentions_me: bool },
    Changed { channel: String, ts: String, text: String, edited: bool },
    Deleted { channel: String, ts: String },
    Typing { channel: String, user: String },
    Reaction { channel: String, ts: String, name: String, user: String, added: bool },
}

/// A live event as plain values.
pub enum LiveEventView {
    Connected,
    Disconnected,
    GaveUp(Seq<char>),
    Message {
        channel: Seq<char>,
        post: PostView,
        author: Option<Seq<char>>,
        author_known: bool,
        mentions_me: bool,
    },
    Changed { channel: Seq<char>, ts: Seq<char>, text: Seq<char>, edited: bool },
    Deleted { channel: Seq<char>, ts: Seq<char> },
    Typing { channel: Seq<char>, user: Seq<char> },
    Reaction { channel: Seq<char>, ts: Seq<char>, name: Seq<char>, user: Seq<char>, added: bool },
}

impl View for LiveEvent {
    type V = LiveEventView;

    open spec fn view(&self) -> LiveEventView {
        match self {
            LiveEvent::Connected => LiveEventView::Connected,
            LiveEvent::Disconnected => LiveEventView::Disconnected,
            LiveEvent::GaveUp(r) => LiveEventView::GaveUp(r@),
            LiveEvent::Message { channel, post, author, author_known, mentions_me } => LiveEventView::Message {
                channel: channel@,
                post: post@,
                author: opt_view(*author),
                author_known: *author_known,
                mentions_me: *mentions_me,
            },
            LiveEvent::Changed { channel, ts, text, edited } => LiveEventView::Changed {
                channel: channel@,
                ts: ts@,
                text: text@,
                edited: *edited,
            },
            LiveEvent::Deleted { channel, ts } => LiveEventView::Deleted { channel: channel@, ts: ts@ },
            LiveEvent::Typing { channel, user } => LiveEventView::Typing { channel: channel@, user: user@ },
            LiveEvent::Reaction { channel, ts, name, user, added } => LiveEventView::Reaction {
                channel: channel@,
                ts: ts@,
                name: name@,
                user: user@,
                added: *added,
            },
        }
    }
}

/// What a step asks the background tasks to do.
#[derive(Debug, PartialEq, Eq)]
pub enum Action {
    LoadChannels,
    LoadHistory(String),
    LoadReplies { channel: String, ts: String },
    /// Ask for the names of these users.
    LearnUsers(Vec<String>),
    /// Ask the model what kind of live message this is, for the firehose.
    Classify { channel: String, ts: String },
    /// Ask the model how pressing each of these inbox items is.
    Prioritize(Vec<Item>),
    /// Fetch the picture of the file `id` from `url`.
    LoadImage { id: String, url: String },
}

/// An action as plain values.
pub enum ActionView {
    LoadChannels,
    LoadHistory(Seq<char>),
    LoadReplies { channel: Seq<char>, ts: Seq<char> },
    LearnUsers(Seq<Seq<char>>),
    Classify { channel: Seq<char>, ts: Seq<char> },
    Prioritize(Seq<ItemView>),
    LoadImage { id: Seq<char>, url: Seq<char> },
}

impl View for Action {
    type V = ActionView;

    open spec fn view(&self) -> ActionView {
        match self {
            Action::LoadChannels => ActionView::LoadChannels,
            Action::LoadHistory(c) => ActionView::LoadHistory(c@),
            Action::LoadReplies { channel, ts } => ActionView::LoadReplies { channel: channel@, ts: ts@ },
            Action::LearnUsers(u) => ActionView::LearnUsers(texts(u@)),
            Action::Classify { channel, ts } => ActionView::Classify { channel: channel@, ts: ts@ },
            Action::Prioritize(i) => ActionView::Prioritize(items(i@)),
            Action::LoadImage { id, url } => ActionView::LoadImage { id: id@, url: url@ },
        }
    }
}

/// The views of `a`.
pub open spec fn action_views(a: Seq<Action>) -> Seq<ActionView> {
    a.map_values(|x: Action| x@)
}

/// The first badge of `badges` from position `i` on that is for `id`.
pub open spec fn badge_at(badges: Seq<(Seq<char>, Badge)>, id: Seq<char>, i: nat) -> Option<nat>
    decreases badges.len() - i,
{
    if i >= badges.len() {
        None
    } else if badges[i as int].0 == id {
        Some(i)
    } else {
        badge_at(badges, id, i + 1)
    }
}

/// A badge once a message arrived in its conversation: unread, and one more mention when
/// the message mentions the signed-in user.
pub open spec fn noticed(b: Badge, mention: bool) -> Badge {
    Badge {
        unread: true,
        mentions: if mention {
            (b.mentions + 1) as u64
        } else {
            b.mentions
        },
    }
}

/// The badges once a message arrived in `id`: its badge is noticed, or a new one is made.
pub open spec fn badged(badges: Seq<(Seq<char>, Badge)>, id: Seq<char>, mention: bool) -> Seq<
    (Seq<char>, Badge),
> {
    match badge_at(badges, id, 0) {
        Some(i) => badges.update(i as int, (id, noticed(badges[i as int].1, mention))),
        None => badges.push((id, noticed(Badge { unread: false, mentions: 0 }, mention))),
    }
}

/// Whether the badge of `id` can count one more mention.
pub open spec fn badge_fits(badges: Seq<(Seq<char>, Badge)>, id: Seq<char>, mention: bool) -> bool {
    mention ==> match badge_at(badges, id, 0) {
        Some(i) => badges[i as int].1.mentions < u64::MAX,
        None => true,
    }
}

/// `ids` with `id` among them.
pub open spec fn with_id(ids: Seq<Seq<char>>, id: Seq<char>) -> Seq<Seq<char>> {
    if ids.contains(id) {
        ids
    } else {
        ids.push(id)
    }
}

/// `ids` without `id`.
pub open spec fn without_id(ids: Seq<Seq<char>>, id: Seq<char>) -> Seq<Seq<char>>
    decreases ids.len(),
{
    if ids.len() == 0 {
        ids
    } else if ids.last() == id {
        without_id(ids.drop_last(), id)
    } else {
        without_id(ids.drop_last(), id).push(ids.last())
    }
}

/// `badges` without the badge of `id`.
pub open spec fn without_badge(badges: Seq<(Seq<char>, Badge)>, id: Seq<char>) -> Seq<(Seq<char>, Badge)>
    decreases badges.len(),
{
    if badges.len() == 0 {
        badges
    } else if badges.last().0 == id {
        without_badge(badges.drop_last(), id)
    } else {
        without_badge(badges.drop_last(), id).push(badges.last())
    }
}

/// The conversations whose badge says unread, in order.
pub open spec fn unread_of(badges: Seq<(Seq<char>, Badge)>) -> Seq<Seq<char>>
    decreases badges.len(),
{
    if badges.len() == 0 {
        Seq::empty()
    } else if badges.last().1.unread {
        unread_of(badges.drop_last()).push(badges.last().0)
    } else {
        unread_of(badges.drop_last())
    }
}

/// Whether `channel` is the conversation open.
pub open spec fn is_open(s: SessionView, channel: Seq<char>) -> bool {
    s.current == Some(channel)
}

/// A notice `text` shown from `now` for `TOAST_LIFE_MS`.
pub open spec fn timed(text: Seq<char>, now: u64) -> Option<(Seq<char>, Until)> {
    Some((text, Until::Time((now + TOAST_LIFE_MS) as u64)))
}

/// The files of `p`, message after message.
pub open spec fn files_in(p: Seq<PostView>) -> Seq<(Seq<char>, Option<Seq<char>>)>
    decreases p.len(),
{
    if p.len() == 0 {
        Seq::empty()
    } else {
        files_in(p.drop_last()) + p.last().files
    }
}

/// The files on screen: those of the conversation's messages, then those of the open thread.
pub open spec fn screen_files(c: ConversationView) -> Seq<(Seq<char>, Option<Seq<char>>)> {
    files_in(c.messages) + match c.thread {
        Some(t) => files_in(t.messages),
        None => Seq::empty(),
    }
}

/// The pictures, and those to fetch, once the screen shows `files`: pictures that left the
/// screen are forgotten, and when the terminal can draw, each new picture is asked for once.
pub open spec fn refreshed(
    entries: Seq<(Seq<char>, ThumbState)>,
    can_draw: bool,
    files: Seq<(Seq<char>, Option<Seq<char>>)>,
) -> (Seq<(Seq<char>, ThumbState)>, Seq<(Seq<char>, Seq<char>)>) {
    let left = kept(entries, files.map_values(|f: (Seq<char>, Option<Seq<char>>)| f.0));
    if can_draw {
        asked(left, files)
    } else {
        (left, Seq::empty())
    }
}

/// The fetches of `wanted`, as (file id, address).
pub open spec fn loads(wanted: Seq<(Seq<char>, Seq<char>)>) -> Seq<ActionView> {
    wanted.map_values(|w: (Seq<char>, Seq<char>)| ActionView::LoadImage { id: w.0, url: w.1 })
}

/// The session once its pictures follow what is on screen, and the fetches that asks for.
pub open spec fn with_pictures(s: SessionView) -> (SessionView, Seq<ActionView>) {
    let (entries, wanted) = refreshed(s.thumbs, s.can_draw, screen_files(s.conversation));
    (SessionView { thumbs: entries, ..s }, loads(wanted))
}

/// Whether a live event can be taken in: the wall is within its bound, and what the event
/// counts has room to count it.
pub open spec fn live_fits(s: SessionView, e: LiveEventView, now: u64) -> bool {
    &&& s.wall.len() <= CAPACITY
    &&& match e {
        LiveEventView::Message { channel, post, mentions_me, .. } => if is_open(s, channel) {
            arrival_fits(s.conversation, post)
        } else {
            badge_fits(s.badges, channel, s.me.len() > 0 && mentions_me)
        },
        LiveEventView::Typing { channel, user } => is_open(s, channel) && user != s.me ==> now
            + TYPING_LIFE_MS <= u64::MAX,
        LiveEventView::Reaction { channel, ts, name, user, added } => is_open(s, channel) ==> reaction_fits(
            s.conversation,
            ts,
            name,
            user,
            added,
        ),
        _ => true,
    }
}

/// The session and the actions after the live event `e` at `now`. The connection state
/// follows the feed. A message goes on the wall (and is classified when triage runs and the
/// firehose is open); in the open conversation it arrives, elsewhere it lights that
/// conversation's badge up, counting a mention of the signed-in user; the pictures follow the
/// screen, new ones fetched first; an author not known yet is asked for. Edits, deletions and reactions change the open conversation only, and
/// typing shows only in it, and never for the signed-in user.
pub open spec fn live_applied(s: SessionView, e: LiveEventView, now: u64) -> (SessionView, Seq<ActionView>) {
    match e {
        LiveEventView::Connected => (SessionView { live: LiveView::Connected, ..s }, Seq::empty()),
        LiveEventView::Disconnected => (SessionView { live: LiveView::Connecting, ..s }, Seq::empty()),
        LiveEventView::GaveUp(r) => (SessionView { live: LiveView::Polling(r), ..s }, Seq::empty()),
        LiveEventView::Message { channel, post, author, author_known, mentions_me } => {
            let wall = pushed(s.wall, WallView { channel, ts: post.ts, thread_ts: post.thread_ts });
            let classify = if s.triage && s.firehose_open {
                seq![ActionView::Classify { channel, ts: post.ts }]
            } else {
                Seq::empty()
            };
            let learn = match author {
                Some(u) => if !author_known {
                    seq![ActionView::LearnUsers(seq![u])]
                } else {
                    Seq::empty()
                },
                None => Seq::empty(),
            };
            let after = if is_open(s, channel) {
                SessionView { conversation: arrived(s.conversation, post), wall, ..s }
            } else {
                SessionView {
                    badges: badged(s.badges, channel, s.me.len() > 0 && mentions_me),
                    unread: with_id(s.unread, channel),
                    wall,
                    ..s
                }
            };
            let (shown, fetch) = with_pictures(after);
            (shown, fetch + classify + learn)
        },
        LiveEventView::Changed { channel, ts, text, edited } => (
            if is_open(s, channel) {
                SessionView { conversation: changed(s.conversation, ts, text, edited), ..s }
            } else {
                s
            },
            Seq::empty(),
        ),
        LiveEventView::Deleted { channel, ts } => (
            if is_open(s, channel) {
                SessionView { conversation: deleted(s.conversation, ts), ..s }
            } else {
                s
            },
            Seq::empty(),
        ),
        LiveEventView::Typing { channel, user } => (
            if is_open(s, channel) && user != s.me {
                SessionView { typing: marked(s.typing, user, (now + TYPING_LIFE_MS) as nat), ..s }
            } else {
                s
            },
            Seq::empty(),
        ),
        LiveEventView::Reaction { channel, ts, name, user, added } => (
            if is_open(s, channel) {
                SessionView { conversation: reacted_in(s.conversation, ts, name, user, added), ..s }
            } else {
                s
            },
            Seq::empty(),
        ),
    }
}

/// Whether `channel` is the conversation open.
fn open_here(current: &Option<String>, channel: &str) -> (b: bool)
    ensures
        b == (opt_view(*current) == Some(channel@)),
{
    match current {
        Some(c) => same_str(c.as_str(), channel),
        None => false,
    }
}

/// A message arrived in `id`, not the open conversation: its badge is noticed.
fn notice(badges: &mut Vec<(String, Badge)>, id: &str, mention: bool)
    requires
        badge_fits(badge_views(old(badges)@), id@, mention),
    ensures
        badge_views(final(badges)@) == badged(badge_views(old(badges)@), id@, mention),
{
    let ghost bs = badge_views(badges@);
    let mut i: usize = 0;
    while i < badges.len()
        invariant
            i <= badges@.len(),
            bs == badge_views(badges@),
            bs == badge_views(old(badges)@),
            badge_fits(bs, id@, mention),
            badge_at(bs, id@, 0) == badge_at(bs, id@, i as nat),
        decreases badges.len() - i,
    {
        if same_str(badges[i].0.as_str(), id) {
            assert(badge_at(bs, id@, i as nat) == Some(i as nat));
            let b = badges[i].1;
            let n = Badge {
                unread: true,
                mentions: if mention {
                    b.mentions + 1
                } else {
                    b.mentions
                },
            };
            badges.set(i, (id.to_owned(), n));
            assert(badge_views(badges@) =~= bs.update(i as int, (id@, noticed(bs[i as int].1, mention))));
            return;
        }
        i += 1;
    }
    let n = Badge { unread: true, mentions: if mention { 1 } else { 0 } };
    badges.push((id.to_owned(), n));
    assert(badge_views(badges@) =~= bs.push((id@, noticed(Badge { unread: false, mentions: 0 }, mention))));
}

/// `id` joins `ids` unless it is there.
fn insert_id(ids: &mut Vec<String>, id: &str)
    ensures
        texts(final(ids)@) == with_id(texts(old(ids)@), id@),
{
    let ghost t = texts(ids@);
    let mut i: usize = 0;
    while i < ids.len()
        invariant
            i <= ids@.len(),
            t == texts(ids@),
            forall|j: int| 0 <= j < i ==> t[j] != id@,
        decreases ids.len() - i,
    {
        if same_str(ids[i].as_str(), id) {
            assert(t[i as int] == id@);
            return;
        }
        i += 1;
    }
    ids.push(id.to_owned());
    assert(texts(ids@) =~= t.push(id@));
}

/// The files as plain values.
pub open spec fn file_views(f: Seq<FileRef>) -> Seq<(Seq<char>, Option<Seq<char>>)> {
    f.map_values(|x: FileRef| file_view(x))
}

/// A copy of `f`.
fn copy_file(f: &FileRef) -> (r: FileRef)
    ensures
        file_view(r) == file_view(*f),
{
    FileRef {
        id: copy_string(&f.id),
        thumb_url: match &f.thumb_url {
            Some(u) => Some(copy_string(u)),
            None => None,
        },
    }
}

/// Adds the files of `messages` to `out`, message after message.
fn gather(messages: &Vec<Post>, out: &mut Vec<FileRef>)
    ensures
        file_views(final(out)@) == file_views(old(out)@) + files_in(posts(messages@)),
{
    let ghost start = file_views(out@);
    let ghost ps = posts(messages@);
    let mut i: usize = 0;
    while i < messages.len()
        invariant
            i <= messages@.len(),
            ps == posts(messages@),
            file_views(out@) == start + files_in(ps.take(i as int)),
        decreases messages.len() - i,
    {
        proof {
            assert(ps.take(i + 1).drop_last() =~= ps.take(i as int));
            assert(ps.take(i + 1).last() == messages@[i as int]@);
        }
        let fs = &messages[i].files;
        let ghost mid = file_views(out@);
        let mut j: usize = 0;
        while j < fs.len()
            invariant
                j <= fs@.len(),
                fs@ == messages@[i as int].files@,
                file_views(out@) == mid + file_views(fs@).take(j as int),
            decreases fs.len() - j,
        {
            let f = copy_file(&fs[j]);
            let ghost before = file_views(out@);
            out.push(f);
            proof {
                assert(file_views(out@) =~= before.push(file_view(f)));
                assert(file_views(fs@).take(j + 1) =~= file_views(fs@).take(j as int).push(file_view(fs@[j as int])));
            }
            j += 1;
        }
        proof {
            assert(file_views(fs@).take(fs@.len() as int) =~= file_views(fs@));
            assert(messages@[i as int]@.files == file_views(fs@));
            assert(file_views(out@) =~= start + files_in(ps.take(i + 1)));
        }
        i += 1;
    }
    proof {
        assert(ps.take(messages@.len() as int) =~= ps);
    }
}

/// Lets the pictures follow what is on screen, and says which to fetch.
fn refresh_pictures<R>(s: &mut Session<R>) -> (r: Vec<Action>)
    requires
        old(s).thumbs.wf(),
    ensures
        final(s).thumbs.wf(),
        (final(s)@, action_views(r@)) == with_pictures(old(s)@),
{
    let mut files: Vec<FileRef> = Vec::new();
    gather(&s.conversation.messages, &mut files);
    match &s.conversation.thread {
        Some(t) => gather(&t.messages, &mut files),
        None => {},
    }
    proof {
        assert(file_views(files@) =~= screen_files(old(s)@.conversation));
    }
    let ghost fv = file_views(files@);
    let mut ids: Vec<String> = Vec::new();
    let mut i: usize = 0;
    while i < files.len()
        invariant
            i <= files@.len(),
            fv == file_views(files@),
            ids@.map_values(|x: String| x@) == fv.map_values(|f: (Seq<char>, Option<Seq<char>>)| f.0).take(i as int),
        decreases files.len() - i,
    {
        let ghost before = ids@.map_values(|x: String| x@);
        ids.push(copy_string(&files[i].id));
        proof {
            assert(ids@.map_values(|x: String| x@) =~= before.push(files@[i as int].id@));
            assert(fv.map_values(|f: (Seq<char>, Option<Seq<char>>)| f.0).take(i + 1) =~= fv.map_values(
                |f: (Seq<char>, Option<Seq<char>>)| f.0,
            ).take(i as int).push(files@[i as int].id@));
        }
        i += 1;
    }
    proof {
        assert(fv.map_values(|f: (Seq<char>, Option<Seq<char>>)| f.0).take(files@.len() as int) =~= fv.map_values(
            |f: (Seq<char>, Option<Seq<char>>)| f.0,
        ));
    }
    s.thumbs.keep_only(ids.as_slice());
    let wanted = s.thumbs.wanted(files.as_slice());
    let ghost wv = wanted@.map_values(|p: (String, String)| (p.0@, p.1@));
    let mut r: Vec<Action> = Vec::new();
    let mut k: usize = 0;
    while k < wanted.len()
        invariant
            k <= wanted@.len(),
            wv == wanted@.map_values(|p: (String, String)| (p.0@, p.1@)),
            action_views(r@) == loads(wv.take(k as int)),
        decreases wanted.len() - k,
    {
        let a = Action::LoadImage { id: copy_string(&wanted[k].0), url: copy_string(&wanted[k].1) };
        let ghost before = action_views(r@);
        r.push(a);
        proof {
            assert(action_views(r@) =~= before.push(a@));
            assert(loads(wv.take(k + 1)) =~= loads(wv.take(k as int)).push(a@));
        }
        k += 1;
    }
    proof {
        assert(wv.take(wanted@.len() as int) =~= wv);
    }
    r
}

/// Takes the live event `event`, at `now` (milliseconds since start), into the session, and
/// says what to do next.
#[verifier::rlimit(80)]
pub fn apply_live<R>(s: &mut Session<R>, event: LiveEvent, now: u64) -> (r: Vec<Action>)
    requires
        live_fits(old(s)@, event@, now),
        old(s).thumbs.wf(),
    ensures
        (final(s)@, action_views(r@)) == live_applied(old(s)@, event@, now),
        final(s).thumbs.wf(),
{
    let mut actions: Vec<Action> = Vec::new();
    match event {
        LiveEvent::Connected => {
            s.live = Live::Connected;
        },
        LiveEvent::Disconnected => {
            s.live = Live::Connecting;
        },
        LiveEvent::GaveUp(reason) => {
            s.live = Live::Polling(reason);
        },
        LiveEvent::Message { channel, post, author, author_known, mentions_me } => {
            let line = WallLine {
                channel: copy_string(&channel),
                ts: copy_string(&post.ts),
                thread_ts: match &post.thread_ts {
                    Some(t) => Some(copy_string(t)),
                    None => None,
                },
            };
            let classify = s.triage && s.firehose_open;
            let ts = copy_string(&post.ts);
            let ghost before = s.wall@;
            push(&mut s.wall, line);
            assert(wall_views(s.wall@) =~= pushed(wall_views(before), line@));
            if open_here(&s.current, channel.as_str()) {
                s.conversation.arrive(post);
            } else {
                let mention = !s.me.as_str().is_empty() && mentions_me;
                notice(&mut s.badges, channel.as_str(), mention);
                insert_id(&mut s.unread, channel.as_str());
            }
            actions = refresh_pictures(s);
            if classify {
                actions.push(Action::Classify { channel: copy_string(&channel), ts });
            }
            match author {
                Some(u) => {
                    if !author_known {
                        let mut who: Vec<String> = Vec::new();
                        who.push(u);
                        assert(texts(who@) =~= seq![who@[0]@]);
                        actions.push(Action::LearnUsers(who));
                    }
                },
                None => {},
            }
        },
        LiveEvent::Changed { channel, ts, text, edited } => {
            if open_here(&s.current, channel.as_str()) {
                s.conversation.change(ts.as_str(), text.as_str(), edited);
            }
        },
        LiveEvent::Deleted { channel, ts } => {
            if open_here(&s.current, channel.as_str()) {
                s.conversation.delete(ts.as_str());
            }
        },
        LiveEvent::Typing { channel, user } => {
            if open_here(&s.current, channel.as_str()) && !same_str(user.as_str(), s.me.as_str()) {
                s.typing.mark(user.as_str(), now);
            }
        },
        LiveEvent::Reaction { channel, ts, name, user, added } => {
            if open_here(&s.current, channel.as_str()) {
                s.conversation.react(ts.as_str(), name.as_str(), user.as_str(), added);
            }
        },
    }
    assert(action_views(actions@) =~= live_applied(old(s)@, event@, now).1);
    actions
}

/// What the background tasks bring back.
pub enum Incoming<R> {
    Live(LiveEvent),
    /// The clock ticked, without a live feed to rely on.
    Tick,
    /// The direct messages asked for are open, with this id.
    DmOpened(String),
    Joined(String),
    Left(String),
    Channels { rows: Vec<ChannelRow>, people: Vec<(String, String)>, badges: Vec<(String, Badge)>, me: String },
    History { channel: String, messages: Vec<Post> },
    Replies { channel: String, ts: String, messages: Vec<Post> },
    Sent { channel: String, thread_ts: Option<String> },
    /// The inbox's items arrived; `at` is the wall clock then, in milliseconds since the Unix
    /// epoch.
    Inbox { items: Vec<Item>, at: u64 },
    /// The picture of the file `id` arrived ready to draw, or could not be had.
    Thumb { id: String, picture: Option<R> },
    /// The model could not answer; triage stays off for the rest of the session.
    TriageUnavailable(Unavailable),
    /// The update check answered: the newest commit, or nothing when it could not tell.
    Latest(Option<String>),
    Toast(String),
    Error(String),
}

/// What came back, as plain values.
pub enum IncomingView {
    Live(LiveEventView),
    Tick,
    DmOpened(Seq<char>),
    Joined(Seq<char>),
    Left(Seq<char>),
    Channels {
        rows: Seq<RowView>,
        people: Seq<(Seq<char>, Seq<char>)>,
        badges: Seq<(Seq<char>, Badge)>,
        me: Seq<char>,
    },
    History { channel: Seq<char>, messages: Seq<PostView> },
    Replies { channel: Seq<char>, ts: Seq<char>, messages: Seq<PostView> },
    Sent { channel: Seq<char>, thread_ts: Option<Seq<char>> },
    Inbox { items: Seq<ItemView>, at: u64 },
    Thumb { id: Seq<char>, ready: bool },
    TriageUnavailable(Seq<char>),
    Latest(Option<Seq<char>>),
    Toast(Seq<char>),
    Error(Seq<char>),
}

impl<R> View for Incoming<R> {
    type V = IncomingView;

    open spec fn view(&self) -> IncomingView {
        match self {
            Incoming::Live(e) => IncomingView::Live(e@),
            Incoming::Tick => IncomingView::Tick,
            Incoming::DmOpened(c) => IncomingView::DmOpened(c@),
            Incoming::Joined(c) => IncomingView::Joined(c@),
            Incoming::Left(c) => IncomingView::Left(c@),
            Incoming::Channels { rows, people, badges, me } => IncomingView::Channels {
                rows: row_views(rows@),
                people: people_of(people@),
                badges: badge_views(badges@),
                me: me@,
            },
            Incoming::History { channel, messages } => IncomingView::History {
                channel: channel@,
                messages: posts(messages@),
            },
            Incoming::Replies { channel, ts, messages } => IncomingView::Replies {
                channel: channel@,
                ts: ts@,
                messages: posts(messages@),
            },
            Incoming::Sent { channel, thread_ts } => IncomingView::Sent {
                channel: channel@,
                thread_ts: opt_view(*thread_ts),
            },
            Incoming::Inbox { items: i, at } => IncomingView::Inbox { items: items(i@), at: *at },
            Incoming::Thumb { id, picture } => IncomingView::Thumb { id: id@, ready: picture is Some },
            Incoming::TriageUnavailable(u) => IncomingView::TriageUnavailable(u.0@),
            Incoming::Latest(c) => IncomingView::Latest(opt_view(*c)),
            Incoming::Toast(t) => IncomingView::Toast(t@),
            Incoming::Error(e) => IncomingView::Error(e@),
        }
    }
}

/// The session once the conversation `id` opens: it is read, its list empties until its
/// history arrives, no thread and nobody typing show, and the messages take the focus; its
/// history is asked for.
pub open spec fn opened(s: SessionView, id: Seq<char>) -> (SessionView, Seq<ActionView>) {
    (
        SessionView {
            unread: without_id(s.unread, id),
            badges: without_badge(s.badges, id),
            current: Some(id),
            conversation: ConversationView {
                messages: Seq::empty(),
                selected: s.conversation.selected,
                thread: None,
                searching: s.conversation.searching,
            },
            typing: Seq::empty(),
            focus: Focus::Messages,
            loading: true,
            ..s
        },
        seq![ActionView::LoadHistory(id)],
    )
}

/// The inbox, when open, with `note` as its note.
pub open spec fn flashed(b: Option<InboxView>, note: Seq<char>) -> Option<InboxView> {
    match b {
        Some(b) => Some(InboxView { flash: note, ..b }),
        None => None,
    }
}

/// Whether what came back can be taken in at `now`.
pub open spec fn route_fits(s: SessionView, i: IncomingView, now: u64) -> bool {
    match i {
        IncomingView::Live(e) => live_fits(s, e, now),
        IncomingView::Left(_) | IncomingView::Sent { .. } | IncomingView::TriageUnavailable(_) | IncomingView::Toast(
            _,
        ) => now + TOAST_LIFE_MS <= u64::MAX,
        _ => true,
    }
}

/// The session and the actions once `i` came back at `now`. A live event is taken in; a tick
/// reloads the open conversation while there is no live feed, nothing loads and the input row
/// is closed; an opened or joined conversation opens (a join reloads the list too); leaving the
/// open conversation closes it; the list, the people, the badges and the signed-in user arrive
/// together; a history or a thread arrives for what is open, and the pictures follow what is
/// then on screen; a picture arrives ready, or failed; a sent message reloads its
/// conversation (and thread) when it is open, and otherwise says so in the open inbox; the
/// inbox's items go to the open inbox, and to the model for ranking when triage is on and some
/// are shown; the model's failure turns triage off with one
/// notice; an empty notice does nothing; a notice or an error ends the loading.
pub open spec fn routed(s: SessionView, i: IncomingView, now: u64) -> (SessionView, Seq<ActionView>) {
    match i {
        IncomingView::Live(e) => live_applied(s, e, now),
        IncomingView::Tick => (
            s,
            if s.live is Connected || s.loading || s.row_open {
                Seq::empty()
            } else {
                match s.current {
                    Some(c) => seq![ActionView::LoadHistory(c)],
                    None => Seq::empty(),
                }
            },
        ),
        IncomingView::DmOpened(c) => opened(s, c),
        IncomingView::Joined(c) => {
            let (after, actions) = opened(s, c);
            (after, seq![ActionView::LoadChannels] + actions)
        },
        IncomingView::Left(c) => {
            let closed = if is_open(s, c) {
                SessionView {
                    current: None,
                    conversation: ConversationView {
                        messages: Seq::empty(),
                        selected: s.conversation.selected,
                        thread: None,
                        searching: s.conversation.searching,
                    },
                    typing: Seq::empty(),
                    focus: Focus::Channels,
                    ..s
                }
            } else {
                s
            };
            (SessionView { toast: timed("left"@, now), ..closed }, seq![ActionView::LoadChannels])
        },
        IncomingView::Channels { rows, people, badges, me } => (
            SessionView {
                loading: false,
                channels: rows,
                people,
                me,
                badges,
                unread: unread_of(badges),
                ..s
            },
            Seq::empty(),
        ),
        IncomingView::History { channel, messages } => if is_open(s, channel) {
            with_pictures(
                SessionView {
                    loading: false,
                    conversation: ConversationView {
                        messages,
                        selected: reloaded_at(s.conversation.messages, s.conversation.selected, messages),
                        thread: s.conversation.thread,
                        searching: s.conversation.searching,
                    },
                    ..s
                },
            )
        } else {
            (SessionView { loading: false, ..s }, Seq::empty())
        },
        IncomingView::Replies { channel, ts, messages } => with_pictures(
            SessionView {
                loading: false,
                conversation: ConversationView {
                    messages: s.conversation.messages,
                    selected: s.conversation.selected,
                    thread: Some(
                        ThreadView {
                            channel,
                            root_ts: ts,
                            messages,
                            selected: if messages.len() == 0 {
                                0
                            } else {
                                (messages.len() - 1) as nat
                            },
                        },
                    ),
                    searching: s.conversation.searching,
                },
                ..s
            },
        ),
        IncomingView::Sent { channel, thread_ts } => {
            let noted = SessionView { toast: timed("sent ✓"@, now), ..s };
            if is_open(s, channel) {
                (
                    SessionView { loading: true, ..noted },
                    match thread_ts {
                        Some(t) => seq![
                            ActionView::LoadReplies { channel, ts: t },
                            ActionView::LoadHistory(channel),
                        ],
                        None => seq![ActionView::LoadHistory(channel)],
                    },
                )
            } else {
                (SessionView { loading: false, inbox: flashed(s.inbox, "sent ✓"@), ..noted }, Seq::empty())
            }
        },
        IncomingView::Inbox { items, at } => match s.inbox {
            Some(b) => {
                let b2 = loaded_at(b, items, at);
                (
                    SessionView { inbox: Some(b2), ..s },
                    if s.triage && b2.items.len() > 0 {
                        seq![ActionView::Prioritize(b2.items)]
                    } else {
                        Seq::empty()
                    },
                )
            },
            None => (s, Seq::empty()),
        },
        IncomingView::Thumb { id, ready } => (
            SessionView {
                thumbs: crate::images::settled(s.thumbs, id, if ready && s.can_draw {
                    ThumbState::Ready
                } else {
                    ThumbState::Failed
                }),
                ..s
            },
            Seq::empty(),
        ),
        IncomingView::TriageUnavailable(why) => (
            if s.triage {
                SessionView { triage: false, toast: timed("⚠ typesafe unavailable: "@ + why, now), ..s }
            } else {
                s
            },
            Seq::empty(),
        ),
        IncomingView::Latest(c) => (SessionView { latest: c, ..s }, Seq::empty()),
        IncomingView::Toast(t) => (
            if t.len() == 0 {
                s
            } else {
                SessionView { loading: false, toast: timed(t, now), ..s }
            },
            Seq::empty(),
        ),
        IncomingView::Error(e) => (
            SessionView { loading: false, toast: Some(("✗ "@ + e, Until::NextKey)), ..s },
            Seq::empty(),
        ),
    }
}

/// `ids` without `id`.
fn drop_id(ids: &mut Vec<String>, id: &str)
    ensures
        texts(final(ids)@) == without_id(texts(old(ids)@), id@),
{
    let ghost all = texts(ids@);
    let mut rest: Vec<String> = Vec::new();
    std::mem::swap(&mut rest, ids);
    let mut k: usize = 0;
    let n = rest.len();
    while rest.len() > 0
        invariant
            k + rest@.len() == n,
            n == all.len(),
            texts(rest@) == all.skip(k as int),
            texts(ids@) == without_id(all.take(k as int), id@),
        decreases rest.len(),
    {
        let ghost r0 = rest@;
        let e = rest.remove(0);
        proof {
            assert(rest@ == r0.remove(0));
            assert(e == r0[0]);
            assert(texts(rest@) =~= texts(r0).skip(1));
            assert(all.skip(k as int).skip(1) =~= all.skip(k + 1));
            assert(all.take(k + 1).drop_last() =~= all.take(k as int));
            assert(all.skip(k as int)[0] == all[k as int]);
            assert(all.take(k + 1).last() == all[k as int]);
            assert(texts(rest@) =~= all.skip(k + 1));
        }
        if !same_str(e.as_str(), id) {
            let ghost before = texts(ids@);
            ids.push(e);
            assert(texts(ids@) =~= before.push(all[k as int]));
        }
        k += 1;
    }
    assert(all.take(n as int) =~= all);
}

/// `badges` without the badge of `id`.
fn drop_badge(badges: &mut Vec<(String, Badge)>, id: &str)
    ensures
        badge_views(final(badges)@) == without_badge(badge_views(old(badges)@), id@),
{
    let ghost all = badge_views(badges@);
    let mut rest: Vec<(String, Badge)> = Vec::new();
    std::mem::swap(&mut rest, badges);
    let mut k: usize = 0;
    let n = rest.len();
    while rest.len() > 0
        invariant
            k + rest@.len() == n,
            n == all.len(),
            badge_views(rest@) == all.skip(k as int),
            badge_views(badges@) == without_badge(all.take(k as int), id@),
        decreases rest.len(),
    {
        let ghost r0 = rest@;
        let e = rest.remove(0);
        proof {
            assert(rest@ == r0.remove(0));
            assert(e == r0[0]);
            assert(badge_views(rest@) =~= badge_views(r0).skip(1));
            assert(all.skip(k as int).skip(1) =~= all.skip(k + 1));
            assert(all.take(k + 1).drop_last() =~= all.take(k as int));
            assert(all.skip(k as int)[0] == all[k as int]);
            assert(all.take(k + 1).last() == all[k as int]);
            assert(badge_views(rest@) =~= all.skip(k + 1));
        }
        if !same_str(e.0.as_str(), id) {
            let ghost before = badge_views(badges@);
            badges.push(e);
            assert(badge_views(badges@) =~= before.push(all[k as int]));
        }
        k += 1;
    }
    assert(all.take(n as int) =~= all);
}

/// The conversations whose badge says unread.
fn unread_ids(badges: &Vec<(String, Badge)>) -> (r: Vec<String>)
    ensures
        texts(r@) == unread_of(badge_views(badges@)),
{
    let ghost all = badge_views(badges@);
    let mut r: Vec<String> = Vec::new();
    let mut i: usize = 0;
    while i < badges.len()
        invariant
            i <= badges@.len(),
            all == badge_views(badges@),
            texts(r@) == unread_of(all.take(i as int)),
        decreases badges.len() - i,
    {
        proof {
            assert(all.take(i + 1).drop_last() =~= all.take(i as int));
            assert(all.take(i + 1).last() == all[i as int]);
        }
        if badges[i].1.unread {
            let ghost before = texts(r@);
            r.push(copy_string(&badges[i].0));
            assert(texts(r@) =~= before.push(all[i as int].0));
        }
        i += 1;
    }
    assert(all.take(badges@.len() as int) =~= all);
    r
}

/// Opens the conversation `id`.
fn open_conversation<R>(s: &mut Session<R>, id: String) -> (r: Vec<Action>)
    ensures
        final(s).thumbs == old(s).thumbs,
        (final(s)@, action_views(r@)) == opened(old(s)@, id@),
{
    drop_id(&mut s.unread, id.as_str());
    drop_badge(&mut s.badges, id.as_str());
    s.conversation.messages = Vec::new();
    s.conversation.thread = None;
    s.typing.clear();
    s.focus = Focus::Messages;
    s.loading = true;
    let mut r: Vec<Action> = Vec::new();
    r.push(Action::LoadHistory(copy_string(&id)));
    s.current = Some(id);
    assert(posts(s.conversation.messages@) =~= Seq::<PostView>::empty());
    assert(action_views(r@) =~= opened(old(s)@, id@).1);
    r
}

/// The session once the inbox item `item` is entered: the inbox closes, the item's
/// conversation opens, and its thread is asked for when it has one.
pub open spec fn entered(s: SessionView, item: ItemView) -> (SessionView, Seq<ActionView>) {
    let (after, actions) = opened(SessionView { inbox: None, ..s }, item.channel);
    (
        after,
        match thread_of(item) {
            Some(root) => actions.push(ActionView::LoadReplies { channel: item.channel, ts: root }),
            None => actions,
        },
    )
}

/// Enters the inbox item `item`, as `enter` in the inbox does.
pub fn enter_item<R>(s: &mut Session<R>, item: Item) -> (r: Vec<Action>)
    ensures
        (final(s)@, action_views(r@)) == entered(old(s)@, item@),
        final(s).thumbs == old(s).thumbs,
{
    s.inbox = None;
    let root = thread_to_open(&item);
    let mut r = open_conversation(s, copy_string(&item.channel));
    match root {
        Some(t) => {
            let ghost before = action_views(r@);
            let a = Action::LoadReplies { channel: item.channel, ts: t };
            r.push(a);
            assert(action_views(r@) =~= before.push(a@));
        },
        None => {},
    }
    r
}

/// Takes in what came back at `now` (milliseconds since start) and says what to do next.
#[verifier::rlimit(80)]
pub fn route<R>(s: &mut Session<R>, incoming: Incoming<R>, now: u64) -> (r: Vec<Action>)
    requires
        route_fits(old(s)@, incoming@, now),
        old(s).thumbs.wf(),
    ensures
        (final(s)@, action_views(r@)) == routed(old(s)@, incoming@, now),
        final(s).thumbs.wf(),
{
    let mut r: Vec<Action> = Vec::new();
    match incoming {
        Incoming::Live(e) => {
            return apply_live(s, e, now);
        },
        Incoming::Tick => {
            let connected = match s.live {
                Live::Connected => true,
                _ => false,
            };
            if !(connected || s.loading || s.row_open) {
                match &s.current {
                    Some(c) => r.push(Action::LoadHistory(copy_string(c))),
                    None => {},
                }
            }
        },
        Incoming::DmOpened(c) => {
            return open_conversation(s, c);
        },
        Incoming::Joined(c) => {
            r.push(Action::LoadChannels);
            let mut more = open_conversation(s, c);
            r.append(&mut more);
        },
        Incoming::Left(c) => {
            if open_here(&s.current, c.as_str()) {
                s.current = None;
                s.conversation.messages = Vec::new();
                s.conversation.thread = None;
                s.typing.clear();
                s.focus = Focus::Channels;
                assert(posts(s.conversation.messages@) =~= Seq::<PostView>::empty());
            }
            s.toast = Some(Toast::timed("left".to_owned(), now));
            r.push(Action::LoadChannels);
        },
        Incoming::Channels { rows, people, badges, me } => {
            s.loading = false;
            s.unread = unread_ids(&badges);
            s.channels = rows;
            s.people = people;
            s.me = me;
            s.badges = badges;
        },
        Incoming::History { channel, messages } => {
            s.loading = false;
            if open_here(&s.current, channel.as_str()) {
                s.conversation.reload(messages);
                r = refresh_pictures(s);
            }
        },
        Incoming::Replies { channel, ts, messages } => {
            s.loading = false;
            s.conversation.open_thread(channel, ts, messages);
            r = refresh_pictures(s);
        },
        Incoming::Thumb { id, picture } => {
            s.thumbs.arrived(id.as_str(), picture);
        },
        Incoming::Sent { channel, thread_ts } => {
            s.toast = Some(Toast::timed("sent ✓".to_owned(), now));
            if open_here(&s.current, channel.as_str()) {
                s.loading = true;
                match thread_ts {
                    Some(t) => {
                        r.push(Action::LoadReplies { channel: copy_string(&channel), ts: t });
                        r.push(Action::LoadHistory(channel));
                    },
                    None => r.push(Action::LoadHistory(channel)),
                }
            } else {
                s.loading = false;
                let mut open: Option<Inbox> = None;
                std::mem::swap(&mut open, &mut s.inbox);
                match open {
                    Some(mut b) => {
                        b.flash = "sent ✓".to_owned();
                        s.inbox = Some(b);
                    },
                    None => {},
                }
            }
        },
        Incoming::Inbox { items: fresh, at } => {
            let mut open: Option<Inbox> = None;
            std::mem::swap(&mut open, &mut s.inbox);
            match open {
                Some(mut b) => {
                    b.set_items(fresh, at);
                    if s.triage && b.items.len() > 0 {
                        r.push(Action::Prioritize(copy_items(&b.items)));
                    }
                    s.inbox = Some(b);
                },
                None => {},
            }
        },
        Incoming::TriageUnavailable(why) => {
            if s.triage {
                s.triage = false;
                s.toast = Some(Toast::timed(why.notice(), now));
            }
        },
        Incoming::Latest(c) => {
            s.latest = c;
        },
        Incoming::Toast(t) => {
            if !t.as_str().is_empty() {
                s.loading = false;
                s.toast = Some(Toast::timed(t, now));
            }
        },
        Incoming::Error(e) => {
            s.loading = false;
            s.toast = Some(Toast::failure(e.as_str()));
        },
    }
    assert(action_views(r@) =~= routed(old(s)@, incoming@, now).1);
    r
}

/// The conversation a live event is about, if it is about one.
pub open spec fn event_channel(e: LiveEventView) -> Option<Seq<char>> {
    match e {
        LiveEventView::Message { channel, .. } => Some(channel),
        LiveEventView::Changed { channel, .. } => Some(channel),
        LiveEventView::Deleted { channel, .. } => Some(channel),
        LiveEventView::Typing { channel, .. } => Some(channel),
        LiveEventView::Reaction { channel, .. } => Some(channel),
        _ => None,
    }
}

/// An event about another conversation never changes the open one, nor who shows typing in
/// it; a message there only lights its badge up and marks it unread.
pub proof fn law_other_conversations_leave_the_open_one(s: SessionView, e: LiveEventView, now: u64)
    requires
        event_channel(e) matches Some(c) && !is_open(s, c),
    ensures
        live_applied(s, e, now).0.conversation == s.conversation,
        live_applied(s, e, now).0.typing == s.typing,
        live_applied(s, e, now).0.current == s.current,
        e is Message ==> live_applied(s, e, now).0.unread.contains(event_channel(e).unwrap()),
{
    if e is Message {
        let c = event_channel(e).unwrap();
        if !s.unread.contains(c) {
            assert(s.unread.push(c)[s.unread.len() as int] == c);
        }
    }
}

} // verus!
