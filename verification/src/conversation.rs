//! The open conversation as live events change it: a new message lands at the bottom, and the
//! cursor follows it when it was on the last one; a reply counts on its root and lands in the
//! open thread; an edit rewrites a message, a deletion removes it, a reaction adjusts it.
use crate::images::{file_view, FileRef};
use crate::live::{adjust_reaction, adjusted, countable, views, Reaction, ReactionView};
use crate::text::{copy_string, opt_view, same_str};
use vstd::prelude::*;

verus! {

/// A message as the conversation keeps it.
#[derive(Debug, PartialEq, Eq)]
pub struct Post {
    pub ts: String,
    /// The root of its thread; a root names itself.
    pub thread_ts: Option<String>,
    pub text: String,
    /// Whether it carries the mark of an edit.
    pub edited: bool,
    pub reply_count: u64,
    pub latest_reply: Option<String>,
    pub reactions: Vec<Reaction>,
    /// The files it carries.
    pub files: Vec<FileRef>,
}

/// A message as plain values.
pub struct PostView {
    pub ts: Seq<char>,
    pub thread_ts: Option<Seq<char>>,
    pub text: Seq<char>,
    pub edited: bool,
    pub reply_count: nat,
    pub latest_reply: Option<Seq<char>>,
    pub reactions: Seq<ReactionView>,
    pub files: Seq<(Seq<char>, Option<Seq<char>>)>,
}

impl View for Post {
    type V = PostView;

    open spec fn view(&self) -> PostView {
        PostView {
            ts: self.ts@,
            thread_ts: opt_view(self.thread_ts),
            text: self.text@,
            edited: self.edited,
            reply_count: self.reply_count as nat,
            latest_reply: opt_view(self.latest_reply),
            reactions: views(self.reactions@),
            files: self.files@.map_values(|f: FileRef| file_view(f)),
        }
    }
}

/// The views of `s`.
pub open spec fn posts(s: Seq<Post>) -> Seq<PostView> {
    s.map_values(|p: Post| p@)
}

/// An open thread: where it is, its root, its messages and the one selected.
pub struct Thread {
    pub channel: String,
    pub root_ts: String,
    pub messages: Vec<Post>,
    pub selected: usize,
}

/// A thread as plain values.
pub struct ThreadView {
    pub channel: Seq<char>,
    pub root_ts: Seq<char>,
    pub messages: Seq<PostView>,
    pub selected: nat,
}

impl View for Thread {
    type V = ThreadView;

    open spec fn view(&self) -> ThreadView {
        ThreadView {
            channel: self.channel@,
            root_ts: self.root_ts@,
            messages: posts(self.messages@),
            selected: self.selected as nat,
        }
    }
}

/// The conversation on screen: its messages and the one selected, the thread open beside it,
/// and whether the list shows search results (then new messages do not move the cursor).
pub struct Conversation {
    pub messages: Vec<Post>,
    pub selected: usize,
    pub thread: Option<Thread>,
    pub searching: bool,
}

/// A conversation as plain values.
pub struct ConversationView {
    pub messages: Seq<PostView>,
    pub selected: nat,
    pub thread: Option<ThreadView>,
    pub searching: bool,
}

impl View for Conversation {
    type V = ConversationView;

    open spec fn view(&self) -> ConversationView {
        ConversationView {
            messages: posts(self.messages@),
            selected: self.selected as nat,
            thread: match self.thread {
                Some(t) => Some(t@),
                None => None,
            },
            searching: self.searching,
        }
    }
}

/// The root of the thread `m` replies in, if it is a reply: a message naming another message
/// as its root.
pub open spec fn root_of(m: PostView) -> Option<Seq<char>> {
    match m.thread_ts {
        Some(r) => if r != m.ts {
            Some(r)
        } else {
            None
        },
        None => None,
    }
}

/// Whether some message of `s` is `ts`.
pub open spec fn has_ts(s: Seq<PostView>, ts: Seq<char>) -> bool {
    exists|i: int| 0 <= i < s.len() && #[trigger] s[i].ts == ts
}

/// The first message of `s` from position `i` on that is `ts`.
pub open spec fn first_ts(s: Seq<PostView>, ts: Seq<char>, i: nat) -> Option<nat>
    decreases s.len() - i,
{
    if i >= s.len() {
        None
    } else if s[i as int].ts == ts {
        Some(i)
    } else {
        first_ts(s, ts, i + 1)
    }
}

/// Where the cursor stands once a message lands after the `len` there were: on it when it was
/// on the last one (or there were none), else where it was.
pub open spec fn landed(selected: nat, len: nat) -> nat {
    if selected + 1 >= len {
        len
    } else {
        selected
    }
}

/// The root `p` once the reply `reply` arrived: one more reply, and `reply` the latest.
pub open spec fn counted(p: PostView, reply: Seq<char>) -> PostView {
    PostView {
        ts: p.ts,
        thread_ts: p.thread_ts,
        text: p.text,
        edited: p.edited,
        reply_count: p.reply_count + 1,
        latest_reply: Some(reply),
        reactions: p.reactions,
        files: p.files,
    }
}

/// The conversation once the message `m` arrived in it. A reply counts on the first message
/// that is its root and lands at the end of the open thread when that is its thread and it is
/// not there yet; any other message lands at the end of the list unless it is there already.
pub open spec fn arrived(c: ConversationView, m: PostView) -> ConversationView {
    match root_of(m) {
        Some(root) => ConversationView {
            messages: match first_ts(c.messages, root, 0) {
                Some(i) => c.messages.update(i as int, counted(c.messages[i as int], m.ts)),
                None => c.messages,
            },
            selected: c.selected,
            thread: match c.thread {
                Some(t) => if t.root_ts == root && !has_ts(t.messages, m.ts) {
                    Some(
                        ThreadView {
                            channel: t.channel,
                            root_ts: t.root_ts,
                            messages: t.messages.push(m),
                            selected: landed(t.selected, t.messages.len()),
                        },
                    )
                } else {
                    Some(t)
                },
                None => None,
            },
            searching: c.searching,
        },
        None => if has_ts(c.messages, m.ts) {
            c
        } else {
            ConversationView {
                messages: c.messages.push(m),
                selected: if c.searching {
                    c.selected
                } else {
                    landed(c.selected, c.messages.len())
                },
                thread: c.thread,
                searching: c.searching,
            }
        },
    }
}

/// The root of the thread the message `p` starts or belongs to.
pub open spec fn root_ts(p: PostView) -> Seq<char> {
    match p.thread_ts {
        Some(t) => t,
        None => p.ts,
    }
}

/// Where a reply goes from `c` with `current` open: to the conversation, and for a reply in
/// a thread to the open thread's root when the thread pane has focus, else to the thread of
/// the selected message; nowhere without a conversation, or without a root to reply under.
pub open spec fn reply_goes(
    c: ConversationView,
    current: Option<Seq<char>>,
    in_thread: bool,
    focus: crate::state::Focus,
) -> Option<(Seq<char>, Option<Seq<char>>)> {
    match current {
        None => None,
        Some(channel) => if !in_thread {
            Some((channel, None))
        } else {
            let root = match focus {
                crate::state::Focus::Thread => match c.thread {
                    Some(t) => Some(t.root_ts),
                    None => None,
                },
                _ => if c.selected < c.messages.len() {
                    Some(root_ts(c.messages[c.selected as int]))
                } else {
                    None
                },
            };
            match root {
                Some(r) => Some((channel, Some(r))),
                None => None,
            }
        },
    }
}

/// Whether the arrival of `m` can be counted: its root's reply count has room for one more.
pub open spec fn arrival_fits(c: ConversationView, m: PostView) -> bool {
    match root_of(m) {
        Some(root) => match first_ts(c.messages, root, 0) {
            Some(i) => c.messages[i as int].reply_count < u64::MAX,
            None => true,
        },
        None => true,
    }
}

/// `s` with every message that is `ts` rewritten to `text`, edited or not.
pub open spec fn rewritten(s: Seq<PostView>, ts: Seq<char>, text: Seq<char>, edited: bool) -> Seq<
    PostView,
> {
    s.map_values(
        |p: PostView|
            if p.ts == ts {
                PostView {
                    ts: p.ts,
                    thread_ts: p.thread_ts,
                    text,
                    edited,
                    reply_count: p.reply_count,
                    latest_reply: p.latest_reply,
                    reactions: p.reactions,
                    files: p.files,
                }
            } else {
                p
            },
    )
}

/// `s` without the messages that are `ts`.
pub open spec fn kept(s: Seq<PostView>, ts: Seq<char>) -> Seq<PostView>
    decreases s.len(),
{
    if s.len() == 0 {
        s
    } else if s.last().ts == ts {
        kept(s.drop_last(), ts)
    } else {
        kept(s.drop_last(), ts).push(s.last())
    }
}

/// The cursor brought back inside `len` lines.
pub open spec fn clamped(selected: nat, len: nat) -> nat {
    if len == 0 {
        0
    } else if selected >= len {
        (len - 1) as nat
    } else {
        selected
    }
}

/// The conversation once the message `ts` reads `text` (edited or not), in the list and in
/// the open thread.
pub open spec fn changed(c: ConversationView, ts: Seq<char>, text: Seq<char>, edited: bool) -> ConversationView {
    ConversationView {
        messages: rewritten(c.messages, ts, text, edited),
        selected: c.selected,
        thread: match c.thread {
            Some(t) => Some(
                ThreadView {
                    channel: t.channel,
                    root_ts: t.root_ts,
                    messages: rewritten(t.messages, ts, text, edited),
                    selected: t.selected,
                },
            ),
            None => None,
        },
        searching: c.searching,
    }
}

/// The conversation once `user` added (`added`) or took back `name` on the message `ts`, in
/// the list and in the open thread.
pub open spec fn reacted_in(
    c: ConversationView,
    ts: Seq<char>,
    name: Seq<char>,
    user: Seq<char>,
    added: bool,
) -> ConversationView {
    ConversationView {
        messages: reacted(c.messages, ts, name, user, added),
        selected: c.selected,
        thread: match c.thread {
            Some(t) => Some(
                ThreadView {
                    channel: t.channel,
                    root_ts: t.root_ts,
                    messages: reacted(t.messages, ts, name, user, added),
                    selected: t.selected,
                },
            ),
            None => None,
        },
        searching: c.searching,
    }
}

/// Whether every message that is `ts`, in the list and in the open thread, can count the
/// reaction event.
pub open spec fn reaction_fits(c: ConversationView, ts: Seq<char>, name: Seq<char>, user: Seq<char>, added: bool) -> bool {
    &&& reactions_fit(c.messages, ts, name, user, added)
    &&& (c.thread matches Some(t) ==> reactions_fit(t.messages, ts, name, user, added))
}

/// The conversation once the message `ts` is deleted: gone from the list and from the open
/// thread, each cursor brought back inside its list.
pub open spec fn deleted(c: ConversationView, ts: Seq<char>) -> ConversationView {
    ConversationView {
        messages: kept(c.messages, ts),
        selected: clamped(c.selected, kept(c.messages, ts).len()),
        thread: match c.thread {
            Some(t) => Some(
                ThreadView {
                    channel: t.channel,
                    root_ts: t.root_ts,
                    messages: kept(t.messages, ts),
                    selected: clamped(t.selected, kept(t.messages, ts).len()),
                },
            ),
            None => None,
        },
        searching: c.searching,
    }
}

/// `s` with the reactions of every message that is `ts` adjusted by `user` adding (`added`)
/// or taking back `name`.
pub open spec fn reacted(s: Seq<PostView>, ts: Seq<char>, name: Seq<char>, user: Seq<char>, added: bool) -> Seq<
    PostView,
> {
    s.map_values(
        |p: PostView|
            if p.ts == ts {
                PostView {
                    ts: p.ts,
                    thread_ts: p.thread_ts,
                    text: p.text,
                    edited: p.edited,
                    reply_count: p.reply_count,
                    latest_reply: p.latest_reply,
                    reactions: adjusted(p.reactions, name, user, added),
                    files: p.files,
                }
            } else {
                p
            },
    )
}

/// Where the cursor lands when the list `old` is replaced by `new`: on the message it was on,
/// unless it was on the last one (or on none), when it goes to the new last one.
pub open spec fn reloaded_at(old: Seq<PostView>, selected: nat, new: Seq<PostView>) -> nat {
    let at_bottom = selected + 1 >= old.len();
    let kept = if !at_bottom && selected < old.len() {
        first_ts(new, old[selected as int].ts, 0)
    } else {
        None
    };
    match kept {
        Some(k) => k,
        None => if new.len() == 0 {
            0
        } else {
            (new.len() - 1) as nat
        },
    }
}

/// Whether every message of `s` that is `ts` can count the reaction event.
pub open spec fn reactions_fit(s: Seq<PostView>, ts: Seq<char>, name: Seq<char>, user: Seq<char>, added: bool) -> bool {
    forall|i: int| 0 <= i < s.len() && #[trigger] s[i].ts == ts ==> countable(s[i].reactions, name, user, added)
}

/// Whether some message of `s` is `ts`.
fn holds_ts(s: &Vec<Post>, ts: &str) -> (b: bool)
    ensures
        b == has_ts(posts(s@), ts@),
{
    let mut i: usize = 0;
    while i < s.len()
        invariant
            i <= s@.len(),
            forall|j: int| 0 <= j < i ==> posts(s@)[j].ts != ts@,
        decreases s.len() - i,
    {
        if same_str(s[i].ts.as_str(), ts) {
            assert(posts(s@)[i as int].ts == ts@);
            return true;
        }
        i += 1;
    }
    false
}

/// Where the first message of `s` that is `ts` stands, or the length of `s` when none is.
fn find_ts(s: &Vec<Post>, ts: &str) -> (i: usize)
    ensures
        i <= s@.len(),
        first_ts(posts(s@), ts@, 0) == if i < s@.len() {
            Some(i as nat)
        } else {
            None::<nat>
        },
{
    let ghost ps = posts(s@);
    let mut i: usize = 0;
    while i < s.len() && !same_str(s[i].ts.as_str(), ts)
        invariant
            i <= s@.len(),
            ps == posts(s@),
            first_ts(ps, ts@, 0) == first_ts(ps, ts@, i as nat),
        decreases s.len() - i,
    {
        i += 1;
    }
    i
}

/// Puts `m` at the end of `list`, the cursor `selected` following it when it was on the last
/// message; `follows` says whether the cursor may move at all.
fn land(list: &mut Vec<Post>, selected: &mut usize, m: Post, follows: bool)
    ensures
        posts(final(list)@) == posts(old(list)@).push(m@),
        *final(selected) == if follows {
            landed(*old(selected) as nat, old(list)@.len())
        } else {
            *old(selected) as nat
        },
{
    let n = list.len();
    let at_bottom = n == 0 || *selected >= n - 1;
    list.push(m);
    assert(posts(list@) =~= posts(old(list)@).push(m@));
    if at_bottom && follows {
        *selected = n;
    }
}

impl Conversation {
    /// Takes in the message `m`, which arrived live in this conversation.
    pub fn arrive(&mut self, m: Post)
        requires
            arrival_fits(old(self)@, m@),
        ensures
            final(self)@ == arrived(old(self)@, m@),
    {
        let root: Option<String> = match &m.thread_ts {
            Some(t) => if !same_str(t.as_str(), m.ts.as_str()) {
                Some(copy_string(t))
            } else {
                None
            },
            None => None,
        };
        assert(opt_view(root) == root_of(m@));
        match root {
            Some(root) => {
                let i = find_ts(&self.messages, root.as_str());
                if i < self.messages.len() {
                    let mut p = self.messages.remove(i);
                    assert(p@ == old(self)@.messages[i as int]);
                    p.reply_count = p.reply_count + 1;
                    p.latest_reply = Some(copy_string(&m.ts));
                    self.messages.insert(i, p);
                    assert(posts(self.messages@) =~= posts(old(self).messages@).update(
                        i as int,
                        counted(old(self)@.messages[i as int], m@.ts),
                    ));
                }
                match self.thread.take() {
                    Some(mut t) => {
                        if same_str(t.root_ts.as_str(), root.as_str()) && !holds_ts(
                            &t.messages,
                            m.ts.as_str(),
                        ) {
                            land(&mut t.messages, &mut t.selected, m, true);
                        }
                        self.thread = Some(t);
                    },
                    None => {},
                }
            },
            None => {
                if !holds_ts(&self.messages, m.ts.as_str()) {
                    let follows = !self.searching;
                    land(&mut self.messages, &mut self.selected, m, follows);
                }
            },
        }
    }

    /// The history of the conversation arrived: it replaces the list, and the cursor stays on
    /// the message it was on unless it was at the bottom.
    pub fn reload(&mut self, messages: Vec<Post>)
        ensures
            final(self)@ == (ConversationView {
                messages: posts(messages@),
                selected: reloaded_at(old(self)@.messages, old(self)@.selected, posts(messages@)),
                thread: old(self)@.thread,
                searching: old(self)@.searching,
            }),
    {
        let n = self.messages.len();
        let at_bottom = n == 0 || self.selected >= n - 1;
        let kept: Option<usize> = if !at_bottom && self.selected < n {
            let i = find_ts(&messages, self.messages[self.selected].ts.as_str());
            if i < messages.len() {
                Some(i)
            } else {
                None
            }
        } else {
            None
        };
        self.selected = match kept {
            Some(k) => k,
            None => if messages.len() == 0 {
                0
            } else {
                messages.len() - 1
            },
        };
        self.messages = messages;
    }

    /// The replies of the thread `root_ts` of `channel` arrived: the thread opens on them, the
    /// cursor on the last one.
    pub fn open_thread(&mut self, channel: String, root_ts: String, messages: Vec<Post>)
        ensures
            final(self)@ == (ConversationView {
                messages: old(self)@.messages,
                selected: old(self)@.selected,
                thread: Some(
                    ThreadView {
                        channel: channel@,
                        root_ts: root_ts@,
                        messages: posts(messages@),
                        selected: if messages@.len() == 0 {
                            0
                        } else {
                            (messages@.len() - 1) as nat
                        },
                    },
                ),
                searching: old(self)@.searching,
            }),
    {
        let selected = if messages.len() == 0 {
            0
        } else {
            messages.len() - 1
        };
        self.thread = Some(Thread { channel, root_ts, messages, selected });
    }

    /// Where a reply goes, with `current` the conversation open (see `reply_goes`).
    pub fn reply_target(&self, current: Option<&str>, in_thread: bool, focus: crate::state::Focus) -> (r: Option<
        (String, Option<String>),
    >)
        ensures
            match r {
                Some((c, t)) => reply_goes(
                    self@,
                    match current {
                        Some(s) => Some(s@),
                        None => None,
                    },
                    in_thread,
                    focus,
                ) == Some((c@, opt_view(t))),
                None => reply_goes(
                    self@,
                    match current {
                        Some(s) => Some(s@),
                        None => None,
                    },
                    in_thread,
                    focus,
                ) is None,
            },
    {
        let channel = match current {
            Some(c) => c.to_owned(),
            None => return None,
        };
        if !in_thread {
            return Some((channel, None));
        }
        let root: Option<String> = match focus {
            crate::state::Focus::Thread => match &self.thread {
                Some(t) => Some(copy_string(&t.root_ts)),
                None => None,
            },
            _ => if self.selected < self.messages.len() {
                let m = &self.messages[self.selected];
                match &m.thread_ts {
                    Some(t) => Some(copy_string(t)),
                    None => Some(copy_string(&m.ts)),
                }
            } else {
                None
            },
        };
        match root {
            Some(r) => Some((channel, Some(r))),
            None => None,
        }
    }

    /// The message `ts`, wherever it shows, now reads `text` (edited or not).
    pub fn change(&mut self, ts: &str, text: &str, edited: bool)
        ensures
            final(self)@ == changed(old(self)@, ts@, text@, edited),
    {
        rewrite(&mut self.messages, ts, text, edited);
        match self.thread.take() {
            Some(mut t) => {
                rewrite(&mut t.messages, ts, text, edited);
                self.thread = Some(t);
            },
            None => {},
        }
    }

    /// The message `ts` is gone, from the list and from the open thread; each cursor stays
    /// inside its list.
    pub fn delete(&mut self, ts: &str)
        ensures
            final(self)@ == deleted(old(self)@, ts@),
    {
        drop_ts(&mut self.messages, ts);
        self.selected = clamp_to(self.selected, self.messages.len());
        match self.thread.take() {
            Some(mut t) => {
                drop_ts(&mut t.messages, ts);
                t.selected = clamp_to(t.selected, t.messages.len());
                self.thread = Some(t);
            },
            None => {},
        }
    }

    /// `user` added (`added`) or took back the reaction `name` on the message `ts`, wherever
    /// it shows.
    pub fn react(&mut self, ts: &str, name: &str, user: &str, added: bool)
        requires
            reactions_fit(old(self)@.messages, ts@, name@, user@, added),
            old(self)@.thread matches Some(t) ==> reactions_fit(t.messages, ts@, name@, user@, added),
        ensures
            final(self)@ == reacted_in(old(self)@, ts@, name@, user@, added),
    {
        react_all(&mut self.messages, ts, name, user, added);
        match self.thread.take() {
            Some(mut t) => {
                react_all(&mut t.messages, ts, name, user, added);
                self.thread = Some(t);
            },
            None => {},
        }
    }
}

/// `selected` brought back inside `len` lines.
fn clamp_to(selected: usize, len: usize) -> (r: usize)
    ensures
        r == clamped(selected as nat, len as nat),
{
    if len == 0 {
        0
    } else if selected >= len {
        len - 1
    } else {
        selected
    }
}

/// Rewrites every message of `list` that is `ts`.
fn rewrite(list: &mut Vec<Post>, ts: &str, text: &str, edited: bool)
    ensures
        posts(final(list)@) == rewritten(posts(old(list)@), ts@, text@, edited),
{
    let ghost before = posts(list@);
    let mut i: usize = 0;
    while i < list.len()
        invariant
            i <= list@.len(),
            list@.len() == before.len(),
            forall|j: int| 0 <= j < i ==> posts(list@)[j] == rewritten(before, ts@, text@, edited)[j],
            forall|j: int| i <= j < list@.len() ==> posts(list@)[j] == before[j],
        decreases list.len() - i,
    {
        let ghost l0 = list@;
        if same_str(list[i].ts.as_str(), ts) {
            let mut p = list.remove(i);
            p.text = text.to_owned();
            p.edited = edited;
            list.insert(i, p);
        }
        proof {
            assert(posts(list@)[i as int] == rewritten(before, ts@, text@, edited)[i as int]);
            assert forall|k: int| 0 <= k < i implies posts(list@)[k] == rewritten(
                before,
                ts@,
                text@,
                edited,
            )[k] by {
                assert(list@[k] == l0[k]);
                assert(posts(l0)[k] == l0[k]@);
            }
            assert forall|k: int| i < k < list@.len() implies posts(list@)[k] == before[k] by {
                assert(list@[k] == l0[k]);
                assert(posts(l0)[k] == l0[k]@);
            }
        }
        i += 1;
    }
    assert(posts(list@) =~= rewritten(before, ts@, text@, edited));
}

/// Removes every message of `list` that is `ts`.
fn drop_ts(list: &mut Vec<Post>, ts: &str)
    ensures
        posts(final(list)@) == kept(posts(old(list)@), ts@),
{
    let ghost before = posts(list@);
    let mut i: usize = 0;
    let mut j: usize = 0;
    let n = list.len();
    while j < n
        invariant
            n == before.len(),
            j <= before.len(),
            i <= j,
            i <= list@.len(),
            list@.len() == i + (before.len() - j),
            posts(list@).take(i as int) == kept(before.take(j as int), ts@),
            posts(list@).skip(i as int) == before.skip(j as int),
        decreases n - j,
    {
        assert(i < list@.len());
        proof {
            assert(posts(list@)[i as int] == posts(list@).skip(i as int)[0]);
            assert(before.take(j + 1).drop_last() == before.take(j as int));
            assert(before.take(j + 1).last() == before[j as int]);
        }
        if same_str(list[i].ts.as_str(), ts) {
            let ghost l0 = posts(list@);
            list.remove(i);
            proof {
                assert(posts(list@).take(i as int) =~= l0.take(i as int));
                assert(posts(list@).skip(i as int) =~= l0.skip(i + 1));
                assert(before.skip(j + 1) =~= before.skip(j as int).skip(1));
            }
        } else {
            let ghost l0 = posts(list@);
            proof {
                assert(l0.take(i + 1) =~= l0.take(i as int).push(l0[i as int]));
                assert(l0.skip(i + 1) =~= l0.skip(i as int).skip(1));
                assert(before.skip(j + 1) =~= before.skip(j as int).skip(1));
            }
            i += 1;
        }
        j += 1;
    }
    assert(before.take(before.len() as int) == before);
    assert(posts(list@).skip(i as int).len() == 0);
    assert(posts(list@) =~= posts(list@).take(i as int));
}

/// Adjusts the reactions of every message of `list` that is `ts`.
fn react_all(list: &mut Vec<Post>, ts: &str, name: &str, user: &str, added: bool)
    requires
        reactions_fit(posts(old(list)@), ts@, name@, user@, added),
    ensures
        posts(final(list)@) == reacted(posts(old(list)@), ts@, name@, user@, added),
{
    let ghost before = posts(list@);
    let mut i: usize = 0;
    while i < list.len()
        invariant
            i <= list@.len(),
            list@.len() == before.len(),
            reactions_fit(before, ts@, name@, user@, added),
            forall|j: int| 0 <= j < i ==> posts(list@)[j] == reacted(before, ts@, name@, user@, added)[j],
            forall|j: int| i <= j < list@.len() ==> posts(list@)[j] == before[j],
        decreases list.len() - i,
    {
        let ghost l0 = list@;
        if same_str(list[i].ts.as_str(), ts) {
            let mut p = list.remove(i);
            assert(p@ == before[i as int]);
            adjust_reaction(&mut p.reactions, name, user, added);
            list.insert(i, p);
        }
        proof {
            assert(posts(list@)[i as int] == reacted(before, ts@, name@, user@, added)[i as int]);
            assert forall|k: int| 0 <= k < i implies posts(list@)[k] == reacted(
                before,
                ts@,
                name@,
                user@,
                added,
            )[k] by {
                assert(list@[k] == l0[k]);
                assert(posts(l0)[k] == l0[k]@);
            }
            assert forall|k: int| i < k < list@.len() implies posts(list@)[k] == before[k] by {
                assert(list@[k] == l0[k]);
                assert(posts(l0)[k] == l0[k]@);
            }
        }
        i += 1;
    }
    assert(posts(list@) =~= reacted(before, ts@, name@, user@, added));
}

/// No message of `kept(s, ts)` is `ts`, and it is no longer than `s`.
proof fn lemma_kept(s: Seq<PostView>, ts: Seq<char>)
    ensures
        !has_ts(kept(s, ts), ts),
        kept(s, ts).len() <= s.len(),
    decreases s.len(),
{
    if s.len() > 0 {
        lemma_kept(s.drop_last(), ts);
        let k = kept(s.drop_last(), ts);
        if s.last().ts != ts {
            assert forall|i: int| 0 <= i < k.push(s.last()).len() implies #[trigger] k.push(s.last())[i].ts
                != ts by {
                if i < k.len() {
                    assert(k.push(s.last())[i] == k[i]);
                }
            }
        }
    }
}

/// What `first_ts` finds is inside `s` and is `ts`.
proof fn lemma_first_ts(s: Seq<PostView>, ts: Seq<char>, i: nat)
    ensures
        first_ts(s, ts, i) matches Some(k) ==> i <= k < s.len() && s[k as int].ts == ts,
    decreases s.len() - i,
{
    if i < s.len() && s[i as int].ts != ts {
        lemma_first_ts(s, ts, i + 1);
    }
}

/// A message (not a reply) seen twice lands once: the second arrival changes nothing.
pub proof fn law_a_message_seen_twice_lands_once(c: ConversationView, m: PostView)
    requires
        root_of(m) is None,
    ensures
        arrived(arrived(c, m), m) == arrived(c, m),
{
    if !has_ts(c.messages, m.ts) {
        let pushed = c.messages.push(m);
        assert(pushed[c.messages.len() as int].ts == m.ts);
    }
}

/// A reply seen twice lands once in its open thread; only its root's count sees it again.
pub proof fn law_a_reply_lands_once_in_its_thread(c: ConversationView, m: PostView)
    requires
        root_of(m) is Some,
    ensures
        arrived(arrived(c, m), m).thread == arrived(c, m).thread,
        arrived(arrived(c, m), m).selected == c.selected,
        arrived(arrived(c, m), m).messages.len() == c.messages.len(),
{
    let root = root_of(m).unwrap();
    lemma_first_ts(c.messages, root, 0);
    lemma_first_ts(arrived(c, m).messages, root, 0);
    match c.thread {
        Some(t) => {
            if t.root_ts == root && !has_ts(t.messages, m.ts) {
                let pushed = t.messages.push(m);
                assert(pushed[t.messages.len() as int].ts == m.ts);
            }
        },
        None => {},
    }
}

/// After a deletion no message left is the deleted one, and each cursor stands inside its
/// list (or at the top of an empty one).
pub proof fn law_deletion_keeps_the_cursors_inside(c: ConversationView, ts: Seq<char>)
    ensures
        !has_ts(deleted(c, ts).messages, ts),
        deleted(c, ts).messages.len() <= c.messages.len(),
        deleted(c, ts).selected < deleted(c, ts).messages.len() || deleted(c, ts).selected == 0,
        deleted(c, ts).thread matches Some(t) ==> !has_ts(t.messages, ts) && (t.selected
            < t.messages.len() || t.selected == 0),
{
    lemma_kept(c.messages, ts);
    match c.thread {
        Some(t) => lemma_kept(t.messages, ts),
        None => {},
    }
}

/// `first_ts` finds `ts` when some message from `i` on is `ts`.
proof fn lemma_first_ts_finds(s: Seq<PostView>, ts: Seq<char>, i: nat, j: int)
    requires
        i <= j < s.len(),
        s[j].ts == ts,
    ensures
        first_ts(s, ts, i) is Some,
    decreases s.len() - i,
{
    if s[i as int].ts != ts {
        lemma_first_ts_finds(s, ts, i + 1, j);
    }
}

/// A fresh history keeps the cursor on the message it was on when that message is still
/// there and the cursor was not at the bottom; at the bottom it follows the new last message.
pub proof fn law_a_refresh_keeps_the_selected_message(old: Seq<PostView>, selected: nat, new: Seq<PostView>)
    ensures
        selected + 1 < old.len() && has_ts(new, old[selected as int].ts) ==> {
            let at = reloaded_at(old, selected, new);
            at < new.len() && new[at as int].ts == old[selected as int].ts
        },
        selected + 1 >= old.len() && new.len() > 0 ==> reloaded_at(old, selected, new) == new.len() - 1,
{
    if selected + 1 < old.len() && has_ts(new, old[selected as int].ts) {
        let j = choose|j: int| 0 <= j < new.len() && #[trigger] new[j].ts == old[selected as int].ts;
        lemma_first_ts_finds(new, old[selected as int].ts, 0, j);
        lemma_first_ts(new, old[selected as int].ts, 0);
    }
}

} // verus!
