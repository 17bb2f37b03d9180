//! The inbox overlay: what waits for the user, one item selected. Reading or snoozing the
//! selected item takes it off the list and leaves the cursor on a neighbour; a snooze first
//! asks for how long. What was read or snoozed is remembered, so a fresh list leaves it out.
use crate::steps::{move_selection, moved};
use crate::text::{copy_string, opt_view, push_decimal};
use vstd::prelude::*;

verus! {

/// Why an item waits: a direct message, a mention, or new replies in a thread.
#[derive(Clone, Copy, Debug, PartialEq, Eq, Structural)]
pub enum ItemKind {
    Dm,
    Mention,
    Thread,
}

/// One thing waiting in the inbox, as the overlay reads it.
#[derive(Debug, PartialEq, Eq)]
pub struct Item {
    /// What the inbox remembers it by.
    pub key: String,
    pub kind: ItemKind,
    pub channel: String,
    pub label: String,
    pub thread_ts: Option<String>,
    pub ts: String,
}

/// An item as plain values.
pub struct ItemView {
    pub key: Seq<char>,
    pub kind: ItemKind,
    pub channel: Seq<char>,
    pub label: Seq<char>,
    pub thread_ts: Option<Seq<char>>,
    pub ts: Seq<char>,
}

impl View for Item {
    type V = ItemView;

    open spec fn view(&self) -> ItemView {
        ItemView {
            key: self.key@,
            kind: self.kind,
            channel: self.channel@,
            label: self.label@,
            thread_ts: opt_view(self.thread_ts),
            ts: self.ts@,
        }
    }
}

impl Clone for Item {
    fn clone(&self) -> (r: Self)
        ensures
            r@ == self@,
    {
        Item {
            key: copy_string(&self.key),
            kind: self.kind,
            channel: copy_string(&self.channel),
            label: copy_string(&self.label),
            thread_ts: match &self.thread_ts {
                Some(t) => Some(copy_string(t)),
                None => None,
            },
            ts: copy_string(&self.ts),
        }
    }
}

/// The views of `s`.
pub open spec fn items(s: Seq<Item>) -> Seq<ItemView> {
    s.map_values(|i: Item| i@)
}

/// A copy of `v`.
pub fn copy_items(v: &Vec<Item>) -> (r: Vec<Item>)
    ensures
        items(r@) == items(v@),
{
    let mut r: Vec<Item> = Vec::new();
    let mut i: usize = 0;
    while i < v.len()
        invariant
            i <= v@.len(),
            items(r@) == items(v@).take(i as int),
        decreases v.len() - i,
    {
        let c = v[i].clone();
        let ghost before = items(r@);
        r.push(c);
        proof {
            assert(items(r@) =~= before.push(c@));
            assert(items(v@).take(i + 1) =~= items(v@).take(i as int).push(v@[i as int]@));
        }
        i += 1;
    }
    proof {
        assert(items(v@).take(v@.len() as int) =~= items(v@));
    }
    r
}

/// The thread to open with the conversation of `item`: its own thread, else the thread of the
/// mention itself; a direct message opens none.
pub open spec fn thread_of(item: ItemView) -> Option<Seq<char>> {
    match item.thread_ts {
        Some(t) => Some(t),
        None => if item.kind != ItemKind::Dm {
            Some(item.ts)
        } else {
            None
        },
    }
}

/// The thread to open with the conversation of `item`.
pub fn thread_to_open(item: &Item) -> (r: Option<String>)
    ensures
        opt_view(r) == thread_of(item@),
{
    match &item.thread_ts {
        Some(t) => Some(copy_string(t)),
        None => if item.kind != ItemKind::Dm {
            Some(copy_string(&item.ts))
        } else {
            None
        },
    }
}

/// The note after reading: what was read.
pub open spec fn read_note(label: Seq<char>) -> Seq<char> {
    "marked "@ + label + " read"@
}

/// The note after a snooze: until when.
pub open spec fn snooze_note(until: Seq<char>) -> Seq<char> {
    "snoozed until "@ + until
}

/// The note after reading everything: how many items.
pub open spec fn read_all_note(n: nat) -> Seq<char> {
    "marked "@ + crate::text::decimal(n) + " read"@
}

/// The mark and the words an item is listed with: a letter for a direct message with how
/// many are new, `@` for a mention, a hook for a thread with how many replies are new.
pub open spec fn heading_of(kind: ItemKind, unread: nat) -> (Seq<char>, Seq<char>) {
    match kind {
        ItemKind::Dm => ("✉"@, crate::text::decimal(unread) + " new"@),
        ItemKind::Mention => ("@"@, "mention"@),
        ItemKind::Thread => ("⤷"@, crate::text::decimal(unread) + " new in thread"@),
    }
}

/// The mark and the words an item with `unread` new messages is listed with.
pub fn heading(kind: ItemKind, unread: usize) -> (r: (&'static str, String))
    ensures
        (r.0@, r.1@) == heading_of(kind, unread as nat),
{
    let mut what = String::new();
    match kind {
        ItemKind::Dm => {
            push_decimal(&mut what, unread as u64);
            what.append(" new");
            proof {
                reveal_strlit(" new");
                reveal_strlit("✉");
            }
            ("✉", what)
        },
        ItemKind::Mention => {
            what.append("mention");
            proof {
                reveal_strlit("mention");
                reveal_strlit("@");
            }
            ("@", what)
        },
        ItemKind::Thread => {
            push_decimal(&mut what, unread as u64);
            what.append(" new in thread");
            proof {
                reveal_strlit(" new in thread");
                reveal_strlit("⤷");
            }
            ("⤷", what)
        },
    }
}

/// The overlay's title: loading, all clear, or how many items wait.
pub open spec fn title_of(loading: bool, n: nat) -> Seq<char> {
    if loading {
        "inbox · loading…"@
    } else if n == 0 {
        "inbox · all clear"@
    } else {
        "inbox · "@ + crate::text::decimal(n)
    }
}

/// The overlay's title.
pub fn title(loading: bool, n: usize) -> (r: String)
    ensures
        r@ == title_of(loading, n as nat),
{
    if loading {
        "inbox · loading…".to_owned()
    } else if n == 0 {
        "inbox · all clear".to_owned()
    } else {
        let mut t = "inbox · ".to_owned();
        push_decimal(&mut t, n as u64);
        t
    }
}

/// A key as the inbox reads it.
#[derive(Clone, Copy, Debug, PartialEq, Eq, Structural)]
pub enum InboxKey {
    Esc,
    Enter,
    Up,
    Down,
    Left,
    Right,
    Home,
    End,
    Char(char),
    Other,
}

/// What a key in the inbox asks of the app besides the inbox's own change.
#[derive(Debug, PartialEq, Eq)]
pub enum InboxOutcome {
    Stay,
    /// The inbox closes.
    Close,
    Quit,
    Help,
    /// The item was read: the app marks it read in Slack.
    Read(Item),
    /// Everything was read.
    ReadAll(Vec<Item>),
    /// The snooze preset numbered here (from 0) was chosen: the app snoozes the selected item
    /// for it.
    Chose(usize),
    /// The reply row opens for the item.
    Reply(Item),
    /// The item opens in Slack.
    Open(Item),
    /// The inbox closes on the item's conversation.
    Enter(Item),
    /// The inbox reloads.
    Reload,
}

/// The inbox overlay. It remembers what was read, each key with the time stamp of the
/// message it was read at, and what was snoozed, each key with when the snooze ends (in
/// milliseconds since the Unix epoch).
pub struct Inbox {
    pub items: Vec<Item>,
    pub selected: usize,
    pub loading: bool,
    pub picking_snooze: bool,
    pub flash: String,
    pub read: Vec<(String, String)>,
    pub snoozed: Vec<(String, u64)>,
}

/// The inbox as plain values.
pub struct InboxView {
    pub items: Seq<ItemView>,
    pub selected: nat,
    pub loading: bool,
    pub picking_snooze: bool,
    pub flash: Seq<char>,
    pub read: Seq<(Seq<char>, Seq<char>)>,
    pub snoozed: Seq<(Seq<char>, u64)>,
}

impl View for Inbox {
    type V = InboxView;

    open spec fn view(&self) -> InboxView {
        InboxView {
            items: items(self.items@),
            selected: self.selected as nat,
            loading: self.loading,
            picking_snooze: self.picking_snooze,
            flash: self.flash@,
            read: read_pairs(self.read@),
            snoozed: snooze_pairs(self.snoozed@),
        }
    }
}

/// The inbox once `fresh` arrived at `now`: snoozes that ended are forgotten, what was read or
/// is snoozed stays out, the cursor stays or moves onto the new last item, and loading ends.
pub open spec fn loaded_at(b: InboxView, fresh: Seq<ItemView>, now: u64) -> InboxView {
    let snoozed = unexpired(b.snoozed, now);
    let kept = shown(fresh, b.read, snoozed, now);
    InboxView { items: kept, selected: after_taking(b.selected, kept.len()), loading: false, snoozed, ..b }
}

/// The read records as plain values.
pub open spec fn read_pairs(r: Seq<(String, String)>) -> Seq<(Seq<char>, Seq<char>)> {
    r.map_values(|p: (String, String)| (p.0@, p.1@))
}

/// The snooze records as plain values.
pub open spec fn snooze_pairs(r: Seq<(String, u64)>) -> Seq<(Seq<char>, u64)> {
    r.map_values(|p: (String, u64)| (p.0@, p.1))
}

/// The records of `r` for keys other than `key`, in order.
pub open spec fn without_key<V>(r: Seq<(Seq<char>, V)>, key: Seq<char>) -> Seq<(Seq<char>, V)>
    decreases r.len(),
{
    if r.len() == 0 {
        r
    } else {
        let rest = without_key(r.drop_last(), key);
        if r.last().0 == key {
            rest
        } else {
            rest.push(r.last())
        }
    }
}

/// `r` with `key` now recorded with `v`, in place of what it held before.
pub open spec fn noted<V>(r: Seq<(Seq<char>, V)>, key: Seq<char>, v: V) -> Seq<(Seq<char>, V)> {
    without_key(r, key).push((key, v))
}

/// `r` with each of `items` recorded as read at its time stamp, in turn.
pub open spec fn all_noted(r: Seq<(Seq<char>, Seq<char>)>, items: Seq<ItemView>) -> Seq<
    (Seq<char>, Seq<char>),
>
    decreases items.len(),
{
    if items.len() == 0 {
        r
    } else {
        noted(all_noted(r, items.drop_last()), items.last().key, items.last().ts)
    }
}

/// The snoozes of `r` that still run at `now`.
pub open spec fn unexpired(r: Seq<(Seq<char>, u64)>, now: u64) -> Seq<(Seq<char>, u64)>
    decreases r.len(),
{
    if r.len() == 0 {
        r
    } else {
        let rest = unexpired(r.drop_last(), now);
        if r.last().1 > now {
            rest.push(r.last())
        } else {
            rest
        }
    }
}

/// Whether `item` was read at its own time stamp, so that nothing newer came since.
pub open spec fn was_read(read: Seq<(Seq<char>, Seq<char>)>, item: ItemView) -> bool {
    exists|j: int| 0 <= j < read.len() && #[trigger] read[j] == (item.key, item.ts)
}

/// Whether `item` is snoozed past `now`.
pub open spec fn is_snoozed(snoozed: Seq<(Seq<char>, u64)>, item: ItemView, now: u64) -> bool {
    exists|j: int| 0 <= j < snoozed.len() && #[trigger] snoozed[j].0 == item.key && snoozed[j].1 > now
}

/// The items of `s` that are neither read nor snoozed at `now`, in order.
pub open spec fn shown(
    s: Seq<ItemView>,
    read: Seq<(Seq<char>, Seq<char>)>,
    snoozed: Seq<(Seq<char>, u64)>,
    now: u64,
) -> Seq<ItemView>
    decreases s.len(),
{
    if s.len() == 0 {
        s
    } else {
        let rest = shown(s.drop_last(), read, snoozed, now);
        if was_read(read, s.last()) || is_snoozed(snoozed, s.last(), now) {
            rest
        } else {
            rest.push(s.last())
        }
    }
}

/// `r` with `key` recorded as read at `ts`.
fn note_read(r: &Vec<(String, String)>, key: &String, ts: &String) -> (out: Vec<(String, String)>)
    ensures
        read_pairs(out@) == noted(read_pairs(r@), key@, ts@),
{
    let ghost whole = read_pairs(r@);
    let mut out: Vec<(String, String)> = Vec::new();
    let mut i: usize = 0;
    while i < r.len()
        invariant
            i <= r@.len(),
            whole == read_pairs(r@),
            read_pairs(out@) == without_key(whole.take(i as int), key@),
        decreases r.len() - i,
    {
        proof {
            assert(whole.take(i + 1).drop_last() =~= whole.take(i as int));
        }
        if !crate::text::same_str(r[i].0.as_str(), key.as_str()) {
            let pair = (copy_string(&r[i].0), copy_string(&r[i].1));
            out.push(pair);
            proof {
                assert(read_pairs(out@) =~= without_key(whole.take(i as int), key@).push(whole[i as int]));
            }
        }
        i += 1;
    }
    proof {
        assert(whole.take(r@.len() as int) =~= whole);
    }
    out.push((copy_string(key), copy_string(ts)));
    proof {
        assert(read_pairs(out@) =~= noted(whole, key@, ts@));
    }
    out
}

/// `r` with `key` recorded as snoozed until `until`.
fn note_snooze(r: &Vec<(String, u64)>, key: &String, until: u64) -> (out: Vec<(String, u64)>)
    ensures
        snooze_pairs(out@) == noted(snooze_pairs(r@), key@, until),
{
    let ghost whole = snooze_pairs(r@);
    let mut out: Vec<(String, u64)> = Vec::new();
    let mut i: usize = 0;
    while i < r.len()
        invariant
            i <= r@.len(),
            whole == snooze_pairs(r@),
            snooze_pairs(out@) == without_key(whole.take(i as int), key@),
        decreases r.len() - i,
    {
        proof {
            assert(whole.take(i + 1).drop_last() =~= whole.take(i as int));
        }
        if !crate::text::same_str(r[i].0.as_str(), key.as_str()) {
            let pair = (copy_string(&r[i].0), r[i].1);
            out.push(pair);
            proof {
                assert(snooze_pairs(out@) =~= without_key(whole.take(i as int), key@).push(whole[i as int]));
            }
        }
        i += 1;
    }
    proof {
        assert(whole.take(r@.len() as int) =~= whole);
    }
    out.push((copy_string(key), until));
    proof {
        assert(snooze_pairs(out@) =~= noted(whole, key@, until));
    }
    out
}

/// The snoozes of `r` that still run at `now`.
fn keep_unexpired(r: &Vec<(String, u64)>, now: u64) -> (out: Vec<(String, u64)>)
    ensures
        snooze_pairs(out@) == unexpired(snooze_pairs(r@), now),
{
    let ghost whole = snooze_pairs(r@);
    let mut out: Vec<(String, u64)> = Vec::new();
    let mut i: usize = 0;
    while i < r.len()
        invariant
            i <= r@.len(),
            whole == snooze_pairs(r@),
            snooze_pairs(out@) == unexpired(whole.take(i as int), now),
        decreases r.len() - i,
    {
        proof {
            assert(whole.take(i + 1).drop_last() =~= whole.take(i as int));
        }
        if r[i].1 > now {
            let pair = (copy_string(&r[i].0), r[i].1);
            out.push(pair);
            proof {
                assert(snooze_pairs(out@) =~= unexpired(whole.take(i as int), now).push(whole[i as int]));
            }
        }
        i += 1;
    }
    proof {
        assert(whole.take(r@.len() as int) =~= whole);
    }
    out
}

/// Whether `item` was read at its own time stamp.
fn read_here(read: &Vec<(String, String)>, item: &Item) -> (b: bool)
    ensures
        b == was_read(read_pairs(read@), item@),
{
    let ghost rp = read_pairs(read@);
    let mut i: usize = 0;
    while i < read.len()
        invariant
            i <= read@.len(),
            rp == read_pairs(read@),
            forall|j: int| 0 <= j < i ==> rp[j] != (item@.key, item@.ts),
        decreases read.len() - i,
    {
        if crate::text::same_str(read[i].0.as_str(), item.key.as_str()) && crate::text::same_str(
            read[i].1.as_str(),
            item.ts.as_str(),
        ) {
            assert(rp[i as int] == (item@.key, item@.ts));
            return true;
        }
        i += 1;
    }
    false
}

/// Whether `item` is snoozed past `now`.
fn snoozed_here(snoozed: &Vec<(String, u64)>, item: &Item, now: u64) -> (b: bool)
    ensures
        b == is_snoozed(snooze_pairs(snoozed@), item@, now),
{
    let ghost sp = snooze_pairs(snoozed@);
    let mut i: usize = 0;
    while i < snoozed.len()
        invariant
            i <= snoozed@.len(),
            sp == snooze_pairs(snoozed@),
            forall|j: int| 0 <= j < i ==> !(#[trigger] sp[j].0 == item@.key && sp[j].1 > now),
        decreases snoozed.len() - i,
    {
        if snoozed[i].1 > now && crate::text::same_str(snoozed[i].0.as_str(), item.key.as_str()) {
            assert(sp[i as int].0 == item@.key && sp[i as int].1 > now);
            return true;
        }
        i += 1;
    }
    false
}

/// Where the cursor stays once an item leaves a list of `len`: where it was, or on the new
/// last item.
pub open spec fn after_taking(selected: nat, len: nat) -> nat {
    if len == 0 {
        0
    } else if selected > len - 1 {
        (len - 1) as nat
    } else {
        selected
    }
}

impl Inbox {
    /// Whether the cursor stands on an item, or at the top of an empty list.
    pub open spec fn wf(&self) -> bool {
        self.selected < self.items@.len() || self.selected == 0
    }

    /// An empty inbox, loading, that remembers `read` and `snoozed`.
    pub fn new(read: Vec<(String, String)>, snoozed: Vec<(String, u64)>) -> (r: Self)
        ensures
            r.items@.len() == 0,
            r.selected == 0,
            r.loading,
            !r.picking_snooze,
            r.flash@.len() == 0,
            r.read == read,
            r.snoozed == snoozed,
    {
        Inbox { items: Vec::new(), selected: 0, loading: true, picking_snooze: false, flash: String::new(), read, snoozed }
    }

    /// Takes in a fresh list at `now`: snoozes that ended are forgotten, what was read or is
    /// snoozed stays out, the cursor stays or moves onto the new last item, and loading ends.
    pub fn set_items(&mut self, items: Vec<Item>, now: u64)
        ensures
            final(self)@ == loaded_at(old(self)@, crate::inbox::items(items@), now),
            snooze_pairs(final(self).snoozed@) == unexpired(snooze_pairs(old(self).snoozed@), now),
            final(self).read == old(self).read,
            crate::inbox::items(final(self).items@) == shown(
                crate::inbox::items(items@),
                read_pairs(old(self).read@),
                unexpired(snooze_pairs(old(self).snoozed@), now),
                now,
            ),
            final(self).selected == after_taking(old(self).selected as nat, final(self).items@.len()),
            final(self).wf(),
            !final(self).loading,
            final(self).picking_snooze == old(self).picking_snooze,
            final(self).flash == old(self).flash,
    {
        self.snoozed = keep_unexpired(&self.snoozed, now);
        let ghost all = crate::inbox::items(items@);
        let ghost rp = read_pairs(self.read@);
        let ghost sp = snooze_pairs(self.snoozed@);
        let mut kept: Vec<Item> = Vec::new();
        let mut i: usize = 0;
        while i < items.len()
            invariant
                i <= items@.len(),
                all == crate::inbox::items(items@),
                rp == read_pairs(self.read@),
                sp == snooze_pairs(self.snoozed@),
                crate::inbox::items(kept@) == shown(all.take(i as int), rp, sp, now),
            decreases items.len() - i,
        {
            proof {
                assert(all.take(i + 1).drop_last() =~= all.take(i as int));
                assert(all[i as int] == items@[i as int]@);
            }
            if !read_here(&self.read, &items[i]) && !snoozed_here(&self.snoozed, &items[i], now) {
                let it = items[i].clone();
                kept.push(it);
                proof {
                    assert(crate::inbox::items(kept@) =~= shown(all.take(i as int), rp, sp, now).push(all[i as int]));
                }
            }
            i += 1;
        }
        proof {
            assert(all.take(items@.len() as int) =~= all);
        }
        self.items = kept;
        let n = self.items.len();
        if n == 0 {
            self.selected = 0;
        } else if self.selected > n - 1 {
            self.selected = n - 1;
        }
        self.loading = false;
    }

    /// The item under the cursor.
    pub fn selected_item(&self) -> (r: Option<&Item>)
        ensures
            match r {
                Some(i) => self.selected < self.items@.len() && *i == self.items@[self.selected as int],
                None => self.selected >= self.items@.len(),
            },
    {
        if self.selected < self.items.len() {
            Some(&self.items[self.selected])
        } else {
            None
        }
    }

    /// Takes the item under the cursor off the list; the cursor stays, or moves onto the new
    /// last item.
    pub fn take_selected(&mut self) -> (r: Option<Item>)
        requires
            old(self).wf(),
        ensures
            final(self).wf(),
            final(self).loading == old(self).loading,
            final(self).picking_snooze == old(self).picking_snooze,
            final(self).flash == old(self).flash,
            final(self).read == old(self).read,
            final(self).snoozed == old(self).snoozed,
            match r {
                Some(i) => {
                    &&& old(self).selected < old(self).items@.len()
                    &&& i == old(self).items@[old(self).selected as int]
                    &&& final(self).items@ == old(self).items@.remove(old(self).selected as int)
                    &&& final(self).selected == after_taking(old(self).selected as nat, final(self).items@.len())
                },
                None => old(self).items@.len() == 0 && final(self).items@ == old(self).items@
                    && final(self).selected == old(self).selected,
            },
    {
        if self.items.len() == 0 {
            return None;
        }
        let item = self.items.remove(self.selected);
        let n = self.items.len();
        if n == 0 {
            self.selected = 0;
        } else if self.selected > n - 1 {
            self.selected = n - 1;
        }
        Some(item)
    }

    /// Moves the cursor by `delta`, stopping at the first and last item.
    pub fn move_by(&mut self, delta: i64)
        ensures
            final(self).selected == moved(old(self).selected, delta, old(self).items@.len()),
            final(self).items@ == old(self).items@,
            final(self).loading == old(self).loading,
            final(self).picking_snooze == old(self).picking_snooze,
            final(self).flash == old(self).flash,
            final(self).read == old(self).read,
            final(self).snoozed == old(self).snoozed,
    {
        self.selected = move_selection(self.selected, delta, self.items.len());
    }

    /// Reads the item under the cursor: it leaves the list, it is remembered as read at its
    /// time stamp, and the note says which it was.
    pub fn read_selected(&mut self) -> (r: Option<Item>)
        requires
            old(self).wf(),
        ensures
            final(self).wf(),
            match r {
                Some(i) => {
                    &&& old(self).selected < old(self).items@.len()
                    &&& i == old(self).items@[old(self).selected as int]
                    &&& final(self).items@ == old(self).items@.remove(old(self).selected as int)
                    &&& final(self).selected == after_taking(old(self).selected as nat, final(self).items@.len())
                    &&& final(self).flash@ == read_note(i.label@)
                    &&& read_pairs(final(self).read@) == noted(read_pairs(old(self).read@), i.key@, i.ts@)
                },
                None => old(self).items@.len() == 0 && final(self).items@ == old(self).items@
                    && final(self).selected == old(self).selected && final(self).flash == old(self).flash
                    && final(self).read == old(self).read,
            },
            final(self).picking_snooze == old(self).picking_snooze,
            final(self).loading == old(self).loading,
            final(self).snoozed == old(self).snoozed,
    {
        let item = self.take_selected();
        match item {
            Some(i) => {
                self.read = note_read(&self.read, &i.key, &i.ts);
                let mut note = String::new();
                note.append("marked ");
                note.append(i.label.as_str());
                note.append(" read");
                proof {
                    reveal_strlit("marked ");
                    reveal_strlit(" read");
                }
                self.flash = note;
                Some(i)
            },
            None => None,
        }
    }

    /// Snoozes the item under the cursor until `until` (milliseconds since the Unix epoch),
    /// which reads as `label`: it leaves the list, it is remembered as snoozed, the question is
    /// answered, and the note says until when.
    pub fn snooze_selected(&mut self, label: &str, until: u64) -> (r: Option<Item>)
        requires
            old(self).wf(),
        ensures
            final(self).wf(),
            match r {
                Some(i) => {
                    &&& old(self).selected < old(self).items@.len()
                    &&& i == old(self).items@[old(self).selected as int]
                    &&& final(self).items@ == old(self).items@.remove(old(self).selected as int)
                    &&& final(self).selected == after_taking(old(self).selected as nat, final(self).items@.len())
                    &&& final(self).flash@ == snooze_note(label@)
                    &&& !final(self).picking_snooze
                    &&& snooze_pairs(final(self).snoozed@) == noted(snooze_pairs(old(self).snoozed@), i.key@, until)
                },
                None => old(self).items@.len() == 0 && final(self).items@ == old(self).items@
                    && final(self).selected == old(self).selected && final(self).flash == old(self).flash
                    && final(self).picking_snooze == old(self).picking_snooze
                    && final(self).snoozed == old(self).snoozed,
            },
            final(self).loading == old(self).loading,
            final(self).read == old(self).read,
    {
        let item = self.take_selected();
        match item {
            Some(i) => {
                self.snoozed = note_snooze(&self.snoozed, &i.key, until);
                self.picking_snooze = false;
                let mut note = String::new();
                note.append("snoozed until ");
                note.append(label);
                proof {
                    reveal_strlit("snoozed until ");
                }
                self.flash = note;
                Some(i)
            },
            None => None,
        }
    }

    /// Reads everything: the list empties, each item is remembered as read, and the note says
    /// how many items were read.
    pub fn read_all(&mut self) -> (r: Vec<Item>)
        ensures
            r@ == old(self).items@,
            final(self).items@.len() == 0,
            final(self).selected == 0,
            final(self).flash@ == read_all_note(old(self).items@.len()),
            final(self).loading == old(self).loading,
            final(self).picking_snooze == old(self).picking_snooze,
            read_pairs(final(self).read@) == all_noted(read_pairs(old(self).read@), items(old(self).items@)),
            final(self).snoozed == old(self).snoozed,
    {
        let mut all: Vec<Item> = Vec::new();
        std::mem::swap(&mut all, &mut self.items);
        self.selected = 0;
        let ghost start = read_pairs(self.read@);
        let ghost views = items(all@);
        let mut i: usize = 0;
        while i < all.len()
            invariant
                i <= all@.len(),
                views == items(all@),
                read_pairs(self.read@) == all_noted(start, views.take(i as int)),
                all@ == old(self).items@,
                self.items@.len() == 0,
                self.selected == 0,
                self.loading == old(self).loading,
                self.picking_snooze == old(self).picking_snooze,
                self.snoozed == old(self).snoozed,
            decreases all.len() - i,
        {
            proof {
                assert(views.take(i + 1).drop_last() =~= views.take(i as int));
                assert(views[i as int] == all@[i as int]@);
            }
            self.read = note_read(&self.read, &all[i].key, &all[i].ts);
            i += 1;
        }
        proof {
            assert(views.take(all@.len() as int) =~= views);
        }
        let mut note = String::new();
        note.append("marked ");
        push_decimal(&mut note, all.len() as u64);
        note.append(" read");
        proof {
            reveal_strlit("marked ");
            reveal_strlit(" read");
        }
        self.flash = note;
        all
    }

    /// What `key` does in the inbox. Every key first clears the note. While it asks how long
    /// to snooze, `1` to `4` choose a preset and `esc` or `q` stop asking. Otherwise `esc`
    /// closes the inbox, `q` quits, `?` shows the keys; `j`/`k`, the arrows, `g`/`home` and
    /// `G`/`end` move; `→`, `l` or `d` read the item, `←`, `h` or `s` ask how long to snooze
    /// it; `a` reads everything; `r` replies, `o` opens the item in Slack, `enter` opens its
    /// conversation, `R` reloads.
    pub fn key(&mut self, key: InboxKey) -> (r: InboxOutcome)
        requires
            old(self).wf(),
        ensures
            final(self).wf(),
            final(self).snoozed == old(self).snoozed,
            read_pairs(final(self).read@) == match r {
                InboxOutcome::Read(i) => noted(read_pairs(old(self).read@), i.key@, i.ts@),
                InboxOutcome::ReadAll(all) => all_noted(read_pairs(old(self).read@), items(all@)),
                _ => read_pairs(old(self).read@),
            },
            (old(self).picking_snooze || key != InboxKey::Char('R')) ==> final(self).loading == old(self).loading,
            ({
                let before = *old(self);
                let after = *final(self);
                let same = after.items@ == before.items@ && after.selected == before.selected
                    && after.loading == before.loading && after.picking_snooze == before.picking_snooze
                    && after.flash@.len() == 0;
                let on = before.selected < before.items@.len();
                let here = before.items@[before.selected as int];
                if before.picking_snooze {
                    match key {
                        InboxKey::Char(c) => if '1' <= c <= '4' {
                            same && r == InboxOutcome::Chose((c as u32 - '1' as u32) as usize)
                        } else if c == 'q' {
                            r is Stay && !after.picking_snooze && after.items@ == before.items@
                                && after.selected == before.selected && after.flash@.len() == 0
                        } else {
                            r is Stay && same
                        },
                        InboxKey::Esc => r is Stay && !after.picking_snooze && after.items@ == before.items@
                            && after.selected == before.selected && after.flash@.len() == 0,
                        _ => r is Stay && same,
                    }
                } else {
                    match key {
                        InboxKey::Esc => r is Close && same,
                        InboxKey::Char('q') => r is Quit && same,
                        InboxKey::Char('?') => r is Help && same,
                        InboxKey::Down | InboxKey::Char('j') => r is Stay && after.selected == moved(
                            before.selected,
                            1,
                            before.items@.len(),
                        ) && after.items@ == before.items@ && !after.picking_snooze
                            && after.flash@.len() == 0,
                        InboxKey::Up | InboxKey::Char('k') => r is Stay && after.selected == moved(
                            before.selected,
                            -1i64,
                            before.items@.len(),
                        ) && after.items@ == before.items@ && !after.picking_snooze
                            && after.flash@.len() == 0,
                        InboxKey::Home | InboxKey::Char('g') => r is Stay && after.selected == moved(
                            before.selected,
                            (i64::MIN / 2) as i64,
                            before.items@.len(),
                        ) && after.items@ == before.items@ && !after.picking_snooze
                            && after.flash@.len() == 0,
                        InboxKey::End | InboxKey::Char('G') => r is Stay && after.selected == moved(
                            before.selected,
                            (i64::MAX / 2) as i64,
                            before.items@.len(),
                        ) && after.items@ == before.items@ && !after.picking_snooze
                            && after.flash@.len() == 0,
                        InboxKey::Right | InboxKey::Char('l') | InboxKey::Char('d') => if on {
                            &&& r matches InboxOutcome::Read(i) && i == here
                            &&& after.items@ == before.items@.remove(before.selected as int)
                            &&& after.selected == after_taking(before.selected as nat, after.items@.len())
                            &&& after.flash@ == read_note(here.label@)
                        } else {
                            r is Stay && same
                        },
                        InboxKey::Left | InboxKey::Char('h') | InboxKey::Char('s') => r is Stay
                            && after.items@ == before.items@ && after.selected == before.selected
                            && after.flash@.len() == 0 && after.picking_snooze == on,
                        InboxKey::Char('a') => r matches InboxOutcome::ReadAll(all) && all@ == before.items@
                            && after.items@.len() == 0 && after.selected == 0 && after.flash@ == read_all_note(
                            before.items@.len(),
                        ),
                        InboxKey::Char('r') => same && if on {
                            r matches InboxOutcome::Reply(i) && i@ == here@
                        } else {
                            r is Stay
                        },
                        InboxKey::Char('o') => same && if on {
                            r matches InboxOutcome::Open(i) && i@ == here@
                        } else {
                            r is Stay
                        },
                        InboxKey::Enter => same && if on {
                            r matches InboxOutcome::Enter(i) && i@ == here@
                        } else {
                            r is Stay
                        },
                        InboxKey::Char('R') => r is Reload && after.loading && after.items@ == before.items@
                            && after.selected == before.selected && !after.picking_snooze
                            && after.flash@.len() == 0,
                        _ => r is Stay && same,
                    }
                }
            }),
    {
        self.flash = String::new();
        if self.picking_snooze {
            return match key {
                InboxKey::Char(c) => if '1' <= c && c <= '4' {
                    InboxOutcome::Chose(((c as u32) - ('1' as u32)) as usize)
                } else if c == 'q' {
                    self.picking_snooze = false;
                    InboxOutcome::Stay
                } else {
                    InboxOutcome::Stay
                },
                InboxKey::Esc => {
                    self.picking_snooze = false;
                    InboxOutcome::Stay
                },
                _ => InboxOutcome::Stay,
            };
        }
        match key {
            InboxKey::Esc => InboxOutcome::Close,
            InboxKey::Down => {
                self.move_by(1);
                InboxOutcome::Stay
            },
            InboxKey::Up => {
                self.move_by(-1);
                InboxOutcome::Stay
            },
            InboxKey::Home => {
                self.move_by(i64::MIN / 2);
                InboxOutcome::Stay
            },
            InboxKey::End => {
                self.move_by(i64::MAX / 2);
                InboxOutcome::Stay
            },
            InboxKey::Right => self.read_key(),
            InboxKey::Left => {
                self.picking_snooze = self.selected < self.items.len();
                InboxOutcome::Stay
            },
            InboxKey::Enter => match self.selected_item() {
                Some(i) => InboxOutcome::Enter(i.clone()),
                None => InboxOutcome::Stay,
            },
            InboxKey::Char(c) => self.char_key(c),
            InboxKey::Other => InboxOutcome::Stay,
        }
    }

    /// `→`: reads the item under the cursor, if there is one.
    fn read_key(&mut self) -> (r: InboxOutcome)
        requires
            old(self).wf(),
            old(self).flash@.len() == 0,
            !old(self).picking_snooze,
        ensures
            final(self).wf(),
            !final(self).picking_snooze,
            final(self).loading == old(self).loading,
            final(self).snoozed == old(self).snoozed,
            read_pairs(final(self).read@) == match r {
                InboxOutcome::Read(i) => noted(read_pairs(old(self).read@), i.key@, i.ts@),
                InboxOutcome::ReadAll(all) => all_noted(read_pairs(old(self).read@), items(all@)),
                _ => read_pairs(old(self).read@),
            },
            if old(self).selected < old(self).items@.len() {
                &&& r matches InboxOutcome::Read(i) && i == old(self).items@[old(self).selected as int]
                &&& final(self).items@ == old(self).items@.remove(old(self).selected as int)
                &&& final(self).selected == after_taking(old(self).selected as nat, final(self).items@.len())
                &&& final(self).flash@ == read_note(old(self).items@[old(self).selected as int].label@)
            } else {
                r is Stay && final(self).items@ == old(self).items@ && final(self).selected == old(
                    self,
                ).selected && final(self).flash@.len() == 0
            },
    {
        match self.read_selected() {
            Some(i) => InboxOutcome::Read(i),
            None => InboxOutcome::Stay,
        }
    }

    /// The inbox's letter keys.
    fn char_key(&mut self, c: char) -> (r: InboxOutcome)
        requires
            old(self).wf(),
            old(self).flash@.len() == 0,
            !old(self).picking_snooze,
        ensures
            final(self).wf(),
            final(self).snoozed == old(self).snoozed,
            read_pairs(final(self).read@) == match r {
                InboxOutcome::Read(i) => noted(read_pairs(old(self).read@), i.key@, i.ts@),
                InboxOutcome::ReadAll(all) => all_noted(read_pairs(old(self).read@), items(all@)),
                _ => read_pairs(old(self).read@),
            },
            c != 'R' ==> final(self).loading == old(self).loading,
            ({
                let before = *old(self);
                let after = *final(self);
                let same = after.items@ == before.items@ && after.selected == before.selected
                    && after.loading == before.loading && after.picking_snooze == before.picking_snooze
                    && after.flash@.len() == 0;
                let on = before.selected < before.items@.len();
                let here = before.items@[before.selected as int];
                if c == 'q' {
                    r is Quit && same
                } else if c == '?' {
                    r is Help && same
                } else if c == 'j' {
                    r is Stay && after.selected == moved(before.selected, 1, before.items@.len())
                        && after.items@ == before.items@ && !after.picking_snooze
                            && after.flash@.len() == 0
                } else if c == 'k' {
                    r is Stay && after.selected == moved(before.selected, -1i64, before.items@.len())
                        && after.items@ == before.items@ && !after.picking_snooze
                            && after.flash@.len() == 0
                } else if c == 'g' {
                    r is Stay && after.selected == moved(
                        before.selected,
                        (i64::MIN / 2) as i64,
                        before.items@.len(),
                    ) && after.items@ == before.items@ && !after.picking_snooze
                            && after.flash@.len() == 0
                } else if c == 'G' {
                    r is Stay && after.selected == moved(
                        before.selected,
                        (i64::MAX / 2) as i64,
                        before.items@.len(),
                    ) && after.items@ == before.items@ && !after.picking_snooze
                            && after.flash@.len() == 0
                } else if c == 'l' || c == 'd' {
                    if on {
                        &&& r matches InboxOutcome::Read(i) && i == here
                        &&& after.items@ == before.items@.remove(before.selected as int)
                        &&& after.selected == after_taking(before.selected as nat, after.items@.len())
                        &&& after.flash@ == read_note(here.label@)
                    } else {
                        r is Stay && same
                    }
                } else if c == 'h' || c == 's' {
                    r is Stay && after.items@ == before.items@ && after.selected == before.selected
                        && after.flash@.len() == 0 && after.picking_snooze == on
                } else if c == 'a' {
                    r matches InboxOutcome::ReadAll(all) && all@ == before.items@ && after.items@.len() == 0
                        && after.selected == 0 && after.flash@ == read_all_note(before.items@.len())
                } else if c == 'r' {
                    same && if on {
                        r matches InboxOutcome::Reply(i) && i@ == here@
                    } else {
                        r is Stay
                    }
                } else if c == 'o' {
                    same && if on {
                        r matches InboxOutcome::Open(i) && i@ == here@
                    } else {
                        r is Stay
                    }
                } else if c == 'R' {
                    r is Reload && after.loading && after.items@ == before.items@ && after.selected
                        == before.selected && !after.picking_snooze && after.flash@.len() == 0
                } else {
                    r is Stay && same
                }
            }),
    {
        if c == 'q' {
            InboxOutcome::Quit
        } else if c == '?' {
            InboxOutcome::Help
        } else if c == 'j' {
            self.move_by(1);
            InboxOutcome::Stay
        } else if c == 'k' {
            self.move_by(-1);
            InboxOutcome::Stay
        } else if c == 'g' {
            self.move_by(i64::MIN / 2);
            InboxOutcome::Stay
        } else if c == 'G' {
            self.move_by(i64::MAX / 2);
            InboxOutcome::Stay
        } else if c == 'l' || c == 'd' {
            self.read_key()
        } else if c == 'h' || c == 's' {
            self.picking_snooze = self.selected < self.items.len();
            InboxOutcome::Stay
        } else if c == 'a' {
            InboxOutcome::ReadAll(self.read_all())
        } else if c == 'r' {
            match self.selected_item() {
                Some(i) => InboxOutcome::Reply(i.clone()),
                None => InboxOutcome::Stay,
            }
        } else if c == 'o' {
            match self.selected_item() {
                Some(i) => InboxOutcome::Open(i.clone()),
                None => InboxOutcome::Stay,
            }
        } else if c == 'R' {
            self.loading = true;
            InboxOutcome::Reload
        } else {
            InboxOutcome::Stay
        }
    }
}


/// A fresh list never shows an item that was read at its time stamp, nor one snoozed past
/// `now`; what it shows came in the fresh list.
pub proof fn law_reloads_leave_out_what_was_read_or_snoozed(
    fresh: Seq<ItemView>,
    read: Seq<(Seq<char>, Seq<char>)>,
    snoozed: Seq<(Seq<char>, u64)>,
    now: u64,
)
    ensures
        forall|i: int|
            0 <= i < shown(fresh, read, snoozed, now).len() ==> {
                let it = #[trigger] shown(fresh, read, snoozed, now)[i];
                &&& !was_read(read, it)
                &&& !is_snoozed(snoozed, it, now)
                &&& fresh.contains(it)
            },
    decreases fresh.len(),
{
    if fresh.len() > 0 {
        law_reloads_leave_out_what_was_read_or_snoozed(fresh.drop_last(), read, snoozed, now);
        let rest = shown(fresh.drop_last(), read, snoozed, now);
        assert forall|i: int| 0 <= i < rest.len() implies fresh.contains(#[trigger] rest[i]) by {
            let j = choose|j: int| 0 <= j < fresh.drop_last().len() && fresh.drop_last()[j] == rest[i];
            assert(fresh[j] == rest[i]);
        }
        assert(fresh[fresh.len() - 1] == fresh.last());
    }
}

/// Once an item is read at its time stamp, it counts as read; once it is snoozed until a time
/// after `now`, it counts as snoozed at `now`, also after the ended snoozes are forgotten.
pub proof fn law_what_is_noted_is_remembered(
    read: Seq<(Seq<char>, Seq<char>)>,
    snoozed: Seq<(Seq<char>, u64)>,
    item: ItemView,
    until: u64,
    now: u64,
)
    ensures
        was_read(noted(read, item.key, item.ts), item),
        until > now ==> is_snoozed(unexpired(noted(snoozed, item.key, until), now), item, now),
{
    let r = noted(read, item.key, item.ts);
    assert(r[r.len() - 1] == (item.key, item.ts));
    if until > now {
        let sn = noted(snoozed, item.key, until);
        let u = unexpired(sn, now);
        assert(sn.drop_last() == without_key(snoozed, item.key));
        assert(u == unexpired(without_key(snoozed, item.key), now).push((item.key, until)));
        assert(u[u.len() - 1] == (item.key, until));
        assert(u[u.len() - 1].0 == item.key && u[u.len() - 1].1 > now);
    }
}

} // verus!
