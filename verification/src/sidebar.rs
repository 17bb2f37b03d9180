//! The conversation list on the left: which group each conversation sits in, the order of the
//! groups and of the rows inside them, and the headers drawn between groups.
use crate::fuzzy::{occurs, occurs_exec};
use crate::order::{key_views, sorted_order, sorts, Key};
use crate::text::{
    ascii_lower, chars_of, copy_string, copy_texts, drop_leading, lower_ascii, lowercase, same_chars,
    skip_leading, string_of, texts, to_lower, to_upper, uppercase,
};
use vstd::prelude::*;

verus! {

/// What kind of conversation a row is.
#[derive(Clone, Copy, Debug, PartialEq, Eq, Structural)]
pub enum Kind {
    Public,
    Private,
    Dm,
    GroupDm,
}

/// One conversation of the sidebar.
#[derive(Debug, PartialEq, Eq)]
pub struct ChannelRow {
    pub id: String,
    pub label: String,
    pub kind: Kind,
    /// Sidebar group: "starred", a custom section name, "channels" or "direct".
    pub section: String,
    pub muted: bool,
}

/// A row as texts.
pub struct RowView {
    pub id: Seq<char>,
    pub label: Seq<char>,
    pub kind: Kind,
    pub section: Seq<char>,
    pub muted: bool,
}

impl View for ChannelRow {
    type V = RowView;

    open spec fn view(&self) -> RowView {
        RowView {
            id: self.id@,
            label: self.label@,
            kind: self.kind,
            section: self.section@,
            muted: self.muted,
        }
    }
}

impl Clone for ChannelRow {
    fn clone(&self) -> (r: Self)
        ensures
            r@ == self@,
    {
        ChannelRow {
            id: copy_string(&self.id),
            label: copy_string(&self.label),
            kind: self.kind,
            section: copy_string(&self.section),
            muted: self.muted,
        }
    }
}

/// The group a new row starts in: conversations with people under "direct", the rest under
/// "channels".
pub open spec fn default_section(kind: Kind) -> Seq<char> {
    match kind {
        Kind::Dm | Kind::GroupDm => "direct"@,
        _ => "channels"@,
    }
}

impl ChannelRow {
    /// A row in its default group, not muted.
    pub fn new(id: &str, label: &str, kind: Kind) -> (r: Self)
        ensures
            r@ == (RowView {
                id: id@,
                label: label@,
                kind,
                section: default_section(kind),
                muted: false,
            }),
    {
        let section = match kind {
            Kind::Dm | Kind::GroupDm => "direct",
            _ => "channels",
        };
        ChannelRow {
            id: id.to_owned(),
            label: label.to_owned(),
            kind,
            section: section.to_owned(),
            muted: false,
        }
    }
}

/// Unread state of one conversation.
#[derive(Clone, Copy, Debug, PartialEq, Eq)]
pub struct Badge {
    pub unread: bool,
    pub mentions: u64,
}

impl Default for Badge {
    fn default() -> (b: Self)
        ensures
            !b.unread,
            b.mentions == 0,
    {
        Badge { unread: false, mentions: 0 }
    }
}

impl Badge {
    /// The badge of a conversation other than the open one once a message arrives in it: it
    /// is unread, and one more mention when the message mentions the signed-in user.
    pub fn noticed(self, mentions_me: bool) -> (b: Badge)
        requires
            mentions_me ==> self.mentions < u64::MAX,
        ensures
            b.unread,
            b.mentions == if mentions_me {
                self.mentions + 1
            } else {
                self.mentions as int
            },
    {
        Badge { unread: true, mentions: if mentions_me { self.mentions + 1 } else { self.mentions } }
    }
}

/// The unread state of one conversation as the workspace counts it.
#[derive(Debug, PartialEq, Eq)]
pub struct ConversationCount {
    pub id: String,
    pub has_unreads: bool,
    pub mention_count: u64,
}

/// The workspace's unread counts: channels, direct messages and group messages.
#[derive(Debug, PartialEq, Eq)]
pub struct Counts {
    pub channels: Vec<ConversationCount>,
    pub ims: Vec<ConversationCount>,
    pub mpims: Vec<ConversationCount>,
}

/// A count as its conversation and badge.
pub open spec fn count_view(c: ConversationCount) -> (Seq<char>, Badge) {
    (c.id@, Badge { unread: c.has_unreads, mentions: c.mention_count })
}

/// Every count, channels first, then direct and group messages.
pub open spec fn all_counts(counts: Counts) -> Seq<(Seq<char>, Badge)> {
    (counts.channels@ + counts.ims@ + counts.mpims@).map_values(|c: ConversationCount| count_view(c))
}

/// The badges counts give: one per conversation with something unread or a mention, the last
/// count of a conversation winning.
pub open spec fn badge_map(cs: Seq<(Seq<char>, Badge)>) -> Map<Seq<char>, Badge>
    decreases cs.len(),
{
    if cs.len() == 0 {
        Map::empty()
    } else {
        let before = badge_map(cs.drop_last());
        let (id, b) = cs.last();
        if b.unread || b.mentions > 0 {
            before.insert(id, b)
        } else {
            before
        }
    }
}

/// A list of (conversation, badge) pairs read as a map.
pub open spec fn pairs_map(v: Seq<(Seq<char>, Badge)>) -> Map<Seq<char>, Badge>
    decreases v.len(),
{
    if v.len() == 0 {
        Map::empty()
    } else {
        pairs_map(v.drop_last()).insert(v.last().0, v.last().1)
    }
}

/// Whether no conversation appears twice in `v`.
pub open spec fn distinct_ids(v: Seq<(Seq<char>, Badge)>) -> bool {
    forall|i: int, j: int| 0 <= i < j < v.len() ==> #[trigger] v[i].0 != #[trigger] v[j].0
}

/// Replacing the badge of a listed conversation replaces it in the map.
proof fn lemma_pairs_update(v: Seq<(Seq<char>, Badge)>, i: int, b: Badge)
    requires
        distinct_ids(v),
        0 <= i < v.len(),
    ensures
        pairs_map(v.update(i, (v[i].0, b))) == pairs_map(v).insert(v[i].0, b),
    decreases v.len(),
{
    let w = v.update(i, (v[i].0, b));
    if i == v.len() - 1 {
        assert(w.drop_last() == v.drop_last());
        assert(pairs_map(v).insert(v[i].0, b) =~= pairs_map(v.drop_last()).insert(v[i].0, b));
    } else {
        let d = v.drop_last();
        assert forall|x: int, y: int| 0 <= x < y < d.len() implies #[trigger] d[x].0 != #[trigger] d[y].0 by {
            assert(d[x] == v[x] && d[y] == v[y]);
        }
        lemma_pairs_update(d, i, b);
        assert(w.drop_last() == d.update(i, (d[i].0, b)));
        assert(v[i].0 != v.last().0);
        assert(pairs_map(w) =~= pairs_map(v).insert(v[i].0, b));
    }
}

/// The badges the counts give, one per conversation, in no particular order.
pub fn badges(counts: &Counts) -> (r: Vec<(String, Badge)>)
    ensures
        distinct_ids(r@.map_values(|p: (String, Badge)| (p.0@, p.1))),
        pairs_map(r@.map_values(|p: (String, Badge)| (p.0@, p.1))) == badge_map(all_counts(*counts)),
{
    let ghost all = all_counts(*counts);
    let mut r: Vec<(String, Badge)> = Vec::new();
    let mut part: usize = 0;
    let ghost mut seen: nat = 0;
    while part < 3
        invariant
            part <= 3,
            all == all_counts(*counts),
            seen == if part == 0 {
                0
            } else if part == 1 {
                counts.channels@.len()
            } else if part == 2 {
                counts.channels@.len() + counts.ims@.len()
            } else {
                all.len()
            },
            seen <= all.len(),
            distinct_ids(r@.map_values(|p: (String, Badge)| (p.0@, p.1))),
            pairs_map(r@.map_values(|p: (String, Badge)| (p.0@, p.1))) == badge_map(all.take(seen as int)),
        decreases 3 - part,
    {
        let list = if part == 0 {
            &counts.channels
        } else if part == 1 {
            &counts.ims
        } else {
            &counts.mpims
        };
        let mut k: usize = 0;
        while k < list.len()
            invariant
                k <= list@.len(),
                all == all_counts(*counts),
                seen + list@.len() <= all.len(),
                forall|j: int| 0 <= j < list@.len() ==> #[trigger] all[seen + j] == count_view(list@[j]),
                distinct_ids(r@.map_values(|p: (String, Badge)| (p.0@, p.1))),
                pairs_map(r@.map_values(|p: (String, Badge)| (p.0@, p.1))) == badge_map(all.take(seen + k)),
            decreases list.len() - k,
        {
            let c = &list[k];
            let ghost rv = r@.map_values(|p: (String, Badge)| (p.0@, p.1));
            proof {
                let t = all.take(seen + k + 1);
                assert(t.drop_last() == all.take(seen + k));
                assert(t.last() == count_view(list@[k as int]));
            }
            if c.has_unreads || c.mention_count > 0 {
                let b = Badge { unread: c.has_unreads, mentions: c.mention_count };
                let mut i: usize = 0;
                while i < r.len() && !crate::text::same_str(r[i].0.as_str(), c.id.as_str())
                    invariant
                        i <= r@.len(),
                        rv == r@.map_values(|p: (String, Badge)| (p.0@, p.1)),
                        forall|j: int| 0 <= j < i ==> rv[j].0 != c.id@,
                    decreases r.len() - i,
                {
                    i += 1;
                }
                if i < r.len() {
                    r.set(i, (crate::text::copy_string(&c.id), b));
                    proof {
                        lemma_pairs_update(rv, i as int, b);
                        assert(r@.map_values(|p: (String, Badge)| (p.0@, p.1)) =~= rv.update(i as int, (rv[i as int].0, b)));
                    }
                } else {
                    r.push((crate::text::copy_string(&c.id), b));
                    proof {
                        let nv = r@.map_values(|p: (String, Badge)| (p.0@, p.1));
                        assert(nv == rv.push((c.id@, b)));
                        assert(nv.drop_last() == rv);
                        assert forall|x: int, y: int| 0 <= x < y < nv.len() implies #[trigger] nv[x].0 != #[trigger] nv[y].0 by {
                            if y == rv.len() {
                                assert(nv[x] == rv[x]);
                            } else {
                                assert(nv[x] == rv[x] && nv[y] == rv[y]);
                            }
                        }
                    }
                }
            }
            k += 1;
        }
        proof {
            seen = seen + list@.len();
        }
        part += 1;
    }
    assert(all.take(all.len() as int) == all);
    r
}

/// The mark after a conversation's name: the number of mentions, or a dot when it has unread
/// messages and is not muted, or nothing.
pub open spec fn badge_mark(mentions: u64, unread: bool, muted: bool) -> Seq<char> {
    if mentions > 0 {
        "● "@ + crate::text::decimal(mentions as nat)
    } else if unread && !muted {
        "●"@
    } else {
        Seq::empty()
    }
}

/// The mark after a conversation's name in the sidebar.
pub fn badge_text(mentions: u64, unread: bool, muted: bool) -> (r: String)
    ensures
        r@ == badge_mark(mentions, unread, muted),
{
    if mentions > 0 {
        let mut r = "● ".to_owned();
        crate::text::push_decimal(&mut r, mentions);
        r
    } else if unread && !muted {
        "●".to_owned()
    } else {
        String::new()
    }
}

/// The conversations of one sidebar section.
#[derive(Debug, PartialEq, Eq)]
pub struct SectionPage {
    pub channel_ids: Vec<String>,
}

impl Default for SectionPage {
    fn default() -> (p: Self)
        ensures
            p.channel_ids@.len() == 0,
    {
        SectionPage { channel_ids: Vec::new() }
    }
}

/// A sidebar section as the workspace has it: its kind ("stars", "standard", ...), its name
/// and the conversations in it.
#[derive(Debug, PartialEq, Eq)]
pub struct Section {
    pub kind: String,
    pub name: String,
    pub channel_ids_page: SectionPage,
}

/// A section as texts: kind, name, conversations.
pub open spec fn section_view(s: Section) -> (Seq<char>, Seq<char>, Seq<Seq<char>>) {
    (s.kind@, s.name@, texts(s.channel_ids_page.channel_ids@))
}

/// The sections that place conversations, in order, each as its group name and conversations:
/// the starred one as "starred", custom ones by their name in lower case. Empty sections and
/// the workspace's built-in ones place nothing.
pub open spec fn placed(sections: Seq<(Seq<char>, Seq<char>, Seq<Seq<char>>)>) -> Seq<(Seq<char>, Seq<Seq<char>>)>
    decreases sections.len(),
{
    if sections.len() == 0 {
        Seq::empty()
    } else {
        let rest = placed(sections.drop_last());
        let (kind, name, ids) = sections.last();
        if ids.len() > 0 && (kind == "stars"@ || kind == "standard"@) {
            rest.push((if kind == "stars"@ { "starred"@ } else { lowercase(name) }, ids))
        } else {
            rest
        }
    }
}

/// The group of the first placing section, from position `i` on, that holds conversation `id`.
pub open spec fn placed_in(groups: Seq<(Seq<char>, Seq<Seq<char>>)>, id: Seq<char>, i: nat) -> Option<Seq<char>>
    decreases groups.len() - i,
{
    if i >= groups.len() {
        None
    } else if groups[i as int].1.contains(id) {
        Some(groups[i as int].0)
    } else {
        placed_in(groups, id, i + 1)
    }
}

/// The position of the first placing section, from `i` on, named `name`.
pub open spec fn named_at(groups: Seq<(Seq<char>, Seq<Seq<char>>)>, name: Seq<char>, i: nat) -> Option<nat>
    decreases groups.len() - i,
{
    if i >= groups.len() {
        None
    } else if groups[i as int].0 == name {
        Some(i)
    } else {
        named_at(groups, name, i + 1)
    }
}

/// A row moved into the section that places it, if any, and muted when `muted` lists it.
pub open spec fn placed_row(r: RowView, groups: Seq<(Seq<char>, Seq<Seq<char>>)>, muted: Seq<Seq<char>>) -> RowView {
    RowView {
        section: match placed_in(groups, r.id, 0) {
            Some(name) => name,
            None => r.section,
        },
        muted: muted.contains(r.id),
        ..r
    }
}

/// Where a section's group sits: starred first, then custom sections in their order, then
/// channels, then direct conversations.
pub open spec fn group(section: Seq<char>, groups: Seq<(Seq<char>, Seq<Seq<char>>)>) -> nat {
    if section == "starred"@ {
        0
    } else if section == "channels"@ {
        2 + groups.len()
    } else if section == "direct"@ {
        3 + groups.len()
    } else {
        1 + match named_at(groups, section, 0) {
            Some(p) => p,
            None => 0,
        }
    }
}

/// A label without the marks it starts with: `#`, `🔒` and `@`.
pub open spec fn unmarked(label: Seq<char>) -> Seq<char>
    decreases label.len(),
{
    if label.len() > 0 && (label[0] == '#' || label[0] == '🔒' || label[0] == '@') {
        unmarked(label.drop_first())
    } else {
        label
    }
}

/// How a placed row sorts: by group, unmuted before muted, then by label in lower case.
pub open spec fn row_key(r: RowView, groups: Seq<(Seq<char>, Seq<Seq<char>>)>) -> (nat, Seq<char>) {
    (group(r.section, groups) * 2 + if r.muted { 1nat } else { 0nat }, lowercase(unmarked(r.label)))
}

/// The rows placed in their sections.
pub open spec fn moved_rows(
    rows: Seq<RowView>,
    groups: Seq<(Seq<char>, Seq<Seq<char>>)>,
    muted: Seq<Seq<char>>,
) -> Seq<RowView> {
    rows.map_values(|x: RowView| placed_row(x, groups, muted))
}

/// The sort keys of placed rows.
pub open spec fn row_keys(rows: Seq<RowView>, groups: Seq<(Seq<char>, Seq<Seq<char>>)>) -> Seq<(nat, Seq<char>)> {
    rows.map_values(|x: RowView| row_key(x, groups))
}

/// The rows `arrange` gives for `rows`: each placed, then all in sidebar order, the order of
/// `rows` kept among equals.
pub open spec fn arranged(
    r: Seq<RowView>,
    rows: Seq<RowView>,
    sections: Seq<(Seq<char>, Seq<char>, Seq<Seq<char>>)>,
    muted: Seq<Seq<char>>,
) -> bool {
    let groups = placed(sections);
    let moved = moved_rows(rows, groups, muted);
    exists|order: Seq<usize>|
        #![trigger sorts(row_keys(moved, groups), order)]
        sorts(row_keys(moved, groups), order) && r == order.map_values(|i: usize| moved[i as int])
}

/// Whether `v` spells `lit`.
fn is_text(v: &[char], lit: &str) -> (r: bool)
    ensures
        r == (v@ == lit@),
{
    crate::text::same_text(v, lit)
}

/// Whether `ids` holds `id`.
fn holds(ids: &Vec<String>, id: &[char]) -> (r: bool)
    ensures
        r == texts(ids@).contains(id@),
{
    let mut i: usize = 0;
    while i < ids.len()
        invariant
            i <= ids@.len(),
            forall|j: int| 0 <= j < i ==> texts(ids@)[j] != id@,
        decreases ids.len() - i,
    {
        let c = chars_of(ids[i].as_str());
        if same_chars(c.as_slice(), id) {
            assert(texts(ids@)[i as int] == id@);
            return true;
        }
        i += 1;
    }
    false
}

/// The placing sections, as `placed` says.
fn placing(sections: &[Section]) -> (r: Vec<(Vec<char>, Vec<String>)>)
    ensures
        r@.map_values(|g: (Vec<char>, Vec<String>)| (g.0@, texts(g.1@))) == placed(
            sections@.map_values(|s: Section| section_view(s)),
        ),
{
    let ghost sv = sections@.map_values(|s: Section| section_view(s));
    let mut r: Vec<(Vec<char>, Vec<String>)> = Vec::new();
    let mut i: usize = 0;
    while i < sections.len()
        invariant
            i <= sections@.len(),
            sv == sections@.map_values(|s: Section| section_view(s)),
            r@.map_values(|g: (Vec<char>, Vec<String>)| (g.0@, texts(g.1@))) == placed(sv.take(i as int)),
        decreases sections.len() - i,
    {
        proof {
            let t = sv.take(i + 1);
            assert(t.drop_last() == sv.take(i as int));
            assert(t.last() == section_view(sections@[i as int]));
        }
        let s = &sections[i];
        let kind = chars_of(s.kind.as_str());
        let stars = is_text(kind.as_slice(), "stars");
        let standard = is_text(kind.as_slice(), "standard");
        if s.channel_ids_page.channel_ids.len() > 0 && (stars || standard) {
            let name = if stars {
                chars_of("starred")
            } else {
                chars_of(to_lower(s.name.as_str()).as_str())
            };
            let ids = copy_texts(&s.channel_ids_page.channel_ids);
            let ghost before = r@;
            r.push((name, ids));
            assert(r@.map_values(|g: (Vec<char>, Vec<String>)| (g.0@, texts(g.1@))) == before.map_values(
                |g: (Vec<char>, Vec<String>)| (g.0@, texts(g.1@)),
            ).push((name@, texts(ids@))));
        }
        i += 1;
    }
    assert(sv.take(sv.len() as int) == sv);
    r
}

/// The views of the placing sections.
pub open spec fn group_views(r: Seq<(Vec<char>, Vec<String>)>) -> Seq<(Seq<char>, Seq<Seq<char>>)> {
    r.map_values(|g: (Vec<char>, Vec<String>)| (g.0@, texts(g.1@)))
}

/// The group of the first placing section that holds `id`.
fn placed_in_exec(groups: &Vec<(Vec<char>, Vec<String>)>, id: &[char]) -> (r: Option<Vec<char>>)
    ensures
        match r {
            Some(name) => placed_in(group_views(groups@), id@, 0) == Some(name@),
            None => placed_in(group_views(groups@), id@, 0) is None,
        },
{
    let ghost gv = group_views(groups@);
    let mut i: usize = 0;
    while i < groups.len()
        invariant
            i <= groups@.len(),
            gv == group_views(groups@),
            placed_in(gv, id@, 0) == placed_in(gv, id@, i as nat),
        decreases groups.len() - i,
    {
        assert(gv[i as int] == (groups@[i as int].0@, texts(groups@[i as int].1@)));
        if holds(&groups[i].1, id) {
            return Some(crate::text::slice_of(groups[i].0.as_slice(), 0, groups[i].0.len()));
        }
        i += 1;
    }
    None
}

/// The position of the first placing section named `name`.
fn named_at_exec(groups: &Vec<(Vec<char>, Vec<String>)>, name: &[char]) -> (r: Option<usize>)
    ensures
        match r {
            Some(p) => named_at(group_views(groups@), name@, 0) == Some(p as nat),
            None => named_at(group_views(groups@), name@, 0) is None,
        },
{
    let ghost gv = group_views(groups@);
    let mut i: usize = 0;
    while i < groups.len()
        invariant
            i <= groups@.len(),
            gv == group_views(groups@),
            named_at(gv, name@, 0) == named_at(gv, name@, i as nat),
        decreases groups.len() - i,
    {
        assert(gv[i as int].0 == groups@[i as int].0@);
        if same_chars(groups[i].0.as_slice(), name) {
            return Some(i);
        }
        i += 1;
    }
    None
}

/// `label` without its leading marks.
fn unmarked_exec(label: &[char]) -> (r: Vec<char>)
    ensures
        r@ == unmarked(label@),
{
    let mut i: usize = 0;
    assert(label@.skip(0) == label@);
    while i < label.len() && (label[i] == '#' || label[i] == '🔒' || label[i] == '@')
        invariant
            i <= label@.len(),
            unmarked(label@) == unmarked(label@.skip(i as int)),
        decreases label.len() - i,
    {
        proof {
            let t = label@.skip(i as int);
            assert(t[0] == label@[i as int]);
            assert(t.drop_first() == label@.skip(i + 1));
        }
        i += 1;
    }
    proof {
        if i < label@.len() {
            assert(label@.skip(i as int)[0] == label@[i as int]);
        }
        assert(label@.subrange(i as int, label@.len() as int) == label@.skip(i as int));
    }
    crate::text::slice_of(label, i, label.len())
}

/// Puts rows in sidebar order: starred, custom sections, channels, direct; muted last in each
/// group; by label inside.
pub fn arrange(rows: Vec<ChannelRow>, sections: &[Section], muted: &[String]) -> (r: Vec<ChannelRow>)
    ensures
        arranged(
            r@.map_values(|x: ChannelRow| x@),
            rows@.map_values(|x: ChannelRow| x@),
            sections@.map_values(|s: Section| section_view(s)),
            texts(muted@),
        ),
{
    let groups = placing(sections);
    let ghost gv = group_views(groups@);
    let ghost rv = rows@.map_values(|x: ChannelRow| x@);
    let ghost moved = moved_rows(rv, gv, texts(muted@));
    let ghost keyed = row_keys(moved, gv);
    let mut muted_list: Vec<String> = Vec::new();
    let mut m: usize = 0;
    while m < muted.len()
        invariant
            m <= muted@.len(),
            texts(muted_list@) == texts(muted@).take(m as int),
        decreases muted.len() - m,
    {
        let ghost before = muted_list@;
        muted_list.push(copy_string(&muted[m]));
        assert(texts(muted_list@) == texts(before).push(muted@[m as int]@));
        assert(texts(muted@).take(m + 1) == texts(muted@).take(m as int).push(muted@[m as int]@));
        m += 1;
    }
    assert(texts(muted@).take(muted@.len() as int) == texts(muted@));
    let p = groups.len();
    let mut placed_rows: Vec<ChannelRow> = Vec::new();
    let mut keys: Vec<Key> = Vec::new();
    let mut i: usize = 0;
    while i < rows.len()
        invariant
            i <= rows@.len(),
            p == groups@.len() == gv.len(),
            gv == group_views(groups@),
            rv == rows@.map_values(|x: ChannelRow| x@),
            moved == moved_rows(rv, gv, texts(muted@)),
            keyed == row_keys(moved, gv),
            texts(muted_list@) == texts(muted@),
            placed_rows@.len() == i,
            keys@.len() == i,
            forall|j: int| 0 <= j < i ==> #[trigger] placed_rows@[j]@ == moved[j],
            forall|j: int| 0 <= j < i ==> #[trigger] keys@[j]@ == keyed[j],
        decreases rows.len() - i,
    {
        let row = &rows[i];
        let id = chars_of(row.id.as_str());
        let section = match placed_in_exec(&groups, id.as_slice()) {
            Some(name) => string_of(name.as_slice()),
            None => copy_string(&row.section),
        };
        let is_muted = holds(&muted_list, id.as_slice());
        let moved_row = ChannelRow {
            id: copy_string(&row.id),
            label: copy_string(&row.label),
            kind: row.kind,
            section,
            muted: is_muted,
        };
        assert(moved_row@ == moved[i as int]);
        let sec = chars_of(moved_row.section.as_str());
        let g: u128 = if is_text(sec.as_slice(), "starred") {
            0
        } else if is_text(sec.as_slice(), "channels") {
            2 + p as u128
        } else if is_text(sec.as_slice(), "direct") {
            3 + p as u128
        } else {
            match named_at_exec(&groups, sec.as_slice()) {
                Some(q) => 1 + q as u128,
                None => 1,
            }
        };
        proof {
            if let Some(q) = named_at(gv, sec@, 0) {
                lemma_named_at(gv, sec@, 0);
            }
        }
        let mark = if is_muted { 1u128 } else { 0u128 };
        let label = unmarked_exec(chars_of(moved_row.label.as_str()).as_slice());
        let text = chars_of(to_lower(string_of(label.as_slice()).as_str()).as_str());
        let key = Key { rank: g * 2 + mark, text };
        assert(key@ == keyed[i as int]);
        placed_rows.push(moved_row);
        keys.push(key);
        i += 1;
    }
    assert(key_views(keys@) =~= keyed);
    let order = sorted_order(keys.as_slice());
    let mut r: Vec<ChannelRow> = Vec::new();
    let mut k: usize = 0;
    while k < order.len()
        invariant
            k <= order@.len(),
            sorts(keyed, order@),
            keyed.len() == moved.len() == placed_rows@.len(),
            forall|j: int| 0 <= j < placed_rows@.len() ==> #[trigger] placed_rows@[j]@ == moved[j],
            r@.map_values(|x: ChannelRow| x@) == order@.take(k as int).map_values(|i: usize| moved[i as int]),
        decreases order.len() - k,
    {
        let ghost before = r@;
        assert(order@[k as int] < keyed.len());
        let item = placed_rows[order[k]].clone();
        assert(item@ == moved[order@[k as int] as int]);
        r.push(item);
        assert(r@.map_values(|x: ChannelRow| x@) == before.map_values(|x: ChannelRow| x@).push(
            moved[order@[k as int] as int],
        ));
        assert(order@.take(k + 1) == order@.take(k as int).push(order@[k as int]));
        assert(r@.map_values(|x: ChannelRow| x@) =~= order@.take(k + 1).map_values(|i: usize| moved[i as int]));
        k += 1;
    }
    assert(order@.take(order@.len() as int) == order@);
    proof {
        let sv = sections@.map_values(|s: Section| section_view(s));
        assert(gv == placed(sv));
    }
    r
}

/// The sidebar reads in groups: starred, custom sections, channels, direct, never back to an
/// earlier group; inside a group the muted rows come last.
pub proof fn law_sidebar_reads_in_groups(
    r: Seq<RowView>,
    rows: Seq<RowView>,
    sections: Seq<(Seq<char>, Seq<char>, Seq<Seq<char>>)>,
    muted: Seq<Seq<char>>,
)
    requires
        arranged(r, rows, sections, muted),
    ensures
        r.len() == rows.len(),
        forall|k: int, l: int|
            0 <= k < l < r.len() ==> group(#[trigger] r[k].section, placed(sections)) <= group(
                #[trigger] r[l].section,
                placed(sections),
            ),
        forall|k: int, l: int|
            0 <= k < l < r.len() && group(#[trigger] r[k].section, placed(sections)) == group(
                #[trigger] r[l].section,
                placed(sections),
            ) ==> !(r[k].muted && !r[l].muted),
{
    let groups = placed(sections);
    let moved = moved_rows(rows, groups, muted);
    let keys = row_keys(moved, groups);
    let order = choose|order: Seq<usize>|
        sorts(keys, order) && r == order.map_values(|i: usize| moved[i as int]);
    assert forall|k: int, l: int| 0 <= k < l < r.len() implies group(#[trigger] r[k].section, groups) <= group(
        #[trigger] r[l].section,
        groups,
    ) && (group(r[k].section, groups) == group(r[l].section, groups) ==> !(r[k].muted && !r[l].muted)) by {
        let (a, b) = (order[k] as int, order[l] as int);
        assert(crate::order::entry_before(keys, a, b));
        assert(r[k] == moved[a] && r[l] == moved[b]);
        assert(keys[a] == row_key(moved[a], groups) && keys[b] == row_key(moved[b], groups));
    }
}

/// Where `named_at` points, the name is there.
pub proof fn lemma_named_at(groups: Seq<(Seq<char>, Seq<Seq<char>>)>, name: Seq<char>, i: nat)
    ensures
        named_at(groups, name, i) matches Some(p) ==> i <= p < groups.len(),
    decreases groups.len() - i,
{
    if i < groups.len() && groups[i as int].0 != name {
        lemma_named_at(groups, name, i + 1);
    }
}

/// What the sidebar draws: headers and spacers between groups, rows inside.
#[derive(Debug, PartialEq, Eq)]
pub enum SidebarRow {
    Spacer,
    Header(String),
    Channel(usize),
}

/// A sidebar line as a text or a position.
pub enum LineView {
    Spacer,
    Header(Seq<char>),
    Channel(nat),
}

impl View for SidebarRow {
    type V = LineView;

    open spec fn view(&self) -> LineView {
        match self {
            SidebarRow::Spacer => LineView::Spacer,
            SidebarRow::Header(h) => LineView::Header(h@),
            SidebarRow::Channel(i) => LineView::Channel(*i as nat),
        }
    }
}

/// The lines for conversations in groups `sections`: each conversation on its line; when
/// `grouped`, a header (the group in upper case) wherever the group changes, and a spacer
/// before every header but the first.
pub open spec fn lines(sections: Seq<Seq<char>>, grouped: bool) -> Seq<LineView>
    decreases sections.len(),
{
    if sections.len() == 0 {
        Seq::empty()
    } else {
        let n = sections.len();
        let before = lines(sections.drop_last(), grouped);
        let current = if n > 1 { sections[n - 2] } else { Seq::empty() };
        let head = if grouped && sections[n - 1] != current {
            if n > 1 {
                seq![LineView::Spacer, LineView::Header(uppercase(sections[n - 1]))]
            } else {
                seq![LineView::Header(uppercase(sections[n - 1]))]
            }
        } else {
            Seq::empty()
        };
        before + head + seq![LineView::Channel((n - 1) as nat)]
    }
}

/// What the sidebar draws for `channels`, in order.
pub fn sidebar_rows(channels: &[&ChannelRow], grouped: bool) -> (r: Vec<SidebarRow>)
    ensures
        r@.map_values(|x: SidebarRow| x@) == lines(channels@.map_values(|c: &ChannelRow| c.section@), grouped),
{
    let ghost secs = channels@.map_values(|c: &ChannelRow| c.section@);
    let mut out: Vec<SidebarRow> = Vec::new();
    let mut current: Vec<char> = Vec::new();
    let mut i: usize = 0;
    while i < channels.len()
        invariant
            i <= channels@.len(),
            secs == channels@.map_values(|c: &ChannelRow| c.section@),
            out@.map_values(|x: SidebarRow| x@) == lines(secs.take(i as int), grouped),
            current@ == if i > 0 && grouped { secs[i - 1] } else { Seq::empty() },
            grouped || current@.len() == 0,
            i > 0 ==> out@.len() > 0,
        decreases channels.len() - i,
    {
        proof {
            let t = secs.take(i + 1);
            assert(t.drop_last() == secs.take(i as int));
            assert(t[i as int] == secs[i as int]);
            if i > 0 {
                assert(t[i - 1] == secs[i - 1]);
            }
        }
        let c = channels[i];
        let sec = chars_of(c.section.as_str());
        let ghost before = out@.map_values(|x: SidebarRow| x@);
        if grouped && !same_chars(sec.as_slice(), current.as_slice()) {
            if out.len() > 0 {
                out.push(SidebarRow::Spacer);
            }
            out.push(SidebarRow::Header(to_upper(c.section.as_str())));
            current = sec;
        }
        out.push(SidebarRow::Channel(i));
        proof {
            let t = secs.take(i + 1);
            let cur = if i + 1 > 1 { t[i - 1] } else { Seq::<char>::empty() };
            if i == 0 {
                assert(current@.len() == 0 || grouped);
            }
            assert(out@.map_values(|x: SidebarRow| x@) =~= lines(t, grouped));
        }
        i += 1;
    }
    assert(secs.take(secs.len() as int) == secs);
    out
}

/// The views of `s`.
pub open spec fn row_views(s: Seq<ChannelRow>) -> Seq<RowView> {
    s.map_values(|c: ChannelRow| c@)
}

/// Whether a channel labelled `label` shows under the filter `filter`: its label holds the
/// filter, both in lower case.
pub open spec fn shown_under(label: Seq<char>, filter: Seq<char>) -> bool {
    occurs(lowercase(filter), lowercase(label))
}

/// The positions of the first `n` rows that show under `filter`, in order.
pub open spec fn visible_upto(rows: Seq<RowView>, filter: Seq<char>, n: nat) -> Seq<int>
    decreases n,
{
    if n == 0 {
        Seq::empty()
    } else {
        let before = visible_upto(rows, filter, (n - 1) as nat);
        if shown_under(rows[n - 1].label, filter) {
            before.push(n - 1)
        } else {
            before
        }
    }
}

/// The channels that show under the filter, in order.
pub fn visible_channels<'a>(channels: &'a [ChannelRow], filter: &str) -> (r: Vec<&'a ChannelRow>)
    ensures
        r@.len() == visible_upto(row_views(channels@), filter@, channels@.len()).len(),
        forall|i: int|
            0 <= i < r@.len() ==> *r@[i] == channels@[#[trigger] visible_upto(
                row_views(channels@),
                filter@,
                channels@.len(),
            )[i]],
{
    let ghost rows = row_views(channels@);
    let f = chars_of(to_lower(filter).as_str());
    let mut r: Vec<&'a ChannelRow> = Vec::new();
    let mut i: usize = 0;
    while i < channels.len()
        invariant
            i <= channels@.len(),
            rows == row_views(channels@),
            f@ == lowercase(filter@),
            r@.len() == visible_upto(rows, filter@, i as nat).len(),
            forall|j: int|
                0 <= j < r@.len() ==> *r@[j] == channels@[#[trigger] visible_upto(rows, filter@, i as nat)[j]],
        decreases channels.len() - i,
    {
        let label = chars_of(to_lower(channels[i].label.as_str()).as_str());
        assert(rows[i as int].label == channels@[i as int].label@);
        if occurs_exec(f.as_slice(), label.as_slice()) {
            r.push(&channels[i]);
        }
        i += 1;
    }
    r
}

/// `label` without the `#` and `🔒` marks it starts with.
pub open spec fn bare_label(label: Seq<char>) -> Seq<char>
    decreases label.len(),
{
    if label.len() > 0 && (label[0] == '#' || label[0] == '🔒') {
        bare_label(label.drop_first())
    } else {
        label
    }
}

/// Whether `a` and `b` are the same text but for the case of ASCII letters.
pub open spec fn same_ignoring_case(a: Seq<char>, b: Seq<char>) -> bool {
    a.len() == b.len() && forall|i: int| 0 <= i < a.len() ==> ascii_lower(#[trigger] a[i]) == ascii_lower(b[i])
}

/// Whether `name`, as typed after a command, names the channel labelled `label`: the same
/// label but for ASCII case, with or without the `#` or `🔒` mark.
pub open spec fn names_channel(label: Seq<char>, name: Seq<char>) -> bool {
    same_ignoring_case(label, name) || same_ignoring_case(bare_label(label), skip_leading(name, '#'))
}

/// The first row from position `i` on that `name` names.
pub open spec fn first_named(rows: Seq<RowView>, name: Seq<char>, i: nat) -> Option<nat>
    decreases rows.len() - i,
{
    if i >= rows.len() {
        None
    } else if names_channel(rows[i as int].label, name) {
        Some(i)
    } else {
        first_named(rows, name, i + 1)
    }
}

/// `label` without its leading marks.
fn bare_label_exec(label: &[char]) -> (r: Vec<char>)
    ensures
        r@ == bare_label(label@),
{
    let mut i: usize = 0;
    assert(label@.skip(0) == label@);
    while i < label.len() && (label[i] == '#' || label[i] == '🔒')
        invariant
            i <= label@.len(),
            bare_label(label@) == bare_label(label@.skip(i as int)),
        decreases label.len() - i,
    {
        proof {
            let t = label@.skip(i as int);
            assert(t[0] == label@[i as int]);
            assert(t.drop_first() == label@.skip(i + 1));
        }
        i += 1;
    }
    proof {
        if i < label@.len() {
            assert(label@.skip(i as int)[0] == label@[i as int]);
        }
        assert(label@.subrange(i as int, label@.len() as int) == label@.skip(i as int));
    }
    crate::text::slice_of(label, i, label.len())
}

/// Whether `a` and `b` are the same but for ASCII case.
fn same_ignoring_case_exec(a: &[char], b: &[char]) -> (r: bool)
    ensures
        r == same_ignoring_case(a@, b@),
{
    if a.len() != b.len() {
        return false;
    }
    let mut i: usize = 0;
    while i < a.len()
        invariant
            i <= a@.len(),
            a@.len() == b@.len(),
            forall|j: int| 0 <= j < i ==> ascii_lower(#[trigger] a@[j]) == ascii_lower(b@[j]),
        decreases a.len() - i,
    {
        if lower_ascii(a[i]) != lower_ascii(b[i]) {
            return false;
        }
        i += 1;
    }
    true
}

/// The channel `name` names, as the commands that take a channel look it up.
pub fn channel_named<'a>(channels: &'a [ChannelRow], name: &str) -> (r: Option<&'a ChannelRow>)
    ensures
        match first_named(row_views(channels@), name@, 0) {
            Some(k) => r matches Some(c) && *c == channels@[k as int],
            None => r is None,
        },
{
    let ghost rows = row_views(channels@);
    let n = chars_of(name);
    let bare = drop_leading(n.as_slice(), '#');
    let mut i: usize = 0;
    while i < channels.len()
        invariant
            i <= channels@.len(),
            rows == row_views(channels@),
            n@ == name@,
            bare@ == skip_leading(name@, '#'),
            first_named(rows, name@, 0) == first_named(rows, name@, i as nat),
        decreases channels.len() - i,
    {
        let label = chars_of(channels[i].label.as_str());
        assert(rows[i as int].label == label@);
        if same_ignoring_case_exec(label.as_slice(), n.as_slice()) || same_ignoring_case_exec(
            bare_label_exec(label.as_slice()).as_slice(),
            bare.as_slice(),
        ) {
            return Some(&channels[i]);
        }
        i += 1;
    }
    None
}


/// Whether `needle` appears in `hay` as one unbroken run of characters.
pub open spec fn holds_run(hay: Seq<char>, needle: Seq<char>) -> bool {
    exists|k: int| 0 <= k && k + needle.len() <= hay.len() && #[trigger] hay.subrange(k, k + needle.len()) == needle
}

proof fn lemma_visible_upto(rows: Seq<RowView>, filter: Seq<char>, n: nat)
    requires
        n <= rows.len(),
    ensures
        forall|j: int|
            0 <= j < rows.len() ==> (visible_upto(rows, filter, n).contains(j) <==> j < n && holds_run(
                lowercase(rows[j].label),
                lowercase(filter),
            )),
        forall|a: int, b: int|
            0 <= a < b < visible_upto(rows, filter, n).len() ==> #[trigger] visible_upto(rows, filter, n)[a]
                < #[trigger] visible_upto(rows, filter, n)[b],
        forall|a: int| 0 <= a < visible_upto(rows, filter, n).len() ==> #[trigger] visible_upto(rows, filter, n)[a] < n,
    decreases n,
{
    if n > 0 {
        lemma_visible_upto(rows, filter, (n - 1) as nat);
        let before = visible_upto(rows, filter, (n - 1) as nat);
        let m = n - 1;
        let f = lowercase(filter);
        let l = lowercase(rows[m].label);
        assert(shown_under(rows[m].label, filter) == holds_run(l, f)) by {
            if holds_run(l, f) {
                let k = choose|k: int| 0 <= k && k + f.len() <= l.len() && #[trigger] l.subrange(k, k + f.len()) == f;
                assert(crate::fuzzy::occurs_at(f, l, k));
            }
            if shown_under(rows[m].label, filter) {
                let k = choose|k: int| crate::fuzzy::occurs_at(f, l, k);
                assert(l.subrange(k, k + f.len()) == f);
            }
        }
        if shown_under(rows[m].label, filter) {
            let now = before.push(m);
            assert forall|j: int| 0 <= j < rows.len() implies (now.contains(j) <==> j < n && holds_run(
                lowercase(rows[j].label),
                lowercase(filter),
            )) by {
                if now.contains(j) && j != m {
                    let a = choose|a: int| 0 <= a < now.len() && now[a] == j;
                    assert(before[a] == j);
                }
                if before.contains(j) {
                    let a = choose|a: int| 0 <= a < before.len() && before[a] == j;
                    assert(now[a] == j);
                }
                if j == m {
                    assert(now[now.len() - 1] == m);
                }
            }
        }
    }
}

/// The filter keeps exactly the conversations whose label, in lower case, holds the filter in
/// lower case as one unbroken run, in their order.
pub proof fn law_filter_keeps_labels_holding_it(rows: Seq<RowView>, filter: Seq<char>)
    ensures
        forall|j: int|
            0 <= j < rows.len() ==> (visible_upto(rows, filter, rows.len()).contains(j) <==> exists|k: int|
                0 <= k && k + lowercase(filter).len() <= lowercase(rows[j].label).len()
                    && #[trigger] lowercase(rows[j].label).subrange(k, k + lowercase(filter).len())
                    == lowercase(filter)),
        forall|a: int, b: int|
            0 <= a < b < visible_upto(rows, filter, rows.len()).len() ==> #[trigger] visible_upto(
                rows,
                filter,
                rows.len(),
            )[a] < #[trigger] visible_upto(rows, filter, rows.len())[b],
        forall|a: int|
            0 <= a < visible_upto(rows, filter, rows.len()).len() ==> 0 <= #[trigger] visible_upto(
                rows,
                filter,
                rows.len(),
            )[a] < rows.len(),
{
    lemma_visible_upto(rows, filter, rows.len());
    lemma_visible_nonneg(rows, filter, rows.len());
}

proof fn lemma_visible_nonneg(rows: Seq<RowView>, filter: Seq<char>, n: nat)
    ensures
        forall|a: int| 0 <= a < visible_upto(rows, filter, n).len() ==> 0 <= #[trigger] visible_upto(rows, filter, n)[a],
    decreases n,
{
    if n > 0 {
        lemma_visible_nonneg(rows, filter, (n - 1) as nat);
        let before = visible_upto(rows, filter, (n - 1) as nat);
        let now = before.push(n - 1);
        assert forall|a: int| 0 <= a < now.len() implies 0 <= #[trigger] now[a] by {
            if a < before.len() {
                assert(now[a] == before[a]);
            }
        }
    }
}

} // verus!
