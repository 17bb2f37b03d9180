//! `+`: react to the selected message from a strip of eight (the reactions already on it, then
//! the ones used most), or with any emoji found by name after `/`.
use crate::emoji::{emoji_names, glyph, glyph_of, name_of, names, shortcode};
use crate::fuzzy::{rank, ranked};
use crate::live::Reaction;
use crate::order::{key_views, sorted_order, sorts, Key};
use crate::text::{
    chars_of, copy_string, copy_texts, decimal, drop_around, push_decimal, skip_leading, skip_trailing,
    string_of, texts, trim, trimmed,
};
use vstd::prelude::*;

verus! {

/// How many choices the row shows at once.
pub const PAGE: usize = 8;

/// What fills the strip before anything was ever used.
pub open spec fn starters() -> Seq<Seq<char>> {
    seq![
        "+1"@,
        "white_check_mark"@,
        "eyes"@,
        "tada"@,
        "heart"@,
        "joy"@,
        "pray"@,
        "rocket"@,
    ]
}

fn starter_names() -> (r: Vec<&'static str>)
    ensures
        r@.map_values(|s: &str| s@) == starters(),
{
    let r = vec!["+1", "white_check_mark", "eyes", "tada", "heart", "joy", "pray", "rocket"];
    assert(r@.map_values(|s: &str| s@) =~= starters());
    r
}

/// The picker open on message `ts`, `selected` the choice `enter` gives.
/// With a `search`, the choices are the emoji whose name matches it.
#[derive(Debug, PartialEq, Eq)]
pub struct Pick {
    pub channel: String,
    pub ts: String,
    pub strip: Vec<String>,
    pub selected: usize,
    pub search: Option<Search>,
}

/// A search among emoji names: what was typed, and what it found, best first.
#[derive(Debug, PartialEq, Eq)]
pub struct Search {
    pub query: String,
    pub found: Vec<String>,
}

impl Pick {
    /// What the row offers: the search results while searching, the strip otherwise.
    pub fn choices(&self) -> (r: &[String])
        ensures
            r@ == match self.search {
                Some(s) => s.found@,
                None => self.strip@,
            },
    {
        match &self.search {
            Some(s) => s.found.as_slice(),
            None => self.strip.as_slice(),
        }
    }
}

/// Every emoji name, known ones in alphabetical order and then the workspace's own.
pub open spec fn searchable(sorted: Seq<Seq<char>>, custom: Seq<Seq<char>>) -> Seq<Seq<char>> {
    sorted + custom
}

/// The known names in alphabetical order.
pub open spec fn alphabetical(r: Seq<Seq<char>>) -> bool {
    exists|order: Seq<usize>|
        #![trigger sorts(crate::emoji::name_keys(names()), order)]
        sorts(crate::emoji::name_keys(names()), order) && r == order.map_values(|i: usize| names()[i as int])
}

/// Whether `s` is what searching the emoji names for `query` finds, best first, the known
/// names in alphabetical order and then the workspace's own `custom` ones.
pub open spec fn finds(s: Search, query: Seq<char>, custom: Seq<Seq<char>>) -> bool {
    &&& s.query@ == query
    &&& exists|sorted: Seq<Seq<char>>|
        alphabetical(sorted) && texts(s.found@) == ranked(query, searchable(sorted, custom)).map_values(
            |i: int| searchable(sorted, custom)[i],
        )
}

impl Search {
    /// The emoji whose name matches `query`, best first; custom emoji count too.
    pub fn of(query: String, custom: &[String]) -> (r: Self)
        ensures
            finds(r, query@, texts(custom@)),
    {
        let mut all = emoji_names();
        let ghost sorted = texts(all@);
        let mut i: usize = 0;
        while i < custom.len()
            invariant
                i <= custom@.len(),
                texts(all@) == sorted + texts(custom@).take(i as int),
            decreases custom.len() - i,
        {
            let ghost before = all@;
            all.push(copy_string(&custom[i]));
            assert(texts(all@) == texts(before).push(custom@[i as int]@));
            assert(texts(custom@).take(i + 1) == texts(custom@).take(i as int).push(custom@[i as int]@));
            i += 1;
        }
        assert(texts(custom@).take(custom@.len() as int) == texts(custom@));
        let mut labels: Vec<Vec<char>> = Vec::new();
        let mut k: usize = 0;
        while k < all.len()
            invariant
                k <= all@.len(),
                labels@.len() == k,
                forall|j: int| 0 <= j < k ==> #[trigger] labels@[j]@ == all@[j]@,
            decreases all.len() - k,
        {
            labels.push(chars_of(all[k].as_str()));
            k += 1;
        }
        let ghost views = labels@.map_values(|l: Vec<char>| l@);
        assert(views =~= texts(all@));
        let q = chars_of(query.as_str());
        let order = rank(q.as_slice(), &labels);
        proof {
            crate::fuzzy::lemma_ranked_in_bounds(q@, views);
        }
        let ghost want = ranked(query@, views);
        let mut found: Vec<String> = Vec::new();
        let mut m: usize = 0;
        while m < order.len()
            invariant
                m <= order@.len(),
                order@.map_values(|i: usize| i as int) == want,
                forall|j: int| 0 <= j < want.len() ==> 0 <= #[trigger] want[j] < views.len(),
                views == texts(all@),
                texts(found@) == want.take(m as int).map_values(|i: int| views[i]),
            decreases order.len() - m,
        {
            assert(want[m as int] == order@[m as int] as int);
            let ghost before = found@;
            found.push(copy_string(&all[order[m]]));
            assert(texts(found@) == texts(before).push(views[want[m as int]]));
            assert(want.take(m + 1) == want.take(m as int).push(want[m as int]));
            assert(texts(found@) =~= want.take(m + 1).map_values(|i: int| views[i]));
            m += 1;
        }
        assert(want.take(want.len() as int) == want);
        let r = Search { query, found };
        proof {
            assert(alphabetical(sorted));
            assert(texts(r.found@) == ranked(r.query@, searchable(sorted, texts(custom@))).map_values(
                |i: int| searchable(sorted, texts(custom@))[i],
            ));
        }
        r
    }
}

/// A key as the reaction picker reads it.
#[derive(Clone, Copy, Debug, PartialEq, Eq, Structural)]
pub enum PickKey {
    Enter,
    Right,
    Left,
    Backspace,
    Char(char),
    Other,
}

/// What a key does to the picker.
pub enum PickStep {
    /// The picker closes, reacting with the name when there is one.
    Close(Option<Seq<char>>),
    /// The selection moves to this choice.
    Move(nat),
    /// The choices become the emoji found for this query.
    Find(Seq<char>),
    /// The search closes and the strip is back.
    Unsearch,
}

/// The choices as texts: the search results while searching, the strip otherwise.
pub open spec fn choice_texts(strip: Seq<Seq<char>>, search: Option<(Seq<char>, Seq<Seq<char>>)>) -> Seq<Seq<char>> {
    match search {
        Some((_, found)) => found,
        None => strip,
    }
}

/// What `key` does to a picker on `strip`, at choice `selected`, with `search` the query and
/// results of an open search: `enter` reacts with the selected choice, arrows (and `h`/`l`
/// off search) move, `1`-`8` react with that choice of the strip, `/` starts a search, and
/// while searching typing and `backspace` edit the query, `backspace` on an empty one closing
/// the search; anything else closes the picker.
pub open spec fn pick_step(
    strip: Seq<Seq<char>>,
    selected: nat,
    search: Option<(Seq<char>, Seq<Seq<char>>)>,
    key: PickKey,
) -> PickStep {
    let choices = choice_texts(strip, search);
    let last: nat = if choices.len() == 0 { 0 } else { (choices.len() - 1) as nat };
    match key {
        PickKey::Enter => PickStep::Close(if selected < choices.len() { Some(choices[selected as int]) } else { None }),
        PickKey::Right => PickStep::Move(if selected + 1 <= last { selected + 1 } else { last }),
        PickKey::Left => PickStep::Move(if selected >= 1 { (selected - 1) as nat } else { 0 }),
        PickKey::Char(c) => match search {
            None => if c == 'l' {
                PickStep::Move(if selected + 1 <= last { selected + 1 } else { last })
            } else if c == 'h' {
                PickStep::Move(if selected >= 1 { (selected - 1) as nat } else { 0 })
            } else if '1' <= c && c <= '8' {
                let k = (c as int) - ('1' as int);
                PickStep::Close(if k < strip.len() { Some(strip[k]) } else { None })
            } else if c == '/' {
                PickStep::Find(Seq::empty())
            } else {
                PickStep::Close(None)
            },
            Some((query, _)) => PickStep::Find(query.push(c)),
        },
        PickKey::Backspace => match search {
            Some((query, _)) => if query.len() == 0 {
                PickStep::Unsearch
            } else {
                PickStep::Find(query.drop_last())
            },
            None => PickStep::Close(None),
        },
        PickKey::Other => PickStep::Close(None),
    }
}

/// A search as its query and results.
pub open spec fn search_view(search: Option<Search>) -> Option<(Seq<char>, Seq<Seq<char>>)> {
    match search {
        Some(s) => Some((s.query@, texts(s.found@))),
        None => None,
    }
}

/// Whether picker `q` is still on the message picker `p` was on, with the same strip.
pub open spec fn same_message(q: Pick, p: Pick) -> bool {
    q.channel@ == p.channel@ && q.ts@ == p.ts@ && texts(q.strip@) == texts(p.strip@)
}

impl Pick {
    /// The picker after `key`, and the reaction it chose, if any; `None` closes the picker.
    /// `custom` holds the workspace's own emoji, searched along with the known ones.
    pub fn key(&self, key: PickKey, custom: &[String]) -> (r: (Option<Pick>, Option<String>))
        ensures
            match pick_step(texts(self.strip@), self.selected as nat, search_view(self.search), key) {
                PickStep::Close(chosen) => r.0 is None && match r.1 {
                    Some(name) => chosen == Some(name@),
                    None => chosen is None,
                },
                PickStep::Move(to) => r.1 is None && (r.0 matches Some(q) && same_message(q, *self)
                    && q.selected == to && search_view(q.search) == search_view(self.search)),
                PickStep::Find(query) => r.1 is None && (r.0 matches Some(q) && same_message(q, *self)
                    && q.selected == 0 && (q.search matches Some(s) && finds(s, query, texts(custom@)))),
                PickStep::Unsearch => r.1 is None && (r.0 matches Some(q) && same_message(q, *self)
                    && q.selected == 0 && q.search is None),
            },
    {
        let choices = self.choices();
        let n = choices.len();
        let last = if n == 0 { 0 } else { n - 1 };
        let ghost sv = search_view(self.search);
        let ghost ct = choice_texts(texts(self.strip@), sv);
        assert(texts(choices@) == ct);
        let kept = |selected: usize, search: Option<Search>| -> (q: Pick)
            ensures
                same_message(q, *self),
                q.selected == selected,
                search_view(q.search) == search_view(search),
            {
                Pick {
                    channel: copy_string(&self.channel),
                    ts: copy_string(&self.ts),
                    strip: copy_texts(&self.strip),
                    selected,
                    search,
                }
            };
        let copy_search = || -> (s: Option<Search>)
            ensures
                search_view(s) == search_view(self.search),
            {
                match &self.search {
                    Some(s) => Some(Search { query: copy_string(&s.query), found: copy_texts(&s.found) }),
                    None => None,
                }
            };
        match key {
            PickKey::Enter => {
                if self.selected < n {
                    (None, Some(copy_string(&choices[self.selected])))
                } else {
                    (None, None)
                }
            },
            PickKey::Right => {
                let to = if self.selected < last { self.selected + 1 } else { last };
                (Some(kept(to, copy_search())), None)
            },
            PickKey::Left => {
                let to = if self.selected >= 1 { self.selected - 1 } else { 0 };
                (Some(kept(to, copy_search())), None)
            },
            PickKey::Char(c) => match &self.search {
                None => if c == 'l' {
                    let to = if self.selected < last { self.selected + 1 } else { last };
                    (Some(kept(to, None)), None)
                } else if c == 'h' {
                    let to = if self.selected >= 1 { self.selected - 1 } else { 0 };
                    (Some(kept(to, None)), None)
                } else if '1' <= c && c <= '8' {
                    let k = (c as u32 - '1' as u32) as usize;
                    if k < self.strip.len() {
                        (None, Some(copy_string(&self.strip[k])))
                    } else {
                        (None, None)
                    }
                } else if c == '/' {
                    let found = Search::of(String::new(), custom);
                    (Some(kept(0, Some(found))), None)
                } else {
                    (None, None)
                },
                Some(s) => {
                    let mut query = copy_string(&s.query);
                    crate::text::push_char(&mut query, c);
                    let found = Search::of(query, custom);
                    (Some(kept(0, Some(found))), None)
                },
            },
            PickKey::Backspace => match &self.search {
                Some(s) => {
                    let q = chars_of(s.query.as_str());
                    if q.len() == 0 {
                        (Some(kept(0, None)), None)
                    } else {
                        let query = string_of(crate::text::slice_of(q.as_slice(), 0, q.len() - 1).as_slice());
                        let found = Search::of(query, custom);
                        (Some(kept(0, Some(found))), None)
                    }
                },
                None => (None, None),
            },
            PickKey::Other => (None, None),
        }
    }
}

/// The distinct texts of `s`, in order, added to `acc` until it holds `limit`.
pub open spec fn gather(s: Seq<Seq<char>>, acc: Seq<Seq<char>>, limit: nat) -> Seq<Seq<char>>
    decreases s.len(),
{
    if acc.len() >= limit || s.len() == 0 {
        acc
    } else if acc.contains(s[0]) {
        gather(s.drop_first(), acc, limit)
    } else {
        gather(s.drop_first(), acc.push(s[0]), limit)
    }
}

/// The sort keys that put the most used first, and equal counts by name.
pub open spec fn use_keys(favorites: Seq<(Seq<char>, nat)>) -> Seq<(nat, Seq<char>)> {
    favorites.map_values(|f: (Seq<char>, nat)| ((u32::MAX - f.1) as nat, f.0))
}

/// A favorite as its name and how often it was used.
pub open spec fn favorite_views(favorites: Seq<(String, u32)>) -> Seq<(Seq<char>, nat)> {
    favorites.map_values(|f: (String, u32)| (f.0@, f.1 as nat))
}

/// The names of the reactions on a message, in order.
pub open spec fn reaction_names(on_message: Seq<Reaction>) -> Seq<Seq<char>> {
    on_message.map_values(|r: Reaction| r.name@)
}

/// The strip: the reactions already on the message, then the most used (ties by name), then
/// the starters; no repeats, at most `PAGE`.
pub open spec fn is_strip(
    r: Seq<Seq<char>>,
    on_message: Seq<Seq<char>>,
    favorites: Seq<(Seq<char>, nat)>,
) -> bool {
    exists|order: Seq<usize>|
        #![trigger sorts(use_keys(favorites), order)]
        sorts(use_keys(favorites), order) && r == gather(
            on_message + order.map_values(|i: usize| favorites[i as int].0) + starters(),
            Seq::empty(),
            PAGE as nat,
        )
}

/// Gathering never repeats a text and stops at the limit.
proof fn lemma_gather(s: Seq<Seq<char>>, acc: Seq<Seq<char>>, limit: nat)
    requires
        acc.no_duplicates(),
        acc.len() <= limit,
    ensures
        gather(s, acc, limit).no_duplicates(),
        gather(s, acc, limit).len() <= limit,
    decreases s.len(),
{
    if acc.len() < limit && s.len() > 0 {
        if !acc.contains(s[0]) {
            let next = acc.push(s[0]);
            assert forall|i: int, j: int| 0 <= i < j < next.len() implies next[i] != next[j] by {
                if j == acc.len() {
                    assert(next[i] == acc[i]);
                }
            }
            lemma_gather(s.drop_first(), next, limit);
        } else {
            lemma_gather(s.drop_first(), acc, limit);
        }
    }
}

/// The strip never shows a reaction twice, and never more than `PAGE`.
pub proof fn law_strip_holds_each_name_once(
    r: Seq<Seq<char>>,
    on_message: Seq<Seq<char>>,
    favorites: Seq<(Seq<char>, nat)>,
)
    requires
        is_strip(r, on_message, favorites),
    ensures
        r.no_duplicates(),
        r.len() <= PAGE,
{
    let order = choose|order: Seq<usize>|
        sorts(use_keys(favorites), order) && r == gather(
            on_message + order.map_values(|i: usize| favorites[i as int].0) + starters(),
            Seq::empty(),
            PAGE as nat,
        );
    lemma_gather(
        on_message + order.map_values(|i: usize| favorites[i as int].0) + starters(),
        Seq::empty(),
        PAGE as nat,
    );
}

/// Whether `acc` already holds `t`.
fn has_text(acc: &Vec<String>, t: &[char]) -> (r: bool)
    ensures
        r == texts(acc@).contains(t@),
{
    let mut i: usize = 0;
    while i < acc.len()
        invariant
            i <= acc@.len(),
            forall|j: int| 0 <= j < i ==> texts(acc@)[j] != t@,
        decreases acc.len() - i,
    {
        let c = chars_of(acc[i].as_str());
        if crate::text::same_chars(c.as_slice(), t) {
            assert(texts(acc@)[i as int] == t@);
            return true;
        }
        i += 1;
    }
    false
}

/// `acc` after offering it the texts `s`, as `gather` does.
fn gather_into(acc: &mut Vec<String>, s: &Vec<Vec<char>>)
    requires
        old(acc)@.len() <= PAGE,
    ensures
        texts(final(acc)@) == gather(s@.map_values(|t: Vec<char>| t@), texts(old(acc)@), PAGE as nat),
        final(acc)@.len() <= PAGE,
{
    let ghost sv = s@.map_values(|t: Vec<char>| t@);
    let mut i: usize = 0;
    assert(sv.skip(0) == sv);
    while i < s.len()
        invariant
            i <= s@.len(),
            sv == s@.map_values(|t: Vec<char>| t@),
            acc@.len() <= PAGE,
            gather(sv, texts(old(acc)@), PAGE as nat) == gather(sv.skip(i as int), texts(acc@), PAGE as nat),
        decreases s.len() - i,
    {
        proof {
            assert(sv.skip(i as int)[0] == s@[i as int]@);
            assert(sv.skip(i as int).drop_first() == sv.skip(i + 1));
        }
        if acc.len() == PAGE {
            proof {
                let rest = sv.skip(i as int);
                assert(gather(rest, texts(acc@), PAGE as nat) == texts(acc@));
                assert(gather(sv.skip(s@.len() as int), texts(acc@), PAGE as nat) == texts(acc@));
            }
            i = s.len();
        } else {
            if !has_text(acc, s[i].as_slice()) {
                let ghost before = acc@;
                acc.push(string_of(s[i].as_slice()));
                assert(texts(acc@) == texts(before).push(s@[i as int]@));
            }
            i += 1;
        }
    }
    assert(sv.skip(s@.len() as int).len() == 0);
}

/// The reactions already on the message, then the most used, then the starters; no repeats.
/// `favorites` holds each name once, with how often it was used.
pub fn strip(on_message: &[Reaction], favorites: &[(String, u32)]) -> (r: Vec<String>)
    ensures
        is_strip(texts(r@), reaction_names(on_message@), favorite_views(favorites@)),
{
    let ghost fav = favorite_views(favorites@);
    let mut keys: Vec<Key> = Vec::new();
    let mut i: usize = 0;
    while i < favorites.len()
        invariant
            i <= favorites@.len(),
            fav == favorite_views(favorites@),
            keys@.len() == i,
            forall|j: int| 0 <= j < i ==> #[trigger] keys@[j]@ == use_keys(fav)[j],
        decreases favorites.len() - i,
    {
        let (name, count) = (&favorites[i].0, favorites[i].1);
        keys.push(Key { rank: (u32::MAX - count) as u128, text: chars_of(name.as_str()) });
        i += 1;
    }
    assert(key_views(keys@) =~= use_keys(fav));
    let order = sorted_order(keys.as_slice());
    let mut all: Vec<Vec<char>> = Vec::new();
    let mut k: usize = 0;
    while k < on_message.len()
        invariant
            k <= on_message@.len(),
            all@.map_values(|t: Vec<char>| t@) == reaction_names(on_message@).take(k as int),
        decreases on_message.len() - k,
    {
        let ghost before = all@;
        all.push(chars_of(on_message[k].name.as_str()));
        assert(all@.map_values(|t: Vec<char>| t@) == before.map_values(|t: Vec<char>| t@).push(
            on_message@[k as int].name@,
        ));
        assert(reaction_names(on_message@).take(k + 1) == reaction_names(on_message@).take(k as int).push(
            on_message@[k as int].name@,
        ));
        k += 1;
    }
    assert(reaction_names(on_message@).take(on_message@.len() as int) == reaction_names(on_message@));
    let ghost used = order@.map_values(|i: usize| fav[i as int].0);
    let mut m: usize = 0;
    while m < order.len()
        invariant
            m <= order@.len(),
            sorts(use_keys(fav), order@),
            fav == favorite_views(favorites@),
            used == order@.map_values(|i: usize| fav[i as int].0),
            all@.map_values(|t: Vec<char>| t@) == reaction_names(on_message@) + used.take(m as int),
        decreases order.len() - m,
    {
        let ghost before = all@;
        all.push(chars_of(favorites[order[m]].0.as_str()));
        assert(all@.map_values(|t: Vec<char>| t@) == before.map_values(|t: Vec<char>| t@).push(used[m as int]));
        assert(used.take(m + 1) == used.take(m as int).push(used[m as int]));
        m += 1;
    }
    assert(used.take(used.len() as int) == used);
    let starters_list = starter_names();
    let mut n: usize = 0;
    while n < starters_list.len()
        invariant
            n <= starters_list@.len(),
            starters_list@.map_values(|s: &str| s@) == starters(),
            all@.map_values(|t: Vec<char>| t@) == reaction_names(on_message@) + used + starters().take(n as int),
        decreases starters_list.len() - n,
    {
        let ghost before = all@;
        all.push(chars_of(starters_list[n]));
        assert(starters()[n as int] == starters_list@[n as int]@);
        assert(all@.map_values(|t: Vec<char>| t@) == before.map_values(|t: Vec<char>| t@).push(
            starters()[n as int],
        ));
        assert(starters().take(n + 1) == starters().take(n as int).push(starters()[n as int]));
        n += 1;
    }
    assert(starters().take(starters().len() as int) == starters());
    let mut r: Vec<String> = Vec::new();
    assert(texts(r@) =~= Seq::<Seq<char>>::empty());
    gather_into(&mut r, &all);
    r
}

/// How a reaction reads under a message: its glyph, or its bare name for a custom emoji, then
/// how many put it there.
pub open spec fn pill_of(name: Seq<char>, count: nat) -> Seq<char> {
    (match glyph_of(name) {
        Some(g) => g,
        None => name,
    }) + " "@ + decimal(count)
}

/// The text of a reaction's pill.
pub fn pill_text(r: &Reaction) -> (t: String)
    ensures
        t@ == pill_of(r.name@, r.count as nat),
{
    let mut t = match glyph(r.name.as_str()) {
        Some(g) => g.to_owned(),
        None => copy_string(&r.name),
    };
    t.append(" ");
    push_decimal(&mut t, r.count as u64);
    t
}

/// Whether the signed-in user `me` is among those who put the reaction there.
pub fn is_mine(r: &Reaction, me: &str) -> (b: bool)
    ensures
        b == (me@.len() > 0 && texts(r.users@).contains(me@)),
{
    if me.is_empty() {
        return false;
    }
    let mut i: usize = 0;
    while i < r.users.len()
        invariant
            i <= r.users@.len(),
            me@.len() > 0,
            forall|j: int| 0 <= j < i ==> texts(r.users@)[j] != me@,
        decreases r.users.len() - i,
    {
        if crate::text::same_str(r.users[i].as_str(), me) {
            assert(texts(r.users@)[i as int] == me@);
            return true;
        }
        i += 1;
    }
    false
}

/// The row of reactions under a message: each one's pill, and whether the signed-in user `me`
/// put it there (those stand out).
pub fn pills(reactions: &[Reaction], me: &str) -> (r: Vec<(String, bool)>)
    ensures
        r@.len() == reactions@.len(),
        forall|i: int|
            0 <= i < r@.len() ==> {
                &&& (#[trigger] r@[i]).0@ == pill_of(reactions@[i].name@, reactions@[i].count as nat)
                &&& r@[i].1 == (me@.len() > 0 && texts(reactions@[i].users@).contains(me@))
            },
{
    let mut r: Vec<(String, bool)> = Vec::new();
    let mut i: usize = 0;
    while i < reactions.len()
        invariant
            i <= reactions@.len(),
            r@.len() == i,
            forall|j: int|
                0 <= j < i ==> {
                    &&& (#[trigger] r@[j]).0@ == pill_of(reactions@[j].name@, reactions@[j].count as nat)
                    &&& r@[j].1 == (me@.len() > 0 && texts(reactions@[j].users@).contains(me@))
                },
        decreases reactions.len() - i,
    {
        let text = pill_text(&reactions[i]);
        let mine = is_mine(&reactions[i], me);
        r.push((text, mine));
        i += 1;
    }
    r
}

/// The reaction a typed name or pasted glyph asks for: blanks and colons around it go, and a
/// glyph becomes its name.
pub open spec fn reaction_name_of(typed: Seq<char>) -> Seq<char> {
    let name = skip_trailing(skip_leading(trim(typed), ':'), ':');
    match name_of(name) {
        Some(n) => n,
        None => name,
    }
}

/// The name to react with for what the user typed.
pub fn reaction_name(typed: &str) -> (r: String)
    ensures
        r@ == reaction_name_of(typed@),
{
    let v = chars_of(typed);
    let t = trimmed(v.as_slice());
    let name = string_of(drop_around(t.as_slice(), ':').as_slice());
    shortcode(name.as_str()).to_owned()
}


/// Gathering keeps what was gathered before, in front.
proof fn lemma_gather_keeps(s: Seq<Seq<char>>, acc: Seq<Seq<char>>, limit: nat)
    ensures
        gather(s, acc, limit).len() >= acc.len(),
        forall|k: int| 0 <= k < acc.len() ==> #[trigger] gather(s, acc, limit)[k] == acc[k],
    decreases s.len(),
{
    if acc.len() < limit && s.len() > 0 {
        if acc.contains(s[0]) {
            lemma_gather_keeps(s.drop_first(), acc, limit);
        } else {
            let next = acc.push(s[0]);
            lemma_gather_keeps(s.drop_first(), next, limit);
            assert forall|k: int| 0 <= k < acc.len() implies #[trigger] gather(s, acc, limit)[k] == acc[k] by {
                assert(next[k] == acc[k]);
            }
        }
    }
}

/// When a text first offered at `q` is gathered, and was not there before, the text offered
/// earlier at `p` is gathered too, ahead of it.
proof fn lemma_gather_order(s: Seq<Seq<char>>, acc: Seq<Seq<char>>, limit: nat, p: int, q: int)
    requires
        0 <= p < q < s.len(),
        forall|t: int| 0 <= t < q ==> #[trigger] s[t] != s[q],
        gather(s, acc, limit).contains(s[q]),
        !acc.contains(s[q]),
    ensures
        exists|a: int, b: int|
            0 <= a < b < gather(s, acc, limit).len() && gather(s, acc, limit)[a] == s[p] && gather(
                s,
                acc,
                limit,
            )[b] == s[q],
    decreases s.len(),
{
    let g = gather(s, acc, limit);
    if acc.len() >= limit {
        assert(g == acc);
    } else {
        let y = s[q];
        let b = choose|b: int| 0 <= b < g.len() && g[b] == y;
        assert(s.drop_first()[q - 1] == y);
        if p == 0 {
            let x = s[0];
            if acc.contains(x) {
                let a = choose|a: int| 0 <= a < acc.len() && acc[a] == x;
                lemma_gather_keeps(s.drop_first(), acc, limit);
                assert(g[a] == x);
                if b < acc.len() {
                    assert(g[b] == acc[b]);
                }
                assert(a < b);
            } else {
                let next = acc.push(x);
                lemma_gather_keeps(s.drop_first(), next, limit);
                let a = acc.len() as int;
                assert(next[a] == x);
                assert(g[a] == x);
                if b <= a {
                    assert(g[b] == next[b]);
                    if b < a {
                        assert(next[b] == acc[b]);
                    }
                }
                assert(a < b);
            }
        } else {
            let rest = s.drop_first();
            assert forall|t: int| 0 <= t < q - 1 implies #[trigger] rest[t] != rest[q - 1] by {
                assert(rest[t] == s[t + 1]);
            }
            assert(rest[p - 1] == s[p]);
            if acc.contains(s[0]) {
                lemma_gather_order(rest, acc, limit, p - 1, q - 1);
            } else {
                let next = acc.push(s[0]);
                assert(s[0] != y);
                assert(!next.contains(y)) by {
                    if next.contains(y) {
                        let k = choose|k: int| 0 <= k < next.len() && next[k] == y;
                        if k < acc.len() {
                            assert(acc[k] == y);
                        }
                    }
                }
                lemma_gather_order(rest, next, limit, p - 1, q - 1);
            }
        }
    }
}

/// Among favorites not already on the message, one used more often comes first on the strip:
/// whenever a less used one shows, the more used one shows too, ahead of it.
pub proof fn law_strip_puts_the_most_used_first(
    r: Seq<Seq<char>>,
    on_message: Seq<Seq<char>>,
    favorites: Seq<(Seq<char>, nat)>,
    i: int,
    j: int,
)
    requires
        is_strip(r, on_message, favorites),
        forall|k: int| 0 <= k < favorites.len() ==> #[trigger] favorites[k].1 <= u32::MAX,
        forall|k: int, l: int| 0 <= k < l < favorites.len() ==> #[trigger] favorites[k].0 != #[trigger] favorites[l].0,
        0 <= i < favorites.len(),
        0 <= j < favorites.len(),
        favorites[i].1 > favorites[j].1,
        !on_message.contains(favorites[i].0),
        !on_message.contains(favorites[j].0),
        r.contains(favorites[j].0),
    ensures
        exists|a: int, b: int| 0 <= a < b < r.len() && r[a] == favorites[i].0 && r[b] == favorites[j].0,
{
    let keys = use_keys(favorites);
    let order = choose|order: Seq<usize>|
        sorts(keys, order) && r == gather(
            on_message + order.map_values(|k: usize| favorites[k as int].0) + starters(),
            Seq::empty(),
            PAGE as nat,
        );
    let used = order.map_values(|k: usize| favorites[k as int].0);
    let s = on_message + used + starters();
    assert(crate::order::lists(order, i));
    assert(crate::order::lists(order, j));
    let ki = choose|k: int| 0 <= k < order.len() && order[k] == i;
    let kj = choose|k: int| 0 <= k < order.len() && order[k] == j;
    assert(ki != kj);
    if kj < ki {
        assert(crate::order::entry_before(keys, order[kj] as int, order[ki] as int));
        assert(keys[i].0 < keys[j].0);
        assert(false);
    }
    let n = on_message.len() as int;
    let p = n + ki;
    let q = n + kj;
    assert(s[p] == favorites[i].0);
    assert(s[q] == favorites[j].0);
    assert forall|t: int| 0 <= t < q implies #[trigger] s[t] != s[q] by {
        if t < n {
            assert(s[t] == on_message[t]);
        } else {
            assert(s[t] == favorites[order[t - n] as int].0);
            assert(order[t - n] != order[kj]);
            let o = order[t - n] as int;
            if o < j {
                assert(favorites[o].0 != favorites[j].0);
            } else if o > j {
                assert(favorites[j].0 != favorites[o].0);
            }
        }
    }
    lemma_gather_order(s, Seq::empty(), PAGE as nat, p, q);
}

} // verus!
