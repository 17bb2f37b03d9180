//! What just happened, shown over the status line until it ends, and who is typing in the
//! open conversation. Times are milliseconds since the app started.
use crate::order::{
    chars_before, entry_before, increasing, key_views, lemma_increasing_unique, lists, sorted_order, sorts,
    Key,
};
use crate::text::{chars_of, copy_string, decimal, push_decimal, same_str};
use vstd::prelude::*;

verus! {

/// How long a toast stays, in milliseconds.
pub const TOAST_LIFE_MS: u64 = 2000;

/// How long someone shows as typing after their last keystroke, in milliseconds.
pub const TYPING_LIFE_MS: u64 = 5000;

/// When a toast ends: at a time, or at the next key.
#[derive(Clone, Copy, Debug, PartialEq, Eq, Structural)]
pub enum Until {
    Time(u64),
    NextKey,
}

/// Something that just happened, shown over the status until it ends.
#[derive(Debug, PartialEq, Eq)]
pub struct Toast {
    pub text: String,
    pub until: Until,
}

impl Toast {
    /// A notice that goes by itself after `TOAST_LIFE_MS`.
    pub fn timed(text: String, now: u64) -> (t: Self)
        requires
            now + TOAST_LIFE_MS <= u64::MAX,
        ensures
            t.text@ == text@,
            t.until == Until::Time((now + TOAST_LIFE_MS) as u64),
    {
        Toast { text, until: Until::Time(now + TOAST_LIFE_MS) }
    }

    /// An error, marked `✗`, that stays until the next key.
    pub fn failure(error: &str) -> (t: Self)
        ensures
            t.text@ == "✗ "@ + error@,
            t.until == Until::NextKey,
    {
        let mut text = "✗ ".to_owned();
        text.append(error);
        Toast { text, until: Until::NextKey }
    }

    /// Whether the toast still shows at `now`.
    pub fn live(&self, now: u64) -> (r: bool)
        ensures
            r == match self.until {
                Until::Time(end) => now < end,
                Until::NextKey => true,
            },
    {
        match self.until {
            Until::Time(end) => now < end,
            Until::NextKey => true,
        }
    }
}

/// What a key leaves of the toast: an error goes, a timed notice stays until its time.
pub fn after_key(toast: Option<Toast>) -> (r: Option<Toast>)
    ensures
        match toast {
            Some(t) => if t.until == Until::NextKey {
                r is None
            } else {
                r == Some(t)
            },
            None => r is None,
        },
{
    match toast {
        Some(t) => if t.until == Until::NextKey {
            None
        } else {
            Some(t)
        },
        None => None,
    }
}

/// Where the user is, as the status line tells it: the search results while searching, the
/// open conversation, or how many there are to pick from.
pub open spec fn location_text(results: Option<nat>, current: Option<Seq<char>>, channels: nat) -> Seq<char> {
    match results {
        Some(n) => decimal(n) + " results · enter to jump · esc to close"@,
        None => match current {
            Some(label) => label,
            None => if channels == 0 {
                "loading channels…"@
            } else {
                decimal(channels) + " conversations · ? for help"@
            },
        },
    }
}

/// Where the user is, rebuilt on every frame so nothing can leave it stale: `results` counts
/// the search results while a search is open, `current` names the open conversation.
pub fn location(results: Option<usize>, current: Option<&str>, channels: usize) -> (r: String)
    ensures
        r@ == location_text(
            match results {
                Some(n) => Some(n as nat),
                None => None,
            },
            match current {
                Some(c) => Some(c@),
                None => None,
            },
            channels as nat,
        ),
{
    match results {
        Some(n) => {
            let mut s = String::new();
            push_decimal(&mut s, n as u64);
            s.append(" results · enter to jump · esc to close");
            s
        },
        None => match current {
            Some(label) => label.to_owned(),
            None => if channels == 0 {
                "loading channels…".to_owned()
            } else {
                let mut s = String::new();
                push_decimal(&mut s, channels as u64);
                s.append(" conversations · ? for help");
                s
            },
        },
    }
}

/// The status line at `now`: the toast while it shows, where the user is otherwise.
pub fn status_line(toast: Option<&Toast>, now: u64, location: String) -> (r: String)
    ensures
        r@ == match toast {
            Some(t) => if (match t.until {
                Until::Time(end) => now < end,
                Until::NextKey => true,
            }) {
                t.text@
            } else {
                location@
            },
            None => location@,
        },
{
    match toast {
        Some(t) => if t.live(now) {
            copy_string(&t.text)
        } else {
            location
        },
        None => location,
    }
}

/// Who is typing in the open conversation, each until when.
pub struct Typing {
    typists: Vec<(String, u64)>,
}

/// The typists as names and times.
pub open spec fn typist_views(v: Seq<(String, u64)>) -> Seq<(Seq<char>, nat)> {
    v.map_values(|t: (String, u64)| (t.0@, t.1 as nat))
}

/// The first typist from position `i` on named `user`.
pub open spec fn typist_at(ts: Seq<(Seq<char>, nat)>, user: Seq<char>, i: nat) -> Option<nat>
    decreases ts.len() - i,
{
    if i >= ts.len() {
        None
    } else if ts[i as int].0 == user {
        Some(i)
    } else {
        typist_at(ts, user, i + 1)
    }
}

/// The typists after `user` types, until `until`: their time moves, or they join at the end.
pub open spec fn marked(ts: Seq<(Seq<char>, nat)>, user: Seq<char>, until: nat) -> Seq<(Seq<char>, nat)> {
    match typist_at(ts, user, 0) {
        Some(i) => ts.update(i as int, (user, until)),
        None => ts.push((user, until)),
    }
}

/// Whether no one appears twice among the typists.
pub open spec fn distinct_names(ts: Seq<(Seq<char>, nat)>) -> bool {
    forall|i: int, j: int| 0 <= i < j < ts.len() ==> #[trigger] ts[i].0 != #[trigger] ts[j].0
}

/// Where `typist_at` points, the name is found, and nowhere before it.
proof fn lemma_typist_at(ts: Seq<(Seq<char>, nat)>, user: Seq<char>, i: nat)
    ensures
        typist_at(ts, user, i) is None ==> forall|j: int| i <= j < ts.len() ==> ts[j].0 != user,
        typist_at(ts, user, i) matches Some(k) ==> i <= k < ts.len() && ts[k as int].0 == user,
    decreases ts.len() - i,
{
    if i < ts.len() && ts[i as int].0 != user {
        lemma_typist_at(ts, user, i + 1);
    }
}

/// Typing keeps each person once.
pub proof fn law_marking_keeps_typists_distinct(ts: Seq<(Seq<char>, nat)>, user: Seq<char>, until: nat)
    requires
        distinct_names(ts),
    ensures
        distinct_names(marked(ts, user, until)),
{
    lemma_typist_at(ts, user, 0);
    let m = marked(ts, user, until);
    assert forall|i: int, j: int| 0 <= i < j < m.len() implies #[trigger] m[i].0 != #[trigger] m[j].0 by {
        if typist_at(ts, user, 0) is None {
            if j == ts.len() {
                assert(ts[i].0 != user);
            } else {
                assert(m[i] == ts[i] && m[j] == ts[j]);
            }
        } else {
            let k = typist_at(ts, user, 0)->0 as int;
            if i == k {
                assert(ts[k].0 == user);
            } else if j == k {
                assert(ts[k].0 == user);
            }
        }
    }
}

/// Those still typing are among the typists, so they too appear once each.
pub proof fn lemma_typing_at_distinct(ts: Seq<(Seq<char>, nat)>, now: nat)
    requires
        distinct_names(ts),
    ensures
        typing_at(ts, now).no_duplicates(),
        forall|x: Seq<char>| #[trigger] typing_at(ts, now).contains(x) ==> exists|i: int| 0 <= i < ts.len() && ts[i].0 == x,
    decreases ts.len(),
{
    if ts.len() > 0 {
        let rest = ts.drop_last();
        assert forall|i: int, j: int| 0 <= i < j < rest.len() implies #[trigger] rest[i].0 != #[trigger] rest[j].0 by {
            assert(rest[i] == ts[i] && rest[j] == ts[j]);
        }
        lemma_typing_at_distinct(rest, now);
        let before = typing_at(rest, now);
        if now < ts.last().1 {
            let n = ts.last().0;
            assert(!before.contains(n)) by {
                if before.contains(n) {
                    let i = choose|i: int| 0 <= i < rest.len() && rest[i].0 == n;
                    assert(ts[i].0 == ts[ts.len() - 1].0);
                }
            }
            assert forall|x: Seq<char>| #[trigger] typing_at(ts, now).contains(x) implies exists|i: int|
                0 <= i < ts.len() && ts[i].0 == x by {
                if x != n {
                    assert(before.contains(x));
                    let i = choose|i: int| 0 <= i < rest.len() && rest[i].0 == x;
                    assert(ts[i].0 == x);
                } else {
                    assert(ts[ts.len() - 1].0 == x);
                }
            }
        } else {
            assert forall|x: Seq<char>| #[trigger] typing_at(ts, now).contains(x) implies exists|i: int|
                0 <= i < ts.len() && ts[i].0 == x by {
                let i = choose|i: int| 0 <= i < rest.len() && rest[i].0 == x;
                assert(ts[i].0 == x);
            }
        }
    }
}

/// The names of those still typing at `now`, in the order they came.
pub open spec fn typing_at(ts: Seq<(Seq<char>, nat)>, now: nat) -> Seq<Seq<char>>
    decreases ts.len(),
{
    if ts.len() == 0 {
        Seq::empty()
    } else if now < ts.last().1 {
        typing_at(ts.drop_last(), now).push(ts.last().0)
    } else {
        typing_at(ts.drop_last(), now)
    }
}

/// The line for typists `names`, already in order: one or two by name, more by count.
pub open spec fn typing_text(names: Seq<Seq<char>>) -> Option<Seq<char>> {
    if names.len() == 0 {
        None
    } else if names.len() == 1 {
        Some(names[0] + " is typing···"@)
    } else if names.len() == 2 {
        Some(names[0] + " and "@ + names[1] + " are typing···"@)
    } else {
        Some(decimal(names.len()) + " people are typing···"@)
    }
}

/// The keys that sort names alphabetically.
pub open spec fn name_keys(names: Seq<Seq<char>>) -> Seq<(nat, Seq<char>)> {
    names.map_values(|n: Seq<char>| (0nat, n))
}

/// The names at the positions `order` lists.
pub open spec fn picked(names: Seq<Seq<char>>, order: Seq<usize>) -> Seq<Seq<char>> {
    order.map_values(|i: usize| names[i as int])
}

/// The typing line for `names` at any order: the names sorted, then told.
pub open spec fn typing_line_of(names: Seq<Seq<char>>, r: Option<Seq<char>>) -> bool {
    exists|order: Seq<usize>|
        #![trigger sorts(name_keys(names), order)]
        sorts(name_keys(names), order) && r == typing_text(picked(names, order))
}

impl Typing {
    /// The typists, with until when each shows.
    pub closed spec fn view(&self) -> Seq<(Seq<char>, nat)> {
        typist_views(self.typists@)
    }

    /// Nobody typing.
    pub fn new() -> (t: Self)
        ensures
            t.view() == Seq::<(Seq<char>, nat)>::empty(),
    {
        let t = Typing { typists: Vec::new() };
        assert(t.view() =~= Seq::<(Seq<char>, nat)>::empty());
        t
    }

    /// Forgets every typist, as when another conversation opens.
    pub fn clear(&mut self)
        ensures
            final(self).view() == Seq::<(Seq<char>, nat)>::empty(),
    {
        self.typists = Vec::new();
        assert(self.view() =~= Seq::<(Seq<char>, nat)>::empty());
    }

    /// `user` typed at `now`: they show for `TYPING_LIFE_MS` from now.
    pub fn mark(&mut self, user: &str, now: u64)
        requires
            now + TYPING_LIFE_MS <= u64::MAX,
        ensures
            final(self).view() == marked(old(self).view(), user@, (now + TYPING_LIFE_MS) as nat),
    {
        let until = now + TYPING_LIFE_MS;
        let ghost ts = self.view();
        let mut i: usize = 0;
        while i < self.typists.len()
            invariant
                i <= self.typists@.len(),
                ts == typist_views(self.typists@),
                ts == old(self).view(),
                until == now + TYPING_LIFE_MS,
                typist_at(ts, user@, 0) == typist_at(ts, user@, i as nat),
            decreases self.typists.len() - i,
        {
            assert(ts[i as int].0 == self.typists@[i as int].0@);
            if same_str(self.typists[i].0.as_str(), user) {
                assert(typist_at(ts, user@, i as nat) == Some(i as nat));
                self.typists.set(i, (user.to_owned(), until));
                assert(self.view() =~= ts.update(i as int, (user@, until as nat)));
                return;
            }
            i += 1;
        }
        self.typists.push((user.to_owned(), until));
        assert(self.view() =~= ts.push((user@, until as nat)));
    }

    /// Who is typing at `now`, as one line: `U2 is typing···`, `U2 and U3 are typing···` (by
    /// name, whatever order they came in), `3 people are typing···`; nothing when nobody is.
    pub fn line(&self, now: u64) -> (r: Option<String>)
        ensures
            typing_line_of(
                typing_at(self.view(), now as nat),
                match r {
                    Some(s) => Some(s@),
                    None => None,
                },
            ),
    {
        let ghost ts = self.view();
        let mut live: Vec<String> = Vec::new();
        let mut i: usize = 0;
        while i < self.typists.len()
            invariant
                i <= self.typists@.len(),
                ts == typist_views(self.typists@),
                live@.map_values(|s: String| s@) == typing_at(ts.take(i as int), now as nat),
            decreases self.typists.len() - i,
        {
            proof {
                let t = ts.take(i + 1);
                assert(t.drop_last() == ts.take(i as int));
                assert(t.last() == (self.typists@[i as int].0@, self.typists@[i as int].1 as nat));
            }
            if now < self.typists[i].1 {
                let ghost before = live@;
                live.push(copy_string(&self.typists[i].0));
                assert(live@.map_values(|s: String| s@) == before.map_values(|s: String| s@).push(
                    self.typists@[i as int].0@,
                ));
            }
            i += 1;
        }
        assert(ts.take(ts.len() as int) == ts);
        let ghost names = live@.map_values(|s: String| s@);
        let mut keys: Vec<Key> = Vec::new();
        let mut k: usize = 0;
        while k < live.len()
            invariant
                k <= live@.len(),
                names == live@.map_values(|s: String| s@),
                keys@.len() == k,
                forall|j: int| 0 <= j < k ==> #[trigger] keys@[j]@ == name_keys(names)[j],
            decreases live.len() - k,
        {
            keys.push(Key { rank: 0, text: chars_of(live[k].as_str()) });
            k += 1;
        }
        assert(key_views(keys@) =~= name_keys(names));
        let order = sorted_order(keys.as_slice());
        let ghost sorted = picked(names, order@);
        let n = order.len();
        let r = if n == 0 {
            None
        } else if n == 1 {
            let mut s = copy_string(&live[order[0]]);
            s.append(" is typing···");
            Some(s)
        } else if n == 2 {
            let mut s = copy_string(&live[order[0]]);
            s.append(" and ");
            s.append(live[order[1]].as_str());
            s.append(" are typing···");
            Some(s)
        } else {
            let mut s = String::new();
            push_decimal(&mut s, n as u64);
            s.append(" people are typing···");
            Some(s)
        };
        proof {
            assert(sorts(name_keys(names), order@));
            if n >= 1 {
                assert(sorted[0] == names[order@[0] as int]);
            }
            if n >= 2 {
                assert(sorted[1] == names[order@[1] as int]);
            }
            assert(Seq::<char>::empty() + decimal(n as nat) == decimal(n as nat));
        }
        r
    }
}

/// Sorting distinct names by `sorts` gives them in increasing order, each once.
proof fn lemma_sorted_names(names: Seq<Seq<char>>, order: Seq<usize>)
    requires
        names.no_duplicates(),
        sorts(name_keys(names), order),
    ensures
        increasing(picked(names, order)),
        forall|x: Seq<char>| #[trigger] picked(names, order).contains(x) <==> names.contains(x),
{
    let sorted = picked(names, order);
    let keys = name_keys(names);
    assert forall|k: int, l: int| 0 <= k < l < sorted.len() implies chars_before(
        #[trigger] sorted[k],
        #[trigger] sorted[l],
    ) by {
        let (a, b) = (order[k] as int, order[l] as int);
        assert(entry_before(keys, a, b));
        assert(a != b);
        assert(keys[a] == (0nat, names[a]) && keys[b] == (0nat, names[b]));
    }
    assert forall|x: Seq<char>| #[trigger] sorted.contains(x) <==> names.contains(x) by {
        if sorted.contains(x) {
            let k = choose|k: int| 0 <= k < sorted.len() && sorted[k] == x;
            assert(names[order[k] as int] == x);
        }
        if names.contains(x) {
            let j = choose|j: int| 0 <= j < names.len() && names[j] == x;
            assert(lists(order, j));
            let k = choose|k: int| 0 <= k < order.len() && order[k] == j;
            assert(sorted[k] == x);
        }
    }
}

/// Several typists read as one line whatever the order they started typing in: the same
/// people give the same line.
pub proof fn law_typing_line_ignores_arrival_order(
    first: Seq<Seq<char>>,
    second: Seq<Seq<char>>,
    line1: Option<Seq<char>>,
    line2: Option<Seq<char>>,
)
    requires
        first.no_duplicates(),
        second.no_duplicates(),
        forall|x: Seq<char>| first.contains(x) <==> second.contains(x),
        typing_line_of(first, line1),
        typing_line_of(second, line2),
    ensures
        line1 == line2,
{
    let o1 = choose|o: Seq<usize>| sorts(name_keys(first), o) && line1 == typing_text(picked(first, o));
    let o2 = choose|o: Seq<usize>| sorts(name_keys(second), o) && line2 == typing_text(picked(second, o));
    lemma_sorted_names(first, o1);
    lemma_sorted_names(second, o2);
    let s1 = picked(first, o1);
    let s2 = picked(second, o2);
    assert forall|x: Seq<char>| s1.contains(x) <==> s2.contains(x) by {
        assert(s1.contains(x) <==> first.contains(x));
        assert(s2.contains(x) <==> second.contains(x));
    }
    lemma_increasing_unique(s1, s2);
}

/// What is on screen, as far as waking the event loop goes.
#[derive(Clone, Copy, Debug)]
pub struct Screen {
    pub firehose: bool,
    pub jump: bool,
    pub help: bool,
    /// The inbox, when open: whether it is empty, and whether it is loading.
    pub inbox: Option<(bool, bool)>,
    /// Something is being fetched.
    pub loading: bool,
    /// Search results, when shown: whether there are none.
    pub search: Option<bool>,
    pub no_messages: bool,
    /// A picture is being fetched.
    pub pictures_loading: bool,
}

/// Whether an empty state (with its animation) shows: an empty inbox, a search without
/// results, or a conversation without messages, once nothing is loading and nothing covers it.
pub open spec fn empty_state(s: Screen) -> bool {
    if s.firehose || s.jump || s.help {
        false
    } else {
        match s.inbox {
            Some((empty, loading)) => empty && !loading,
            None => !s.loading && match s.search {
                Some(none) => none,
                None => s.no_messages,
            },
        }
    }
}

/// Whether the screen changes with time alone: a timed notice is showing, or an empty state.
pub open spec fn animates(s: Screen, toast: Option<Toast>, now: u64) -> bool {
    (toast matches Some(t) && t.until matches Until::Time(end) && now < end) || empty_state(s)
}

/// How long the event loop may sleep, in milliseconds: a spinner turns while anything loads,
/// an animation steps while the screen animates, and nothing wakes it otherwise.
pub open spec fn wake_in(s: Screen, toast: Option<Toast>, now: u64) -> Option<u128> {
    let spinning = s.loading || (s.inbox matches Some((_, loading)) && loading) || s.pictures_loading;
    if spinning {
        Some(crate::motion::SPINNER_FRAME_MS)
    } else if animates(s, toast, now) {
        Some(crate::motion::FRAME_MS)
    } else {
        None
    }
}

/// Whether an empty state shows.
pub fn empty_state_visible(s: Screen) -> (r: bool)
    ensures
        r == empty_state(s),
{
    if s.firehose || s.jump || s.help {
        return false;
    }
    match s.inbox {
        Some((empty, loading)) => empty && !loading,
        None => !s.loading && match s.search {
            Some(none) => none,
            None => s.no_messages,
        },
    }
}

/// Whether the screen changes with time alone.
pub fn animating(s: Screen, toast: Option<&Toast>, now: u64) -> (r: bool)
    ensures
        r == animates(
            s,
            match toast {
                Some(t) => Some(*t),
                None => None,
            },
            now,
        ),
{
    let timed = match toast {
        Some(t) => match t.until {
            Until::Time(end) => now < end,
            Until::NextKey => false,
        },
        None => false,
    };
    timed || empty_state_visible(s)
}

/// How long the event loop may sleep before the screen needs a new frame, in milliseconds;
/// `None` when nothing moves.
pub fn redraw_in(s: Screen, toast: Option<&Toast>, now: u64) -> (r: Option<u128>)
    ensures
        r == wake_in(
            s,
            match toast {
                Some(t) => Some(*t),
                None => None,
            },
            now,
        ),
{
    let inbox_loading = match s.inbox {
        Some((_, loading)) => loading,
        None => false,
    };
    if s.loading || inbox_loading || s.pictures_loading {
        Some(crate::motion::SPINNER_FRAME_MS)
    } else if animating(s, toast, now) {
        Some(crate::motion::FRAME_MS)
    } else {
        None
    }
}

} // verus!
