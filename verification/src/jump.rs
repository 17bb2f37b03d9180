//! `ctrl-k`: jump to a channel, a person or a followed thread by typing part of its name;
//! a query that starts with `>` searches Slack instead.
use crate::fuzzy::{rank, ranked};
use crate::steps::{move_selection, moved};
use crate::text::{chars_of, copy_string, push_char, string_of, trim};
use vstd::prelude::*;

verus! {

/// Where a candidate leads.
#[derive(Debug, PartialEq)]
pub enum Target {
    Channel(String),
    Person(String),
    Thread { channel: String, ts: String },
}

/// A target as texts.
pub enum TargetView {
    Channel(Seq<char>),
    Person(Seq<char>),
    Thread { channel: Seq<char>, ts: Seq<char> },
}

impl View for Target {
    type V = TargetView;

    open spec fn view(&self) -> TargetView {
        match self {
            Target::Channel(id) => TargetView::Channel(id@),
            Target::Person(id) => TargetView::Person(id@),
            Target::Thread { channel, ts } => TargetView::Thread { channel: channel@, ts: ts@ },
        }
    }
}

impl Clone for Target {
    fn clone(&self) -> (r: Self)
        ensures
            r@ == self@,
    {
        match self {
            Target::Channel(id) => Target::Channel(copy_string(id)),
            Target::Person(id) => Target::Person(copy_string(id)),
            Target::Thread { channel, ts } => Target::Thread {
                channel: copy_string(channel),
                ts: copy_string(ts),
            },
        }
    }
}

/// One line of the jump list: what it reads and where it leads.
#[derive(Debug, PartialEq)]
pub struct Candidate {
    pub label: String,
    pub target: Target,
}

impl View for Candidate {
    type V = (Seq<char>, TargetView);

    open spec fn view(&self) -> (Seq<char>, TargetView) {
        (self.label@, self.target@)
    }
}

impl Clone for Candidate {
    fn clone(&self) -> (r: Self)
        ensures
            r@ == self@,
    {
        Candidate { label: copy_string(&self.label), target: self.target.clone() }
    }
}

/// How many matches the list shows.
pub const MAX_SHOWN: usize = 12;

/// The first `MAX_SHOWN` of `s`.
pub open spec fn shown<T>(s: Seq<T>) -> Seq<T> {
    if s.len() <= MAX_SHOWN {
        s
    } else {
        s.take(MAX_SHOWN as int)
    }
}

/// The jump list: the query typed so far, the selected row and everything it can reach.
#[derive(Debug)]
pub struct Jump {
    pub query: String,
    pub selected: usize,
    pub channels: Vec<Candidate>,
    pub people: Vec<Candidate>,
    pub threads: Vec<Candidate>,
}

impl Default for Jump {
    /// An empty list with nothing typed.
    fn default() -> (j: Self)
        ensures
            j.query@.len() == 0,
            j.selected == 0,
            j.everything().len() == 0,
    {
        let j = Jump {
            query: String::new(),
            selected: 0,
            channels: Vec::new(),
            people: Vec::new(),
            threads: Vec::new(),
        };
        assert(j.everything() =~= Seq::<(Seq<char>, TargetView)>::empty());
        j
    }
}

/// Whether a query asks for a Slack search rather than a jump.
pub open spec fn searching(query: Seq<char>) -> bool {
    query.len() > 0 && query[0] == '>'
}

/// What the list shows for `query` among `all`: nothing while searching, everything in order
/// for an empty query, the best matches first otherwise; twelve rows at most.
pub open spec fn matching(query: Seq<char>, all: Seq<(Seq<char>, TargetView)>) -> Seq<
    (Seq<char>, TargetView),
> {
    if searching(query) {
        Seq::empty()
    } else if query.len() == 0 {
        shown(all)
    } else {
        shown(ranked(query, all.map_values(|c: (Seq<char>, TargetView)| c.0)).map_values(|i: int| all[i]))
    }
}

impl Jump {
    /// Channels, then people, then threads.
    pub open spec fn everything(&self) -> Seq<(Seq<char>, TargetView)> {
        (self.channels@ + self.people@ + self.threads@).map_values(|c: Candidate| c@)
    }

    /// Whether the query asks for a Slack search.
    pub fn is_search(&self) -> (r: bool)
        ensures
            r == searching(self.query@),
    {
        let q = chars_of(self.query.as_str());
        q.len() > 0 && q[0] == '>'
    }

    fn all(&self) -> (r: Vec<Candidate>)
        ensures
            r@.map_values(|c: Candidate| c@) == self.everything(),
    {
        let mut r: Vec<Candidate> = Vec::new();
        let ghost joined = self.channels@ + self.people@ + self.threads@;
        let mut i: usize = 0;
        while i < self.channels.len()
            invariant
                i <= self.channels@.len(),
                joined == self.channels@ + self.people@ + self.threads@,
                r@.len() == i,
                forall|k: int| 0 <= k < r@.len() ==> #[trigger] r@[k]@ == joined[k]@,
            decreases self.channels.len() - i,
        {
            r.push(self.channels[i].clone());
            i += 1;
        }
        let mut i: usize = 0;
        while i < self.people.len()
            invariant
                i <= self.people@.len(),
                joined == self.channels@ + self.people@ + self.threads@,
                r@.len() == self.channels@.len() + i,
                forall|k: int| 0 <= k < r@.len() ==> #[trigger] r@[k]@ == joined[k]@,
            decreases self.people.len() - i,
        {
            r.push(self.people[i].clone());
            i += 1;
        }
        let mut i: usize = 0;
        while i < self.threads.len()
            invariant
                i <= self.threads@.len(),
                joined == self.channels@ + self.people@ + self.threads@,
                r@.len() == self.channels@.len() + self.people@.len() + i,
                forall|k: int| 0 <= k < r@.len() ==> #[trigger] r@[k]@ == joined[k]@,
            decreases self.threads.len() - i,
        {
            r.push(self.threads[i].clone());
            i += 1;
        }
        assert(r@.map_values(|c: Candidate| c@) =~= self.everything());
        r
    }

    /// Best matches for the query, channels first on an empty query.
    pub fn matches(&self) -> (r: Vec<Candidate>)
        ensures
            r@.map_values(|c: Candidate| c@) == matching(self.query@, self.everything()),
    {
        if self.is_search() {
            let r: Vec<Candidate> = Vec::new();
            assert(r@.map_values(|c: Candidate| c@) =~= Seq::<(Seq<char>, TargetView)>::empty());
            return r;
        }
        let all = self.all();
        let ghost views = all@.map_values(|c: Candidate| c@);
        let q = chars_of(self.query.as_str());
        let mut r: Vec<Candidate> = Vec::new();
        if q.len() == 0 {
            let keep = if all.len() < MAX_SHOWN {
                all.len()
            } else {
                MAX_SHOWN
            };
            let mut i: usize = 0;
            while i < keep
                invariant
                    i <= keep <= all@.len(),
                    keep == all@.len() || keep == MAX_SHOWN,
                    r@.len() == i,
                    forall|k: int| 0 <= k < i ==> #[trigger] r@[k]@ == all@[k]@,
                decreases keep - i,
            {
                r.push(all[i].clone());
                i += 1;
            }
            assert(r@.map_values(|c: Candidate| c@) =~= matching(self.query@, views));
            return r;
        }
        let mut labels: Vec<Vec<char>> = Vec::new();
        let mut i: usize = 0;
        while i < all.len()
            invariant
                i <= all@.len(),
                labels@.len() == i,
                forall|k: int| 0 <= k < i ==> #[trigger] labels@[k]@ == all@[k].label@,
            decreases all.len() - i,
        {
            labels.push(chars_of(all[i].label.as_str()));
            i += 1;
        }
        let ghost names = views.map_values(|c: (Seq<char>, TargetView)| c.0);
        proof {
            assert(labels@.map_values(|l: Vec<char>| l@) =~= names);
        }
        let order = rank(q.as_slice(), &labels);
        let ghost ranks = ranked(self.query@, names);
        proof {
            crate::fuzzy::lemma_ranked_in_bounds(self.query@, names);
        }
        let keep = if order.len() < MAX_SHOWN {
            order.len()
        } else {
            MAX_SHOWN
        };
        let mut i: usize = 0;
        while i < keep
            invariant
                i <= keep <= order@.len(),
                keep == order@.len() || keep == MAX_SHOWN,
                order@.map_values(|i: usize| i as int) == ranks,
                names.len() == all@.len(),
                forall|k: int| 0 <= k < ranks.len() ==> 0 <= #[trigger] ranks[k] < names.len(),
                views == all@.map_values(|c: Candidate| c@),
                r@.len() == i,
                forall|k: int| 0 <= k < i ==> #[trigger] r@[k]@ == views[ranks[k]],
            decreases keep - i,
        {
            proof {
                assert(order@.map_values(|i: usize| i as int)[i as int] == order@[i as int] as int);
            }
            r.push(all[order[i]].clone());
            i += 1;
        }
        assert(r@.map_values(|c: Candidate| c@) =~= matching(self.query@, views));
        r
    }

    /// The match the selection is on, if the list reaches that far.
    pub fn selected_candidate(&self) -> (r: Option<Candidate>)
        ensures
            ({
                let m = matching(self.query@, self.everything());
                match r {
                    Some(c) => self.selected < m.len() && c@ == m[self.selected as int],
                    None => self.selected >= m.len(),
                }
            }),
    {
        let m = self.matches();
        if self.selected < m.len() {
            proof {
                assert(m@.map_values(|c: Candidate| c@)[self.selected as int] == m@[self.selected as int]@);
            }
            Some(m[self.selected].clone())
        } else {
            None
        }
    }

    /// Moves the selection by `delta` rows, stopping at the first and last match.
    pub fn move_by(&mut self, delta: i64)
        ensures
            final(self).selected == moved(
                old(self).selected,
                delta,
                matching(old(self).query@, old(self).everything()).len(),
            ),
            final(self).query@ == old(self).query@,
            final(self).everything() == old(self).everything(),
    {
        let len = self.matches().len();
        self.selected = move_selection(self.selected, delta, len);
    }

    /// Types `c` at the end of the query; the selection goes back to the top.
    pub fn type_char(&mut self, c: char)
        ensures
            final(self).query@ == old(self).query@.push(c),
            final(self).selected == 0,
            final(self).everything() == old(self).everything(),
    {
        push_char(&mut self.query, c);
        self.selected = 0;
    }

    /// Removes the last character of the query; the selection goes back to the top.
    pub fn backspace(&mut self)
        ensures
            final(self).query@ == if old(self).query@.len() > 0 {
                old(self).query@.drop_last()
            } else {
                old(self).query@
            },
            final(self).selected == 0,
            final(self).everything() == old(self).everything(),
    {
        let q = chars_of(self.query.as_str());
        if q.len() > 0 {
            let w = crate::text::slice_of(q.as_slice(), 0, q.len() - 1);
            self.query = string_of(w.as_slice());
        }
        self.selected = 0;
    }
}

/// A key as the jump list reads it; `Ctrl` is a letter pressed with control.
#[derive(Clone, Copy, Debug, PartialEq, Eq, Structural)]
pub enum JumpKey {
    Esc,
    Down,
    Up,
    Tab,
    BackTab,
    Backspace,
    Enter,
    Char(char),
    Ctrl(char),
    Other,
}

/// What a key asks of the app: nothing more, closing the list, a Slack search, or going where
/// a candidate leads.
#[derive(Debug, PartialEq)]
pub enum JumpOutcome {
    Stay,
    Close,
    Search(String),
    Go(Target),
}

/// The query a `>` search sends: what follows the `>`, without surrounding blanks.
pub open spec fn search_query(query: Seq<char>) -> Seq<char> {
    trim(query.drop_first())
}

/// Whether the key moves the selection down, or up.
pub open spec fn moves_down(key: JumpKey) -> bool {
    key == JumpKey::Down || key == JumpKey::Tab || key == JumpKey::Ctrl('n')
}

/// Whether the key moves the selection up.
pub open spec fn moves_up(key: JumpKey) -> bool {
    key == JumpKey::Up || key == JumpKey::BackTab || key == JumpKey::Ctrl('p')
}

impl Jump {
    /// What `key` does: `esc` closes; arrows, tab and `ctrl-n`/`ctrl-p` move; typing and
    /// `backspace` edit the query; `enter` runs a `>` search, or goes where the selected
    /// match leads, staying put when nothing is selected.
    pub fn key(&mut self, key: JumpKey) -> (r: JumpOutcome)
        ensures
            final(self).everything() == old(self).everything(),
            match key {
                JumpKey::Esc => r is Close,
                JumpKey::Enter => if searching(old(self).query@) {
                    if search_query(old(self).query@).len() == 0 {
                        r is Close
                    } else {
                        r matches JumpOutcome::Search(q) && q@ == search_query(old(self).query@)
                    }
                } else {
                    let m = matching(old(self).query@, old(self).everything());
                    if old(self).selected < m.len() {
                        r matches JumpOutcome::Go(t) && t@ == m[old(self).selected as int].1
                    } else {
                        r is Stay && final(self).query@ == old(self).query@ && final(self).selected == old(
                            self,
                        ).selected
                    }
                },
                JumpKey::Backspace => r is Stay && final(self).selected == 0 && final(self).query@ == if old(
                    self,
                ).query@.len() > 0 {
                    old(self).query@.drop_last()
                } else {
                    old(self).query@
                },
                JumpKey::Char(c) => r is Stay && final(self).selected == 0 && final(self).query@ == old(
                    self,
                ).query@.push(c),
                _ => r is Stay && final(self).query@ == old(self).query@ && final(self).selected == (if moves_down(
                    key,
                ) {
                    moved(old(self).selected, 1i64, matching(old(self).query@, old(self).everything()).len())
                } else if moves_up(key) {
                    moved(old(self).selected, -1i64, matching(old(self).query@, old(self).everything()).len())
                } else {
                    old(self).selected as nat
                }),
            },
    {
        match key {
            JumpKey::Esc => JumpOutcome::Close,
            JumpKey::Down | JumpKey::Tab | JumpKey::Ctrl('n') => {
                self.move_by(1);
                JumpOutcome::Stay
            },
            JumpKey::Up | JumpKey::BackTab | JumpKey::Ctrl('p') => {
                self.move_by(-1);
                JumpOutcome::Stay
            },
            JumpKey::Backspace => {
                self.backspace();
                JumpOutcome::Stay
            },
            JumpKey::Char(c) => {
                self.type_char(c);
                JumpOutcome::Stay
            },
            JumpKey::Enter => {
                if self.is_search() {
                    let q = chars_of(self.query.as_str());
                    let rest = crate::text::slice_of(q.as_slice(), 1, q.len());
                    assert(rest@ == self.query@.drop_first());
                    let query = crate::text::trimmed(rest.as_slice());
                    if query.len() == 0 {
                        JumpOutcome::Close
                    } else {
                        JumpOutcome::Search(string_of(query.as_slice()))
                    }
                } else {
                    match self.selected_candidate() {
                        Some(c) => JumpOutcome::Go(c.target),
                        None => JumpOutcome::Stay,
                    }
                }
            },
            _ => JumpOutcome::Stay,
        }
    }
}

/// The jump list's channels: each channel's label, leading to it.
pub open spec fn channel_candidates(rows: Seq<crate::sidebar::RowView>) -> Seq<(Seq<char>, TargetView)> {
    rows.map_values(|r: crate::sidebar::RowView| (r.label, TargetView::Channel(r.id)))
}

/// The jump list's people: `@handle`, leading to the person's id.
pub open spec fn person_candidates(people: Seq<(Seq<char>, Seq<char>)>) -> Seq<(Seq<char>, TargetView)> {
    people.map_values(|p: (Seq<char>, Seq<char>)| ("@"@ + p.1, TargetView::Person(p.0)))
}

impl Jump {
    /// The jump list as `ctrl-k` opens it: every channel and every person (as
    /// `@handle`), nothing typed; the followed threads arrive later.
    pub fn open(channels: &[crate::sidebar::ChannelRow], people: &[(String, String)]) -> (j: Self)
        ensures
            j.query@.len() == 0,
            j.selected == 0,
            j.channels@.map_values(|c: Candidate| c@) == channel_candidates(crate::sidebar::row_views(channels@)),
            j.people@.map_values(|c: Candidate| c@) == person_candidates(
                crate::commands::people_views(people@),
            ),
            j.threads@.len() == 0,
    {
        let mut cs: Vec<Candidate> = Vec::new();
        let mut i: usize = 0;
        while i < channels.len()
            invariant
                i <= channels@.len(),
                cs@.map_values(|c: Candidate| c@) == channel_candidates(crate::sidebar::row_views(channels@)).take(
                    i as int,
                ),
            decreases channels.len() - i,
        {
            let ghost before = cs@;
            cs.push(
                Candidate {
                    label: copy_string(&channels[i].label),
                    target: Target::Channel(copy_string(&channels[i].id)),
                },
            );
            proof {
                let all = channel_candidates(crate::sidebar::row_views(channels@));
                assert(all.take(i + 1) =~= all.take(i as int).push(all[i as int]));
                assert(cs@.map_values(|c: Candidate| c@) =~= before.map_values(|c: Candidate| c@).push(
                    all[i as int],
                ));
            }
            i += 1;
        }
        proof {
            let all = channel_candidates(crate::sidebar::row_views(channels@));
            assert(all.take(all.len() as int) =~= all);
        }
        let mut ps: Vec<Candidate> = Vec::new();
        let mut k: usize = 0;
        while k < people.len()
            invariant
                k <= people@.len(),
                ps@.map_values(|c: Candidate| c@) == person_candidates(crate::commands::people_views(people@)).take(
                    k as int,
                ),
            decreases people.len() - k,
        {
            let ghost before = ps@;
            let mut label = "@".to_owned();
            label.append(people[k].1.as_str());
            ps.push(Candidate { label, target: Target::Person(copy_string(&people[k].0)) });
            proof {
                let all = person_candidates(crate::commands::people_views(people@));
                assert(all.take(k + 1) =~= all.take(k as int).push(all[k as int]));
                assert(ps@.map_values(|c: Candidate| c@) =~= before.map_values(|c: Candidate| c@).push(
                    all[k as int],
                ));
            }
            k += 1;
        }
        proof {
            let all = person_candidates(crate::commands::people_views(people@));
            assert(all.take(all.len() as int) =~= all);
        }
        Jump { query: String::new(), selected: 0, channels: cs, people: ps, threads: Vec::new() }
    }
}

} // verus!
