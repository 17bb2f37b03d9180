//! The input row under the panes: what it is for, the text being typed with its cursor, the
//! emoji names tab is cycling through on a react row, and what the row asks of the app when a
//! key lands on it or its text is sent.
use crate::complete::{completions, step, Cycle};
use crate::emoji::shortcode;
use crate::field::{
    erased_before, erased_under, moved_left, moved_right, typed, word_erased, Field,
};
use crate::inbox::Item;
use crate::input::{accept_ghost, suggestion, token_of};
use crate::react::{reaction_name, reaction_name_of};
use crate::text::{chars_of, copy_string, opt_view, texts, trim, trimmed};
use vstd::prelude::*;

verus! {

/// What the input row is for.
#[derive(Clone, Debug, PartialEq, Eq)]
pub enum Input {
    /// A message to a conversation, in a thread when `thread_ts` names its root; `label` is what
    /// the row shows it as.
    Reply { channel: String, thread_ts: Option<String>, label: String },
    /// A reaction to the message `ts` of `channel`.
    React { channel: String, ts: String },
    /// A new text for the message `ts` of `channel`.
    Edit { channel: String, ts: String },
    /// The channel list's filter, which follows the text as it is typed.
    Filter,
    /// A search of the workspace.
    Search,
    /// A reply to an item of the inbox.
    InboxReply { item: Item },
}

/// What the row says it is for, before the text.
pub open spec fn prompt_of(input: Input) -> Seq<char> {
    match input {
        Input::Reply { label, .. } => "reply to "@ + label@,
        Input::InboxReply { item } => "reply to "@ + item.label@,
        Input::React { .. } => "react with"@,
        Input::Edit { .. } => "edit"@,
        Input::Filter => "filter"@,
        Input::Search => "search"@,
    }
}

impl Input {
    /// What the row says it is for.
    pub fn prompt(&self) -> (r: String)
        ensures
            r@ == prompt_of(*self),
    {
        match self {
            Input::Reply { label, .. } => {
                let mut r = "reply to ".to_owned();
                r.append(label.as_str());
                r
            },
            Input::InboxReply { item } => {
                let mut r = "reply to ".to_owned();
                r.append(item.label.as_str());
                r
            },
            Input::React { .. } => "react with".to_owned(),
            Input::Edit { .. } => "edit".to_owned(),
            Input::Filter => "filter".to_owned(),
            Input::Search => "search".to_owned(),
        }
    }
}

/// The refusal an empty edit gets: it would not delete the message.
pub const EMPTY_EDIT: &'static str = "an empty edit would not delete it — use :delete";

/// A key as the input row reads it; `Ctrl` is a letter pressed with control.
#[derive(Clone, Copy, Debug, PartialEq, Eq, Structural)]
pub enum RowKey {
    Esc,
    Enter,
    Tab,
    BackTab,
    Left,
    Right,
    Home,
    End,
    Backspace,
    Delete,
    Char(char),
    Ctrl(char),
    Other,
}

/// What a key asks of the app besides the row's own change.
#[derive(Clone, Copy, Debug, PartialEq, Eq, Structural)]
pub enum RowOutcome {
    /// Nothing more.
    Stay,
    /// The text was edited: on the filter row the filter follows it, from the top of the list.
    Edited,
    /// The row closes; the filter row takes its filter with it.
    Close,
    /// The text is sent: the app acts on `submission`.
    Submit,
}

/// What sending the row's text comes to.
#[derive(Debug, PartialEq, Eq)]
pub enum Submission {
    /// Nothing: an empty search, reply or reaction is dropped.
    Nothing,
    /// The filter is kept and the channel list takes the focus.
    Filtered,
    Search(String),
    Send { channel: String, thread_ts: Option<String>, text: String },
    React { channel: String, ts: String, name: String },
    /// The edit is refused, with the reason to show.
    Refused(String),
    Edit { channel: String, ts: String, text: String },
    /// The text answers the inbox item, which is then read.
    Answer { item: Item, text: String },
}

/// The names a row completes: the emoji names on a react row, nothing on any other.
pub open spec fn completing(input: Input, candidates: Seq<Seq<char>>) -> Seq<Seq<char>> {
    if input is React {
        candidates
    } else {
        Seq::empty()
    }
}

/// The input row.
pub struct Row {
    input: Input,
    buffer: Field,
    cycle: Option<Cycle>,
}

impl Row {
    /// What the row is for.
    pub closed spec fn kind(self) -> Input {
        self.input
    }

    /// The characters typed.
    pub closed spec fn chars(self) -> Seq<char> {
        self.buffer.chars()
    }

    /// How many characters sit before the cursor.
    pub closed spec fn at(self) -> nat {
        self.buffer.at()
    }

    /// The options tab is cycling through and the one in hand, if it is cycling.
    pub closed spec fn cycling(self) -> Option<(Seq<Seq<char>>, nat)> {
        match self.cycle {
            Some(c) => Some((c.options(), c.at())),
            None => None,
        }
    }

    /// Opens the row for `input` on the text `initial`, the cursor after its last character.
    pub fn start(input: Input, initial: &str) -> (r: Self)
        ensures
            r.kind() == input,
            r.chars() == initial@,
            r.at() == initial@.len(),
            r.cycling() is None,
    {
        Row { input, buffer: Field::new(initial), cycle: None }
    }

    /// What the row is for.
    pub fn input(&self) -> (r: &Input)
        ensures
            *r == self.kind(),
    {
        &self.input
    }

    /// The text of the row.
    pub fn text(&self) -> (s: String)
        ensures
            s@ == self.chars(),
    {
        self.buffer.text()
    }

    /// Whether the row completes anything: only the react row does.
    fn completes(&self) -> (b: bool)
        ensures
            b == (self.input is React),
    {
        match self.input {
            Input::React { .. } => true,
            _ => false,
        }
    }

    /// The grey end of the emoji name being typed, shown after the cursor; `candidates` are the
    /// emoji names.
    pub fn ghost(&self, candidates: &[String]) -> (r: Option<String>)
        ensures
            match r {
                Some(g) => suggestion(
                    self.chars(),
                    self.at(),
                    self.cycling() is Some,
                    completing(self.kind(), texts(candidates@)),
                ) == Some(g@),
                None => suggestion(
                    self.chars(),
                    self.at(),
                    self.cycling() is Some,
                    completing(self.kind(), texts(candidates@)),
                ) is None,
            },
    {
        let none: Vec<String> = Vec::new();
        let cands: &[String] = if self.completes() {
            candidates
        } else {
            none.as_slice()
        };
        proof {
            assert(texts(none@) =~= Seq::<Seq<char>>::empty());
        }
        crate::input::input_ghost(&self.buffer, self.cycle.is_some(), cands)
    }

    /// Tab and shift-tab: the next (or previous) emoji name matching the one being typed
    /// replaces the text, the cursor after it.
    fn cycle_names(&mut self, candidates: &[String], backwards: bool)
        ensures
            final(self).kind() == old(self).kind(),
            ({
                let opts = completions(token_of(old(self).chars()), texts(candidates@));
                match old(self).cycling() {
                    Some((os, at)) => {
                        let next = step(at, os.len(), backwards);
                        &&& final(self).cycling() == Some((os, next))
                        &&& final(self).chars() == os[next as int]
                        &&& final(self).at() == os[next as int].len()
                    },
                    None => if opts.len() == 0 {
                        &&& final(self).cycling() is None
                        &&& final(self).chars() == old(self).chars()
                        &&& final(self).at() == old(self).at()
                    } else {
                        &&& final(self).cycling() == Some((opts, 0nat))
                        &&& final(self).chars() == opts[0]
                        &&& final(self).at() == opts[0].len()
                    },
                }
            }),
    {
        match self.cycle.take() {
            Some(mut c) => {
                c.advance(backwards);
                let name = c.current();
                self.buffer = Field::new(name.as_str());
                self.cycle = Some(c);
            },
            None => {
                let text = self.buffer.text();
                match Cycle::new(shortcode(text.as_str()), candidates) {
                    Some(c) => {
                        let name = c.current();
                        self.buffer = Field::new(name.as_str());
                        self.cycle = Some(c);
                    },
                    None => {},
                }
            },
        }
    }

    /// What `key` does to the row. `candidates` are the emoji names, which only the react row
    /// completes: tab and shift-tab cycle through the names matching the one typed, `→` and
    /// `end` first take the grey end of the name. Any other change to the text drops the names
    /// being cycled. `esc` closes the row and `enter` sends it; an unbound control key does
    /// nothing.
    pub fn key(&mut self, key: RowKey, candidates: &[String]) -> (r: RowOutcome)
        ensures
            final(self).kind() == old(self).kind(),
            ({
                let cands = completing(old(self).kind(), texts(candidates@));
                let text = old(self).chars();
                let at = old(self).at();
                let same = final(self).chars() == text && final(self).at() == at;
                let kept = final(self).cycling() == old(self).cycling();
                let dropped = final(self).cycling() is None;
                let now = (final(self).chars(), final(self).at());
                match key {
                    RowKey::Esc => r is Close && same && kept,
                    RowKey::Enter => r is Submit && same && kept,
                    RowKey::Tab | RowKey::BackTab => r is Stay && {
                        let opts = completions(token_of(text), cands);
                        match old(self).cycling() {
                            Some((os, i)) => {
                                let next = step(i, os.len(), key == RowKey::BackTab);
                                &&& final(self).cycling() == Some((os, next))
                                &&& final(self).chars() == os[next as int]
                                &&& final(self).at() == os[next as int].len()
                            },
                            None => if opts.len() == 0 {
                                same && dropped
                            } else {
                                &&& final(self).cycling() == Some((opts, 0nat))
                                &&& final(self).chars() == opts[0]
                                &&& final(self).at() == opts[0].len()
                            },
                        }
                    },
                    RowKey::Left => r is Stay && kept && now == moved_left(text, at),
                    RowKey::Home | RowKey::Ctrl('a') => r is Stay && kept && final(self).chars() == text
                        && final(self).at() == 0,
                    RowKey::Ctrl('e') => r is Stay && kept && final(self).chars() == text
                        && final(self).at() == text.len(),
                    RowKey::Right | RowKey::End => r is Stay && kept && match suggestion(
                        text,
                        at,
                        old(self).cycling() is Some,
                        cands,
                    ) {
                        Some(g) => final(self).chars() == text + g && final(self).at() == at + g.len(),
                        None => if key == RowKey::Right {
                            now == moved_right(text, at)
                        } else {
                            final(self).chars() == text && final(self).at() == text.len()
                        },
                    },
                    RowKey::Ctrl('w') => r is Edited && dropped && now == word_erased(text, at),
                    RowKey::Backspace => r is Edited && dropped && now == erased_before(text, at),
                    RowKey::Delete => r is Edited && dropped && now == erased_under(text, at),
                    RowKey::Char(c) => r is Edited && dropped && now == typed(text, at, c),
                    _ => r is Stay && same && kept,
                }
            }),
    {
        let none: Vec<String> = Vec::new();
        let cands: &[String] = if self.completes() {
            candidates
        } else {
            none.as_slice()
        };
        proof {
            assert(texts(none@) =~= Seq::<Seq<char>>::empty());
        }
        match key {
            RowKey::Esc => RowOutcome::Close,
            RowKey::Enter => RowOutcome::Submit,
            RowKey::Tab => {
                self.cycle_names(cands, false);
                RowOutcome::Stay
            },
            RowKey::BackTab => {
                self.cycle_names(cands, true);
                RowOutcome::Stay
            },
            RowKey::Left => {
                self.buffer.left();
                RowOutcome::Stay
            },
            RowKey::Right => {
                if !accept_ghost(&mut self.buffer, self.cycle.is_some(), cands) {
                    self.buffer.right();
                }
                RowOutcome::Stay
            },
            RowKey::Home => {
                self.buffer.start();
                RowOutcome::Stay
            },
            RowKey::End => {
                if !accept_ghost(&mut self.buffer, self.cycle.is_some(), cands) {
                    self.buffer.end();
                }
                RowOutcome::Stay
            },
            RowKey::Ctrl(c) => {
                if c == 'a' {
                    self.buffer.start();
                    RowOutcome::Stay
                } else if c == 'e' {
                    self.buffer.end();
                    RowOutcome::Stay
                } else if c == 'w' {
                    self.buffer.delete_word();
                    self.cycle = None;
                    RowOutcome::Edited
                } else {
                    RowOutcome::Stay
                }
            },
            RowKey::Backspace => {
                self.buffer.backspace();
                self.cycle = None;
                RowOutcome::Edited
            },
            RowKey::Delete => {
                self.buffer.delete();
                self.cycle = None;
                RowOutcome::Edited
            },
            RowKey::Char(c) => {
                self.buffer.insert(c);
                self.cycle = None;
                RowOutcome::Edited
            },
            RowKey::Other => RowOutcome::Stay,
        }
    }

    /// What sending the text comes to: the filter row keeps its filter; a search, a reply (to a
    /// conversation or to an inbox item) or a reaction with nothing but blanks is dropped, and so is a reaction whose name is only
    /// colons; a blank edit is refused rather than deleting the message; otherwise the text
    /// goes where the row says, as typed, and a reaction goes by the name it asks for.
    pub fn submission(&self) -> (r: Submission)
        ensures
            ({
                let text = self.chars();
                let blank = trim(text).len() == 0;
                match self.kind() {
                    Input::Filter => r is Filtered,
                    Input::Search => if blank {
                        r is Nothing
                    } else {
                        r matches Submission::Search(q) && q@ == text
                    },
                    Input::Reply { channel, thread_ts, .. } => if blank {
                        r is Nothing
                    } else {
                        r matches Submission::Send { channel: c, thread_ts: t, text: x } && c@ == channel@
                            && opt_view(t) == opt_view(thread_ts) && x@ == text
                    },
                    Input::React { channel, ts } => if reaction_name_of(text).len() == 0 {
                        r is Nothing
                    } else {
                        r matches Submission::React { channel: c, ts: t, name } && c@ == channel@ && t@
                            == ts@ && name@ == reaction_name_of(text)
                    },
                    Input::Edit { channel, ts } => if blank {
                        r matches Submission::Refused(why) && why@ == EMPTY_EDIT@
                    } else {
                        r matches Submission::Edit { channel: c, ts: t, text: x } && c@ == channel@ && t@
                            == ts@ && x@ == text
                    },
                    Input::InboxReply { item } => if blank {
                        r is Nothing
                    } else {
                        r matches Submission::Answer { item: i, text: x } && i@ == item@ && x@ == text
                    },
                }
            }),
    {
        let text = self.buffer.text();
        let v = chars_of(text.as_str());
        let blank = trimmed(v.as_slice()).len() == 0;
        match &self.input {
            Input::Filter => Submission::Filtered,
            Input::Search => if blank {
                Submission::Nothing
            } else {
                Submission::Search(text)
            },
            Input::Reply { channel, thread_ts, .. } => if blank {
                Submission::Nothing
            } else {
                let t = match thread_ts {
                    Some(ts) => Some(copy_string(ts)),
                    None => None,
                };
                Submission::Send { channel: copy_string(channel), thread_ts: t, text }
            },
            Input::React { channel, ts } => {
                let name = reaction_name(text.as_str());
                if name.as_str().is_empty() {
                    Submission::Nothing
                } else {
                    Submission::React { channel: copy_string(channel), ts: copy_string(ts), name }
                }
            },
            Input::Edit { channel, ts } => if blank {
                Submission::Refused(EMPTY_EDIT.to_owned())
            } else {
                Submission::Edit { channel: copy_string(channel), ts: copy_string(ts), text }
            },
            Input::InboxReply { item } => if blank {
                Submission::Nothing
            } else {
                Submission::Answer { item: item.clone(), text }
            },
        }
    }
}

} // verus!
