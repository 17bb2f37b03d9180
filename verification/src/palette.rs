//! The `:` command line: typed verbs with fuzzy tab completion and history.
use crate::complete::{completions, ghost, ghost_text, hint_row, rank, step, SHOWN};
use crate::fuzzy::{near, suggestions};
use crate::text::{
    chars_of, copy_string, drop_around, drop_leading, first_char, first_char_at, first_space,
    first_space_at, has_space, is_white_space, last_space_end, last_space_end_at, same_text,
    skip_leading, skip_trailing, slice_of, string_of, trim, trim_start, trim_start_at, trimmed,
};
use vstd::prelude::*;

verus! {

/// How long an inbox item stays out of sight.
#[derive(Clone, Copy, Debug, PartialEq, Eq, Structural)]
pub enum Snooze {
    OneHour,
    ThreeHours,
    Tomorrow,
    NextWeek,
}

/// What `:export` writes.
#[derive(Clone, Copy, Debug, PartialEq, Eq, Structural)]
pub enum Format {
    Json,
    Markdown,
}

/// A command the line can run.
#[derive(Clone, Debug, PartialEq)]
pub enum Command {
    Join(String),
    Leave(Option<String>),
    Go(String),
    Msg { target: String, text: String },
    React(String),
    Edit,
    Delete,
    Thread,
    Search(String),
    Open,
    Copy,
    Export(Format),
    Read,
    Snooze(Snooze),
    Setting { key: String, value: String },
    Help,
    Quit,
}

/// A command with its texts as character sequences.
pub enum CommandView {
    Join(Seq<char>),
    Leave(Option<Seq<char>>),
    Go(Seq<char>),
    Msg { target: Seq<char>, text: Seq<char> },
    React(Seq<char>),
    Edit,
    Delete,
    Thread,
    Search(Seq<char>),
    Open,
    Copy,
    Export(Format),
    Read,
    Snooze(Snooze),
    Setting { key: Seq<char>, value: Seq<char> },
    Help,
    Quit,
}

impl View for Command {
    type V = CommandView;

    open spec fn view(&self) -> CommandView {
        match self {
            Command::Join(s) => CommandView::Join(s@),
            Command::Leave(s) => CommandView::Leave(
                match s {
                    Some(x) => Some(x@),
                    None => None,
                },
            ),
            Command::Go(s) => CommandView::Go(s@),
            Command::Msg { target, text } => CommandView::Msg { target: target@, text: text@ },
            Command::React(s) => CommandView::React(s@),
            Command::Edit => CommandView::Edit,
            Command::Delete => CommandView::Delete,
            Command::Thread => CommandView::Thread,
            Command::Search(s) => CommandView::Search(s@),
            Command::Open => CommandView::Open,
            Command::Copy => CommandView::Copy,
            Command::Export(f) => CommandView::Export(*f),
            Command::Read => CommandView::Read,
            Command::Snooze(z) => CommandView::Snooze(*z),
            Command::Setting { key, value } => CommandView::Setting { key: key@, value: value@ },
            Command::Help => CommandView::Help,
            Command::Quit => CommandView::Quit,
        }
    }
}

/// Every verb the line knows, in the order help lists them.
pub open spec fn verb_names() -> Seq<Seq<char>> {
    seq![
        "join"@,
        "leave"@,
        "go"@,
        "msg"@,
        "react"@,
        "edit"@,
        "delete"@,
        "thread"@,
        "search"@,
        "open"@,
        "copy"@,
        "export"@,
        "read"@,
        "snooze"@,
        "set"@,
        "help"@,
        "quit"@,
    ]
}

/// What each verb does, in the order of `verb_names`, as help and completion show it.
pub open spec fn verb_meanings() -> Seq<Seq<char>> {
    seq![
        "join a channel: :join #ops"@,
        "leave the current channel, or :leave #ops"@,
        "open a conversation: :go #ops, :go @bob"@,
        "send a message: :msg @bob on my way"@,
        "react to the selected message: :react rocket"@,
        "rewrite the selected message, yours only"@,
        "delete the selected message, yours only, after a yes"@,
        "open the selected message's thread"@,
        "search Slack: :search deploy failed"@,
        "open the selected message in Slack"@,
        "copy the selected message's permalink"@,
        "save the conversation: :export json | md"@,
        "mark the conversation read"@,
        "snooze the selected inbox item: :snooze 1h | 3h | tomorrow | monday"@,
        "change and save a setting: :set theme=nord · :set highlight=#2a2a2a"@,
        "show the keys"@,
        "leave"@,
    ]
}

/// Every verb with what it does, as help and completion show them.
pub fn verbs() -> (r: Vec<(&'static str, &'static str)>)
    ensures
        r@.map_values(|p: (&'static str, &'static str)| p.0@) == verb_names(),
        r@.map_values(|p: (&'static str, &'static str)| p.1@) == verb_meanings(),
{
    let r = vec![
        ("join", "join a channel: :join #ops"),
        ("leave", "leave the current channel, or :leave #ops"),
        ("go", "open a conversation: :go #ops, :go @bob"),
        ("msg", "send a message: :msg @bob on my way"),
        ("react", "react to the selected message: :react rocket"),
        ("edit", "rewrite the selected message, yours only"),
        ("delete", "delete the selected message, yours only, after a yes"),
        ("thread", "open the selected message's thread"),
        ("search", "search Slack: :search deploy failed"),
        ("open", "open the selected message in Slack"),
        ("copy", "copy the selected message's permalink"),
        ("export", "save the conversation: :export json | md"),
        ("read", "mark the conversation read"),
        ("snooze", "snooze the selected inbox item: :snooze 1h | 3h | tomorrow | monday"),
        ("set", "change and save a setting: :set theme=nord · :set highlight=#2a2a2a"),
        ("help", "show the keys"),
        ("quit", "leave"),
    ];
    assert(r@.map_values(|p: (&'static str, &'static str)| p.0@) =~= verb_names());
    assert(r@.map_values(|p: (&'static str, &'static str)| p.1@) =~= verb_meanings());
    r
}

/// Every verb the line knows, as texts.
pub fn verb_list() -> (r: Vec<String>)
    ensures
        r@.map_values(|s: String| s@) == verb_names(),
{
    let all = verbs();
    let mut r: Vec<String> = Vec::new();
    let mut i: usize = 0;
    while i < all.len()
        invariant
            i <= all@.len(),
            all@.map_values(|p: (&'static str, &'static str)| p.0@) == verb_names(),
            r@.len() == i,
            forall|j: int| 0 <= j < i ==> #[trigger] r@[j]@ == all@[j].0@,
        decreases all.len() - i,
    {
        let name: &str = all[i].0;
        r.push(string_of(chars_of(name).as_slice()));
        i += 1;
    }
    proof {
        let m = r@.map_values(|s: String| s@);
        let a = all@.map_values(|p: (&'static str, &'static str)| p.0@);
        assert forall|j: int| 0 <= j < r@.len() implies #[trigger] m[j] == verb_names()[j] by {
            assert(a[j] == all@[j].0@);
        }
        assert(m =~= verb_names());
    }
    r
}

/// `names` joined by `sep`.
pub open spec fn joined(names: Seq<Seq<char>>, sep: Seq<char>) -> Seq<char>
    decreases names.len(),
{
    if names.len() == 0 {
        Seq::empty()
    } else if names.len() == 1 {
        names[0]
    } else {
        joined(names.drop_last(), sep) + sep + names.last()
    }
}

/// The argument a verb needs, or why it is missing.
pub open spec fn needs(verb: Seq<char>, rest: Seq<char>, what: Seq<char>) -> Result<
    Seq<char>,
    Seq<char>,
> {
    if rest.len() == 0 {
        Err(":"@ + verb + " needs "@ + what)
    } else {
        Ok(rest)
    }
}

/// The line with white space, then colons, then white space cut from its start.
pub open spec fn bare_line(line: Seq<char>) -> Seq<char> {
    trim(skip_leading(trim(line), ':'))
}

/// The first word of the bare line.
pub open spec fn verb_of(line: Seq<char>) -> Seq<char> {
    let l = bare_line(line);
    match first_space(l) {
        Some(p) => l.take(p),
        None => l,
    }
}

/// What follows the first word of the bare line, trimmed.
pub open spec fn rest_of(line: Seq<char>) -> Seq<char> {
    let l = bare_line(line);
    match first_space(l) {
        Some(p) => trim(l.skip(p + 1)),
        None => Seq::empty(),
    }
}

/// The verbs close to an unknown one, at most three.
pub open spec fn close_verbs(verb: Seq<char>) -> Seq<Seq<char>> {
    let n = near(verb, verb_names());
    n.take(if n.len() < 3 { n.len() as int } else { 3 }).map_values(|i: int| verb_names()[i])
}

/// What `:msg` makes of its argument.
pub open spec fn msg_parsed(rest: Seq<char>) -> Result<CommandView, Seq<char>> {
    let (target, text) = match first_space(rest) {
        Some(p) => (rest.take(p), trim(rest.skip(p + 1))),
        None => (rest, Seq::empty()),
    };
    if target.len() == 0 || text.len() == 0 {
        Err(":msg needs a target and a message"@)
    } else {
        Ok(CommandView::Msg { target, text })
    }
}

/// What `:set` makes of its argument.
pub open spec fn set_parsed(rest: Seq<char>) -> Result<CommandView, Seq<char>> {
    match first_char(rest, '=') {
        Some(p) => Ok(CommandView::Setting { key: trim(rest.take(p)), value: trim(rest.skip(p + 1)) }),
        None => Err(":set needs key=value, e.g. highlight=#2a2a2a"@),
    }
}

/// What `:export` makes of its argument.
pub open spec fn export_parsed(rest: Seq<char>) -> Result<CommandView, Seq<char>> {
    if rest.len() == 0 || rest == "json"@ {
        Ok(CommandView::Export(Format::Json))
    } else if rest == "md"@ || rest == "markdown"@ {
        Ok(CommandView::Export(Format::Markdown))
    } else {
        Err(":export takes json or md, not `"@ + rest + "`"@)
    }
}

/// What `:snooze` makes of its argument.
pub open spec fn snooze_parsed(rest: Seq<char>) -> Result<CommandView, Seq<char>> {
    if rest == "1h"@ || rest == "1"@ {
        Ok(CommandView::Snooze(Snooze::OneHour))
    } else if rest == "3h"@ || rest == "3"@ {
        Ok(CommandView::Snooze(Snooze::ThreeHours))
    } else if rest == "tomorrow"@ || rest == "tmr"@ {
        Ok(CommandView::Snooze(Snooze::Tomorrow))
    } else if rest == "monday"@ || rest == "week"@ {
        Ok(CommandView::Snooze(Snooze::NextWeek))
    } else {
        Err(":snooze takes 1h, 3h, tomorrow or monday"@)
    }
}

/// Why an unknown verb was refused, with the verbs it may have meant.
pub open spec fn unknown_verb(verb: Seq<char>) -> Seq<char> {
    let close = close_verbs(verb);
    if close.len() == 0 {
        "unknown command :"@ + verb
    } else {
        "unknown command :"@ + verb + ", did you mean :"@ + joined(close, ", :"@) + "?"@
    }
}

/// A verb that takes a text, or why it lacks one.
pub open spec fn with_text(r: Result<Seq<char>, Seq<char>>, make: spec_fn(Seq<char>) -> CommandView) -> Result<
    CommandView,
    Seq<char>,
> {
    match r {
        Ok(t) => Ok(make(t)),
        Err(e) => Err(e),
    }
}

/// What a verb and its argument mean, for the verbs that read an argument.
pub open spec fn command_with_argument(verb: Seq<char>, rest: Seq<char>) -> Option<
    Result<CommandView, Seq<char>>,
> {
    if verb == "join"@ || verb == "j"@ {
        Some(with_text(needs(verb, rest, "a channel"@), |t: Seq<char>| CommandView::Join(t)))
    } else if verb == "leave"@ {
        Some(
            Ok(
                CommandView::Leave(
                    if rest.len() == 0 {
                        None
                    } else {
                        Some(rest)
                    },
                ),
            ),
        )
    } else if verb == "go"@ || verb == "g"@ || verb == "c"@ {
        Some(with_text(needs(verb, rest, "a channel or @person"@), |t: Seq<char>| CommandView::Go(t)))
    } else if verb == "msg"@ || verb == "m"@ || verb == "dm"@ {
        Some(msg_parsed(rest))
    } else if verb == "react"@ || verb == "r"@ {
        Some(
            with_text(
                needs(verb, rest, "an emoji name"@),
                |t: Seq<char>| CommandView::React(skip_trailing(skip_leading(t, ':'), ':')),
            ),
        )
    } else if verb == "search"@ || verb == "s"@ || verb == "/"@ {
        Some(with_text(needs(verb, rest, "a query"@), |t: Seq<char>| CommandView::Search(t)))
    } else if verb == "export"@ || verb == "e"@ {
        Some(export_parsed(rest))
    } else if verb == "snooze"@ || verb == "z"@ {
        Some(snooze_parsed(rest))
    } else if verb == "set"@ {
        Some(set_parsed(rest))
    } else {
        None
    }
}

/// What a verb means, for the verbs that ignore what follows them.
pub open spec fn command_alone(verb: Seq<char>) -> Option<CommandView> {
    if verb == "edit"@ {
        Some(CommandView::Edit)
    } else if verb == "delete"@ || verb == "del"@ {
        Some(CommandView::Delete)
    } else if verb == "thread"@ || verb == "t"@ {
        Some(CommandView::Thread)
    } else if verb == "open"@ || verb == "o"@ {
        Some(CommandView::Open)
    } else if verb == "copy"@ || verb == "y"@ {
        Some(CommandView::Copy)
    } else if verb == "read"@ {
        Some(CommandView::Read)
    } else if verb == "help"@ || verb == "h"@ || verb == "?"@ {
        Some(CommandView::Help)
    } else if verb == "quit"@ || verb == "q"@ || verb == "exit"@ {
        Some(CommandView::Quit)
    } else {
        None
    }
}

/// What a typed line means: the command it names, or why it names none.
pub open spec fn parsed(line: Seq<char>) -> Result<CommandView, Seq<char>> {
    let verb = verb_of(line);
    let rest = rest_of(line);
    if verb.len() == 0 {
        Err("type a command, tab completes"@)
    } else {
        match command_with_argument(verb, rest) {
            Some(r) => r,
            None => match command_alone(verb) {
                Some(c) => Ok(c),
                None => Err(unknown_verb(verb)),
            },
        }
    }
}

/// The view of a parse outcome.
pub open spec fn outcome_view(r: Result<Command, String>) -> Result<CommandView, Seq<char>> {
    match r {
        Ok(c) => Ok(c@),
        Err(e) => Err(e@),
    }
}

/// A text made of `s`.
fn text_of(s: &[char]) -> (r: String)
    ensures
        r@ == s@,
{
    string_of(s)
}

/// `":{verb} needs {what}"`.
fn needs_error(verb: &[char], what: &str) -> (r: String)
    ensures
        r@ == ":"@ + verb@ + " needs "@ + what@,
{
    let mut e = String::from_str(":");
    e.append(text_of(verb).as_str());
    e.append(" needs ");
    e.append(what);
    e
}

#[verifier::spinoff_prover]
#[verifier::rlimit(40)]
fn parse_msg(rest: &[char]) -> (r: Result<Command, String>)
    ensures
        outcome_view(r) == msg_parsed(rest@),
{
    let n = rest.len();
    match first_space_at(rest) {
        Some(p) => {
            let target = slice_of(rest, 0, p);
            let tail = slice_of(rest, p + 1, n);
            let text = trimmed(tail.as_slice());
            proof {
                assert(rest@.subrange(0, p as int) == rest@.take(p as int));
                assert(rest@.subrange(p + 1, n as int) == rest@.skip(p + 1));
                assert(target@ == rest@.take(p as int));
                assert(text@ == trim(rest@.skip(p + 1)));
            }
            if target.len() == 0 || text.len() == 0 {
                return Err(String::from_str(":msg needs a target and a message"));
            }
            Ok(Command::Msg { target: text_of(target.as_slice()), text: text_of(text.as_slice()) })
        },
        None => Err(String::from_str(":msg needs a target and a message")),
    }
}

#[verifier::rlimit(40)]
fn parse_set(rest: &[char]) -> (r: Result<Command, String>)
    ensures
        outcome_view(r) == set_parsed(rest@),
{
    let n = rest.len();
    match first_char_at(rest, '=') {
        Some(p) => {
            let key = trimmed(slice_of(rest, 0, p).as_slice());
            let value = trimmed(slice_of(rest, p + 1, n).as_slice());
            proof {
                assert(rest@.subrange(0, p as int) == rest@.take(p as int));
                assert(rest@.subrange(p + 1, n as int) == rest@.skip(p + 1));
            }
            Ok(Command::Setting { key: text_of(key.as_slice()), value: text_of(value.as_slice()) })
        },
        None => Err(String::from_str(":set needs key=value, e.g. highlight=#2a2a2a")),
    }
}

fn parse_export(rest: &[char]) -> (r: Result<Command, String>)
    ensures
        outcome_view(r) == export_parsed(rest@),
{
    if rest.len() == 0 || same_text(rest, "json") {
        Ok(Command::Export(Format::Json))
    } else if same_text(rest, "md") || same_text(rest, "markdown") {
        Ok(Command::Export(Format::Markdown))
    } else {
        let mut e = String::from_str(":export takes json or md, not `");
        e.append(text_of(rest).as_str());
        e.append("`");
        Err(e)
    }
}

fn parse_snooze(rest: &[char]) -> (r: Result<Command, String>)
    ensures
        outcome_view(r) == snooze_parsed(rest@),
{
    if same_text(rest, "1h") || same_text(rest, "1") {
        Ok(Command::Snooze(Snooze::OneHour))
    } else if same_text(rest, "3h") || same_text(rest, "3") {
        Ok(Command::Snooze(Snooze::ThreeHours))
    } else if same_text(rest, "tomorrow") || same_text(rest, "tmr") {
        Ok(Command::Snooze(Snooze::Tomorrow))
    } else if same_text(rest, "monday") || same_text(rest, "week") {
        Ok(Command::Snooze(Snooze::NextWeek))
    } else {
        Err(String::from_str(":snooze takes 1h, 3h, tomorrow or monday"))
    }
}

fn unknown_error(verb: &[char]) -> (r: String)
    ensures
        r@ == unknown_verb(verb@),
{
    let names = verb_list();
    let mut labels: Vec<Vec<char>> = Vec::new();
    let mut i: usize = 0;
    while i < names.len()
        invariant
            i <= names@.len(),
            labels@.len() == i,
            forall|j: int| 0 <= j < i ==> #[trigger] labels@[j]@ == names@[j]@,
        decreases names.len() - i,
    {
        labels.push(chars_of(names[i].as_str()));
        i += 1;
    }
    proof {
        assert(labels@.map_values(|l: Vec<char>| l@) =~= names@.map_values(|s: String| s@));
    }
    let close = suggestions(verb, &labels, 3);
    let ghost all = near(verb@, verb_names());
    let mut e = String::from_str("unknown command :");
    e.append(text_of(verb).as_str());
    if close.len() == 0 {
        proof {
            assert(close_verbs(verb@).len() == 0);
        }
        return e;
    }
    e.append(", did you mean :");
    let ghost shown = close_verbs(verb@);
    proof {
        crate::fuzzy::lemma_near_in_bounds(verb@, verb_names());
        assert(close@.len() == shown.len());
        assert forall|k: int| 0 <= k < close@.len() implies #[trigger] close@[k] < names@.len()
            && names@[close@[k] as int]@ == shown[k] by {
            assert(close@.map_values(|i: usize| i as int)[k] == close@[k] as int);
            assert(names@.map_values(|s: String| s@)[close@[k] as int] == names@[close@[k] as int]@);
        }
    }
    let mut k: usize = 0;
    let mut list = String::new();
    while k < close.len()
        invariant
            k <= close@.len() == shown.len(),
            forall|j: int| 0 <= j < close@.len() ==> #[trigger] close@[j] < names@.len()
                && names@[close@[j] as int]@ == shown[j],
            list@ == joined(shown.take(k as int), ", :"@),
        decreases close.len() - k,
    {
        if k > 0 {
            list.append(", :");
        }
        list.append(names[close[k]].as_str());
        proof {
            let t = shown.take(k + 1);
            assert(t.drop_last() == shown.take(k as int));
            assert(t.last() == shown[k as int]);
            if k == 0 {
                assert(shown.take(0).len() == 0);
                assert(list@ =~= joined(t, ", :"@));
            }
        }
        k += 1;
    }
    assert(shown.take(shown.len() as int) == shown);
    e.append(list.as_str());
    e.append("?");
    e
}

fn parse_with_argument(v: &[char], rest: &[char]) -> (r: Option<Result<Command, String>>)
    ensures
        match r {
            Some(o) => command_with_argument(v@, rest@) == Some(outcome_view(o)),
            None => command_with_argument(v@, rest@) is None,
        },
{
    let has_rest = rest.len() > 0;
    if same_text(v, "join") || same_text(v, "j") {
        Some(if has_rest { Ok(Command::Join(text_of(rest))) } else { Err(needs_error(v, "a channel")) })
    } else if same_text(v, "leave") {
        Some(Ok(Command::Leave(if has_rest { Some(text_of(rest)) } else { None })))
    } else if same_text(v, "go") || same_text(v, "g") || same_text(v, "c") {
        Some(if has_rest { Ok(Command::Go(text_of(rest))) } else { Err(needs_error(v, "a channel or @person")) })
    } else if same_text(v, "msg") || same_text(v, "m") || same_text(v, "dm") {
        Some(parse_msg(rest))
    } else if same_text(v, "react") || same_text(v, "r") {
        Some(if has_rest {
            Ok(Command::React(text_of(drop_around(rest, ':').as_slice())))
        } else {
            Err(needs_error(v, "an emoji name"))
        })
    } else if same_text(v, "search") || same_text(v, "s") || same_text(v, "/") {
        Some(if has_rest { Ok(Command::Search(text_of(rest))) } else { Err(needs_error(v, "a query")) })
    } else if same_text(v, "export") || same_text(v, "e") {
        Some(parse_export(rest))
    } else if same_text(v, "snooze") || same_text(v, "z") {
        Some(parse_snooze(rest))
    } else if same_text(v, "set") {
        Some(parse_set(rest))
    } else {
        None
    }
}

fn parse_alone(v: &[char]) -> (r: Option<Command>)
    ensures
        match r {
            Some(c) => command_alone(v@) == Some(c@),
            None => command_alone(v@) is None,
        },
{
    if same_text(v, "edit") {
        Some(Command::Edit)
    } else if same_text(v, "delete") || same_text(v, "del") {
        Some(Command::Delete)
    } else if same_text(v, "thread") || same_text(v, "t") {
        Some(Command::Thread)
    } else if same_text(v, "open") || same_text(v, "o") {
        Some(Command::Open)
    } else if same_text(v, "copy") || same_text(v, "y") {
        Some(Command::Copy)
    } else if same_text(v, "read") {
        Some(Command::Read)
    } else if same_text(v, "help") || same_text(v, "h") || same_text(v, "?") {
        Some(Command::Help)
    } else if same_text(v, "quit") || same_text(v, "q") || same_text(v, "exit") {
        Some(Command::Quit)
    } else {
        None
    }
}

/// What a typed line means: the command it names, or why it names none.
pub fn parse(line: &str) -> (r: Result<Command, String>)
    ensures
        outcome_view(r) == parsed(line@),
{
    let all = chars_of(line);
    let l = trimmed(drop_leading(trimmed(all.as_slice()).as_slice(), ':').as_slice());
    let n = l.len();
    let (verb, rest) = match first_space_at(l.as_slice()) {
        Some(p) => {
            proof {
                assert(l@.subrange(0, p as int) == l@.take(p as int));
                assert(l@.subrange(p + 1, n as int) == l@.skip(p + 1));
            }
            (slice_of(l.as_slice(), 0, p), trimmed(slice_of(l.as_slice(), p + 1, n).as_slice()))
        },
        None => {
            proof {
                assert(l@.subrange(0, n as int) == l@);
            }
            (slice_of(l.as_slice(), 0, n), Vec::new())
        },
    };
    proof {
        assert(verb@ == verb_of(line@));
        assert(rest@ == rest_of(line@));
    }
    let v = verb.as_slice();
    if v.len() == 0 {
        return Err(String::from_str("type a command, tab completes"));
    }
    match parse_with_argument(v, rest.as_slice()) {
        Some(r) => r,
        None => match parse_alone(v) {
            Some(c) => Ok(c),
            None => Err(unknown_error(v)),
        },
    }
}

/// What the token under the cursor can complete to.
#[derive(Clone, Debug, PartialEq)]
pub enum Slot {
    Verb,
    Conversation,
    Channel,
    Person,
    Emoji,
    Literal(Vec<&'static str>),
    Free,
}

/// The same, with the literal options as texts.
pub enum SlotView {
    Verb,
    Conversation,
    Channel,
    Person,
    Emoji,
    Literal(Seq<Seq<char>>),
    Free,
}

impl View for Slot {
    type V = SlotView;

    open spec fn view(&self) -> SlotView {
        match self {
            Slot::Verb => SlotView::Verb,
            Slot::Conversation => SlotView::Conversation,
            Slot::Channel => SlotView::Channel,
            Slot::Person => SlotView::Person,
            Slot::Emoji => SlotView::Emoji,
            Slot::Literal(v) => SlotView::Literal(v@.map_values(|s: &'static str| s@)),
            Slot::Free => SlotView::Free,
        }
    }
}

/// How many words the white space of `s` separates.
pub open spec fn word_count(s: Seq<char>) -> nat
    decreases s.len(),
{
    if s.len() == 0 {
        0
    } else {
        word_count(s.drop_last()) + if !is_white_space(s.last()) && (s.len() == 1 || is_white_space(
            s[s.len() - 2],
        )) {
            1nat
        } else {
            0nat
        }
    }
}

/// The first word of `s`.
pub open spec fn first_word(s: Seq<char>) -> Seq<char> {
    let t = trim_start(s);
    match first_space(t) {
        Some(p) => t.take(p),
        None => t,
    }
}

/// Which argument of its verb the cursor is on, counting from 0.
pub open spec fn argument_index(l: Seq<char>) -> int {
    let done = if word_count(l) > 0 {
        word_count(l) - 1
    } else {
        0
    };
    if l.len() > 0 && is_white_space(l.last()) {
        done
    } else if done > 0 {
        done - 1
    } else {
        0
    }
}

/// What the token under the cursor of `line` can complete to.
pub open spec fn slot_of(line: Seq<char>) -> SlotView {
    let l = skip_leading(line, ':');
    if !has_space(l) {
        SlotView::Verb
    } else if argument_index(l) != 0 {
        SlotView::Free
    } else {
        verb_slot(first_word(l))
    }
}

/// What the first argument of `verb` completes to.
pub open spec fn verb_slot(verb: Seq<char>) -> SlotView {
    if verb == "join"@ || verb == "j"@ || verb == "leave"@ {
        SlotView::Channel
    } else if verb == "go"@ || verb == "g"@ || verb == "c"@ || verb == "msg"@ || verb == "m"@
        || verb == "dm"@ {
        SlotView::Conversation
    } else if verb == "react"@ || verb == "r"@ {
        SlotView::Emoji
    } else if verb == "export"@ || verb == "e"@ {
        SlotView::Literal(seq!["json"@, "md"@])
    } else if verb == "snooze"@ || verb == "z"@ {
        SlotView::Literal(seq!["1h"@, "3h"@, "tomorrow"@, "monday"@])
    } else if verb == "set"@ {
        SlotView::Literal(seq!["theme="@, "highlight="@, "images="@, "show_url="@])
    } else {
        SlotView::Free
    }
}

fn word_count_exec(v: &[char]) -> (n: usize)
    ensures
        n == word_count(v@),
{
    let mut n: usize = 0;
    let mut i: usize = 0;
    while i < v.len()
        invariant
            i <= v@.len(),
            n == word_count(v@.take(i as int)),
            n <= i,
        decreases v.len() - i,
    {
        let starts = !crate::text::is_whitespace(v[i]) && (i == 0 || crate::text::is_whitespace(
            v[i - 1],
        ));
        proof {
            let t = v@.take(i + 1);
            assert(t.drop_last() == v@.take(i as int));
            assert(t.last() == v@[i as int]);
            if i > 0 {
                assert(t[t.len() - 2] == v@[i - 1]);
            }
        }
        if starts {
            n += 1;
        }
        i += 1;
    }
    assert(v@.take(v@.len() as int) == v@);
    n
}


/// What the first argument of `verb` completes to.
fn verb_slot_exec(v: &[char]) -> (r: Slot)
    ensures
        r@ == verb_slot(v@),
{
    if same_text(v, "join") || same_text(v, "j") || same_text(v, "leave") {
        Slot::Channel
    } else if same_text(v, "go") || same_text(v, "g") || same_text(v, "c") || same_text(v, "msg")
        || same_text(v, "m") || same_text(v, "dm") {
        Slot::Conversation
    } else if same_text(v, "react") || same_text(v, "r") {
        Slot::Emoji
    } else if same_text(v, "export") || same_text(v, "e") {
        let r = Slot::Literal(vec!["json", "md"]);
        assert(r@ == SlotView::Literal(seq!["json"@, "md"@])) by {
            if let Slot::Literal(x) = r {
                assert(x@.map_values(|s: &'static str| s@) =~= seq!["json"@, "md"@]);
            }
        }
        r
    } else if same_text(v, "snooze") || same_text(v, "z") {
        let r = Slot::Literal(vec!["1h", "3h", "tomorrow", "monday"]);
        assert(r@ == SlotView::Literal(seq!["1h"@, "3h"@, "tomorrow"@, "monday"@])) by {
            if let Slot::Literal(x) = r {
                assert(x@.map_values(|s: &'static str| s@) =~= seq!["1h"@, "3h"@, "tomorrow"@, "monday"@]);
            }
        }
        r
    } else if same_text(v, "set") {
        let r = Slot::Literal(vec!["theme=", "highlight=", "images=", "show_url="]);
        assert(r@ == SlotView::Literal(seq!["theme="@, "highlight="@, "images="@, "show_url="@])) by {
            if let Slot::Literal(x) = r {
                assert(x@.map_values(|s: &'static str| s@) =~= seq!["theme="@, "highlight="@, "images="@, "show_url="@]);
            }
        }
        r
    } else {
        Slot::Free
    }
}

/// What the token under the cursor of `line` can complete to.
#[verifier::spinoff_prover]
#[verifier::rlimit(60)]
pub fn slot(line: &str) -> (r: Slot)
    ensures
        r@ == slot_of(line@),
{
    let all = chars_of(line);
    let l = crate::text::drop_leading(all.as_slice(), ':');
    let a = trim_start_at(l.as_slice());
    let t = slice_of(l.as_slice(), a, l.len());
    proof {
        assert(t@ == trim_start(l@));
    }
    let verb = match first_space_at(t.as_slice()) {
        Some(p) => {
            proof {
                assert(t@.subrange(0, p as int) == t@.take(p as int));
            }
            slice_of(t.as_slice(), 0, p)
        },
        None => {
            proof {
                assert(t@.subrange(0, t@.len() as int) == t@);
            }
            slice_of(t.as_slice(), 0, t.len())
        },
    };
    let v = verb.as_slice();
    let editing_verb = match first_space_at(l.as_slice()) {
        Some(_) => false,
        None => true,
    };
    proof {
        crate::text::lemma_first_space(l@);
        if first_space(l@) is None {
            assert(!has_space(l@));
        }
    }
    if editing_verb {
        return Slot::Verb;
    }
    let words = word_count_exec(l.as_slice());
    let done = if words > 0 {
        words - 1
    } else {
        0
    };
    let ends_space = l.len() > 0 && crate::text::is_whitespace(l[l.len() - 1]);
    let index = if ends_space {
        done
    } else if done > 0 {
        done - 1
    } else {
        0
    };
    if index != 0 {
        return Slot::Free;
    }
    verb_slot_exec(v)
}

/// What the slot `slot` completes to: the verbs; the channels' labels; people as `@handle`;
/// a conversation, either of the two; the emoji names; the slot's own words; or nothing.
pub open spec fn slot_candidates(
    slot: SlotView,
    labels: Seq<Seq<char>>,
    handles: Seq<Seq<char>>,
    emoji: Seq<Seq<char>>,
) -> Seq<Seq<char>> {
    let people = handles.map_values(|h: Seq<char>| "@"@ + h);
    match slot {
        SlotView::Verb => verb_names(),
        SlotView::Channel => labels,
        SlotView::Person => people,
        SlotView::Conversation => labels + people,
        SlotView::Emoji => emoji,
        SlotView::Literal(options) => options,
        SlotView::Free => Seq::empty(),
    }
}

/// Appends `v` to `r`, text for text.
fn append_texts(r: &mut Vec<String>, v: &[String], at: bool)
    ensures
        final(r)@.map_values(|s: String| s@) == old(r)@.map_values(|s: String| s@) + if at {
            v@.map_values(|h: String| "@"@ + h@)
        } else {
            v@.map_values(|h: String| h@)
        },
{
    let ghost start = r@.map_values(|s: String| s@);
    let ghost add = if at {
        v@.map_values(|h: String| "@"@ + h@)
    } else {
        v@.map_values(|h: String| h@)
    };
    let mut i: usize = 0;
    while i < v.len()
        invariant
            i <= v@.len(),
            add == if at {
                v@.map_values(|h: String| "@"@ + h@)
            } else {
                v@.map_values(|h: String| h@)
            },
            r@.map_values(|s: String| s@) == start + add.take(i as int),
        decreases v.len() - i,
    {
        let mut t = String::new();
        if at {
            t.append("@");
            proof {
                reveal_strlit("@");
            }
        }
        t.append(v[i].as_str());
        let ghost before = r@;
        r.push(t);
        proof {
            assert(add[i as int] == t@);
            assert(add.take(i + 1) == add.take(i as int).push(add[i as int]));
            assert(r@.map_values(|s: String| s@) == before.map_values(|s: String| s@).push(t@));
        }
        i += 1;
    }
    assert(add.take(v@.len() as int) == add);
}

/// What tab completes in `line`: the candidates of the slot under its cursor, given the
/// channels' `labels`, the people's `handles` and the `emoji` names.
pub fn completions_for(line: &str, labels: &[String], handles: &[String], emoji: &[String]) -> (r: Vec<String>)
    ensures
        r@.map_values(|s: String| s@) == slot_candidates(
            slot_of(line@),
            labels@.map_values(|s: String| s@),
            handles@.map_values(|s: String| s@),
            emoji@.map_values(|s: String| s@),
        ),
{
    let ghost hs = handles@.map_values(|s: String| s@);
    proof {
        assert(handles@.map_values(|h: String| "@"@ + h@) =~= hs.map_values(|h: Seq<char>| "@"@ + h));
    }
    let mut r: Vec<String> = Vec::new();
    assert(r@.map_values(|s: String| s@) =~= Seq::<Seq<char>>::empty());
    match slot(line) {
        Slot::Verb => {
            r = verb_list();
        },
        Slot::Channel => {
            append_texts(&mut r, labels, false);
        },
        Slot::Person => {
            append_texts(&mut r, handles, true);
        },
        Slot::Conversation => {
            append_texts(&mut r, labels, false);
            append_texts(&mut r, handles, true);
        },
        Slot::Emoji => {
            append_texts(&mut r, emoji, false);
        },
        Slot::Literal(options) => {
            let mut i: usize = 0;
            while i < options.len()
                invariant
                    i <= options@.len(),
                    r@.map_values(|s: String| s@) == options@.map_values(|o: &'static str| o@).take(i as int),
                decreases options.len() - i,
            {
                let ghost before = r@;
                r.push(string_of(chars_of(options[i]).as_slice()));
                proof {
                    let o = options@.map_values(|o: &'static str| o@);
                    assert(o.take(i + 1) == o.take(i as int).push(o[i as int]));
                    assert(r@.map_values(|s: String| s@) == before.map_values(|s: String| s@).push(o[i as int]));
                }
                i += 1;
            }
            proof {
                let o = options@.map_values(|o: &'static str| o@);
                assert(o.take(o.len() as int) == o);
            }
        },
        Slot::Free => {},
    }
    r
}

/// The start of the line up to and with its last white space, and the token after it.
pub open spec fn last_token_split(input: Seq<char>) -> (Seq<char>, Seq<char>) {
    let e = last_space_end(input);
    (input.take(e as int), input.skip(e as int))
}

/// The line up to and with its last white space, and the token after it, being typed.
pub fn split_last_token(input: &str) -> (r: (String, String))
    ensures
        (r.0@, r.1@) == last_token_split(input@),
{
    let v = chars_of(input);
    let e = last_space_end_at(v.as_slice());
    proof {
        assert(v@.subrange(0, e as int) == v@.take(e as int));
        assert(v@.subrange(e as int, v@.len() as int) == v@.skip(e as int));
    }
    (string_of(slice_of(v.as_slice(), 0, e).as_slice()), string_of(slice_of(v.as_slice(), e, v.len()).as_slice()))
}

/// What follows a completed option: nothing after a `key=`, a space otherwise.
pub open spec fn after_option(option: Seq<char>) -> Seq<char> {
    if option.len() > 0 && option.last() == '=' {
        Seq::empty()
    } else {
        seq![' ']
    }
}

/// The line and what tab cycles through, after tab (or shift-tab when `backwards`) with
/// `candidates` for the token being typed: the first time, the token's completions are taken
/// and the first one replaces it; while cycling, the candidates are not looked at and the next
/// (or previous) option replaces the one in hand, wrapping around.
pub open spec fn completed(
    state: (Seq<char>, Option<(Seq<char>, Seq<Seq<char>>, nat)>),
    candidates: Seq<Seq<char>>,
    backwards: bool,
) -> (Seq<char>, Option<(Seq<char>, Seq<Seq<char>>, nat)>) {
    let (line, cycling) = state;
    match cycling {
        None => {
            let (prefix, token) = last_token_split(line);
            let opts = completions(token, candidates);
            if opts.len() == 0 {
                (line, None)
            } else {
                (prefix + opts[0] + after_option(opts[0]), Some((prefix, opts, 0nat)))
            }
        },
        Some((p, os, at)) => {
            let next = step(at, os.len(), backwards);
            (p + os[next as int] + after_option(os[next as int]), Some((p, os, next)))
        },
    }
}

/// `k` tabs forward in a row.
pub open spec fn tabbed(
    state: (Seq<char>, Option<(Seq<char>, Seq<Seq<char>>, nat)>),
    candidates: Seq<Seq<char>>,
    k: nat,
) -> (Seq<char>, Option<(Seq<char>, Seq<Seq<char>>, nat)>)
    decreases k,
{
    if k == 0 {
        state
    } else {
        completed(tabbed(state, candidates, (k - 1) as nat), candidates, false)
    }
}

/// The line while tab cycles with option `at` of `os` in hand after `prefix`.
pub open spec fn cycling_on(prefix: Seq<char>, os: Seq<Seq<char>>, at: nat) -> (
    Seq<char>,
    Option<(Seq<char>, Seq<Seq<char>>, nat)>,
) {
    (prefix + os[at as int] + after_option(os[at as int]), Some((prefix, os, at)))
}

/// `k` tabs forward from option `at` land on option `(at + k) % n`.
proof fn lemma_tabbed(prefix: Seq<char>, os: Seq<Seq<char>>, at: nat, candidates: Seq<Seq<char>>, k: nat)
    requires
        at < os.len(),
    ensures
        tabbed(cycling_on(prefix, os, at), candidates, k) == cycling_on(prefix, os, (at + k) % os.len()),
    decreases k,
{
    let n = os.len();
    if k == 0 {
        vstd::arithmetic::div_mod::lemma_small_mod(at, n);
    } else {
        lemma_tabbed(prefix, os, at, candidates, (k - 1) as nat);
        let x = (at + k - 1) as nat;
        let m = x % n;
        vstd::arithmetic::div_mod::lemma_mod_bound(x as int, n as int);
        vstd::arithmetic::div_mod::lemma_add_mod_noop(x as int, 1, n as int);
        vstd::arithmetic::div_mod::lemma_add_mod_noop(m as int, 1, n as int);
        vstd::arithmetic::div_mod::lemma_small_mod(m, n);
        assert(step(m, n, false) == (at + k) % n);
    }
}

/// While tab is cycling, the candidates are not looked at: tab then shift-tab gives the line
/// back, and as many tabs as there are options go round to the same line.
pub proof fn law_tab_goes_round(
    prefix: Seq<char>,
    os: Seq<Seq<char>>,
    at: nat,
    first: Seq<Seq<char>>,
    second: Seq<Seq<char>>,
)
    requires
        at < os.len(),
    ensures
        completed(completed(cycling_on(prefix, os, at), first, false), second, true) == cycling_on(prefix, os, at),
        completed(completed(cycling_on(prefix, os, at), first, true), second, false) == cycling_on(prefix, os, at),
        tabbed(cycling_on(prefix, os, at), first, os.len()) == cycling_on(prefix, os, at),
{
    crate::complete::law_steps_undo_each_other(at, os.len());
    lemma_tabbed(prefix, os, at, first, os.len());
    assert((at + os.len()) % os.len() == at) by (nonlinear_arith)
        requires
            at < os.len(),
    {
        vstd::arithmetic::div_mod::lemma_add_mod_noop(at as int, os.len() as int, os.len() as int);
        vstd::arithmetic::div_mod::lemma_mod_self_0(os.len() as int);
        vstd::arithmetic::div_mod::lemma_small_mod(at, os.len());
    }
}

/// The options tab cycles through, after the unchanged start of the line.
#[derive(Debug)]
pub struct Options {
    prefix: Vec<char>,
    options: Vec<String>,
    at: usize,
}

impl Options {
    #[verifier::type_invariant]
    spec fn in_hand(self) -> bool {
        0 < self.options@.len() && self.at < self.options@.len()
    }

    spec fn view(self) -> (Seq<char>, Seq<Seq<char>>, nat) {
        (self.prefix@, self.options@.map_values(|s: String| s@), self.at as nat)
    }
}

/// The command line: what is typed, the lines run before, where recall stands and what tab
/// is cycling through.
#[derive(Debug)]
pub struct Palette {
    pub input: String,
    pub history: Vec<String>,
    /// Which line of the history recall stands on, if any.
    pub history_at: Option<usize>,
    /// What tab is cycling through, if it is.
    pub cycle: Option<Options>,
}

impl Palette {
    /// Which line of the history recall stands on, if any.
    pub closed spec fn recalled(&self) -> Option<nat> {
        match self.history_at {
            Some(i) => Some(i as nat),
            None => None,
        }
    }

    /// The start of the line, the options and the one in hand, while tab is cycling.
    pub closed spec fn cycling(&self) -> Option<(Seq<char>, Seq<Seq<char>>, nat)> {
        match self.cycle {
            Some(o) => Some(o.view()),
            None => None,
        }
    }

    /// The history lines, as texts.
    pub open spec fn lines(&self) -> Seq<Seq<char>> {
        self.history@.map_values(|s: String| s@)
    }

    /// The typed line.
    pub open spec fn line(&self) -> Seq<char> {
        self.input@
    }

    /// Recall points inside the history.
    pub closed spec fn wf(&self) -> bool {
        self.recalled() matches Some(i) ==> i < self.history@.len()
    }

    /// A fresh line over the commands run before.
    pub fn with_history(history: Vec<String>) -> (p: Self)
        ensures
            p.line() == Seq::<char>::empty(),
            p.lines() == history@.map_values(|s: String| s@),
            p.recalled() is None,
            p.cycling() is None,
            p.wf(),
    {
        Palette { input: String::new(), history, history_at: None, cycle: None }
    }

    /// Types `c` at the end of the line; any cycling stops.
    pub fn type_char(&mut self, c: char)
        ensures
            final(self).line() == old(self).line().push(c),
            final(self).lines() == old(self).lines(),
            final(self).recalled() == old(self).recalled(),
            final(self).cycling() is None,
    {
        crate::text::push_char(&mut self.input, c);
        self.cycle = None;
    }

    /// Removes the last character of the line, if any; any cycling stops.
    pub fn backspace(&mut self)
        ensures
            final(self).line() == if old(self).line().len() > 0 {
                old(self).line().drop_last()
            } else {
                old(self).line()
            },
            final(self).lines() == old(self).lines(),
            final(self).recalled() == old(self).recalled(),
            final(self).cycling() is None,
    {
        let v = chars_of(self.input.as_str());
        if v.len() > 0 {
            let w = slice_of(v.as_slice(), 0, v.len() - 1);
            self.input = string_of(w.as_slice());
        }
        self.cycle = None;
    }

    /// Replaces the token being typed with the next candidate; `candidates` supplies the
    /// labels for the slot under the cursor.
    pub fn complete(&mut self, candidates: &[String], backwards: bool)
        ensures
            final(self).lines() == old(self).lines(),
            final(self).recalled() == old(self).recalled(),
            (final(self).line(), final(self).cycling()) == completed(
                (old(self).line(), old(self).cycling()),
                candidates@.map_values(|s: String| s@),
                backwards,
            ),
    {
        let ghost old_self = *self;
        if self.cycle.is_none() {
            let v = chars_of(self.input.as_str());
            let e = last_space_end_at(v.as_slice());
            let prefix = slice_of(v.as_slice(), 0, e);
            let token = slice_of(v.as_slice(), e, v.len());
            proof {
                assert(v@.subrange(0, e as int) == v@.take(e as int));
                assert(v@.subrange(e as int, v@.len() as int) == v@.skip(e as int));
            }
            let ranked = rank(string_of(token.as_slice()).as_str(), candidates);
            if ranked.len() == 0 {
                return;
            }
            self.cycle = Some(Options { prefix, options: ranked, at: 0 });
        } else {
            let mut o = self.cycle.take().unwrap();
            proof {
                use_type_invariant(&o);
            }
            let n = o.options.len();
            let at = o.at;
            let next = if backwards {
                if at == 0 {
                    n - 1
                } else {
                    at - 1
                }
            } else {
                if at + 1 == n {
                    0
                } else {
                    at + 1
                }
            };
            proof {
                crate::complete::lemma_step(at as nat, n as nat, backwards);
            }
            o.at = next;
            self.cycle = Some(o);
        }
        let o = self.cycle.as_ref().unwrap();
        proof {
            use_type_invariant(o);
        }
        let chosen = &o.options[o.at];
        let chosen_chars = chars_of(chosen.as_str());
        let mut line = string_of(o.prefix.as_slice());
        line.append(chosen.as_str());
        let ends_eq = chosen_chars.len() > 0 && chosen_chars[chosen_chars.len() - 1] == '=';
        if !ends_eq {
            line.append(" ");
            proof {
                reveal_strlit(" ");
            }
        }
        proof {
            assert(o.options@.map_values(|s: String| s@)[o.at as int] == chosen@);
            if ends_eq {
                assert(o.prefix@ + chosen@ == o.prefix@ + chosen@ + Seq::<char>::empty());
            }
        }
        self.input = line;
    }

    /// The grey text zsh-style autosuggestion would show after the cursor: the rest of the
    /// best completion for the token being typed, or nothing when the token is empty or complete.
    pub fn ghost(&self, candidates: &[String]) -> (r: Option<String>)
        ensures
            self.cycling() is Some ==> r is None,
            self.cycling() is None ==> match r {
                Some(g) => ghost_text(
                    last_token_split(self.line()).1,
                    candidates@.map_values(|s: String| s@),
                ) == Some(g@),
                None => ghost_text(
                    last_token_split(self.line()).1,
                    candidates@.map_values(|s: String| s@),
                ) is None,
            },
    {
        if self.cycle.is_some() {
            return None;
        }
        let v = chars_of(self.input.as_str());
        let e = last_space_end_at(v.as_slice());
        let token = slice_of(v.as_slice(), e, v.len());
        proof {
            assert(v@.subrange(e as int, v@.len() as int) == v@.skip(e as int));
        }
        ghost(string_of(token.as_slice()).as_str(), candidates)
    }

    /// Accepts the ghost text, as `→` does in a shell.
    pub fn accept(&mut self, candidates: &[String])
        ensures
            final(self).lines() == old(self).lines(),
            final(self).recalled() == old(self).recalled(),
            final(self).cycling() == old(self).cycling(),
            ({
                let g = if old(self).cycling() is Some {
                    None
                } else {
                    ghost_text(
                        last_token_split(old(self).line()).1,
                        candidates@.map_values(|s: String| s@),
                    )
                };
                match g {
                    Some(rest) => final(self).line() == old(self).line() + rest + after_option(
                        old(self).line() + rest,
                    ),
                    None => final(self).line() == old(self).line(),
                }
            }),
    {
        if let Some(rest) = self.ghost(candidates) {
            self.input.append(rest.as_str());
            let v = chars_of(self.input.as_str());
            if !(v.len() > 0 && v[v.len() - 1] == '=') {
                self.input.append(" ");
                proof {
                    reveal_strlit(" ");
                }
            }
        }
    }

    /// The row shown while tab is cycling: the option in hand between brackets, then the next few.
    pub fn hint(&self) -> (r: Option<String>)
        ensures
            match self.cycling() {
                None => r is None,
                Some((_, os, at)) => r is Some && r.unwrap()@ == hint_row(
                    os.subrange(
                        at as int,
                        if at + SHOWN <= os.len() {
                            at + SHOWN
                        } else {
                            os.len() as int
                        },
                    ),
                ),
            },
    {
        let o = match &self.cycle {
            Some(o) => o,
            None => return None,
        };
        proof {
            use_type_invariant(o);
        }
        let n = o.options.len();
        let end = if n - o.at >= SHOWN {
            o.at + SHOWN
        } else {
            n
        };
        let ghost os = o.options@.map_values(|s: String| s@);
        let ghost shown = os.subrange(o.at as int, end as int);
        let mut row = String::new();
        let mut i = o.at;
        while i < end
            invariant
                o.at <= i <= end <= n,
                n == o.options@.len(),
                os == o.options@.map_values(|s: String| s@),
                shown == os.subrange(o.at as int, end as int),
                i > o.at ==> row@ == hint_row(shown.take(i - o.at)),
                i == o.at ==> row@ == Seq::<char>::empty(),
            decreases end - i,
        {
            let ghost before = row@;
            proof {
                assert(os[i as int] == o.options@[i as int]@);
            }
            if i == o.at {
                row.append("[");
                row.append(o.options[i].as_str());
                row.append("]");
                proof {
                    reveal_strlit("[");
                    reveal_strlit("]");
                    let t = shown.take(1);
                    assert(t[0] == os[i as int]);
                    assert(t.drop_first().len() == 0);
                    assert(row@ =~= hint_row(t));
                }
            } else {
                row.append("  ");
                row.append(o.options[i].as_str());
                proof {
                    reveal_strlit("  ");
                    let k = i - o.at;
                    let t = shown.take(k + 1);
                    let t0 = shown.take(k);
                    assert(t[0] == t0[0]);
                    assert(t.drop_first().drop_last() == t0.drop_first());
                    assert(t.drop_first().last() == os[i as int]);
                    assert(before == hint_row(t0));
                    assert(crate::complete::trailing_labels(t.drop_first()) == crate::complete::trailing_labels(t0.drop_first())
                        + seq![' ', ' '] + os[i as int]);
                    assert(row@ =~= hint_row(t));
                }
            }
            i += 1;
        }
        proof {
            assert(shown.take(end - o.at) == shown);
        }
        Some(row)
    }

    /// Steps back through the lines run before, stopping at the oldest.
    pub fn history_up(&mut self)
        requires
            old(self).wf(),
        ensures
            final(self).wf(),
            final(self).lines() == old(self).lines(),
            old(self).lines().len() == 0 ==> final(self).line() == old(self).line()
                && final(self).recalled() == old(self).recalled() && final(self).cycling()
                == old(self).cycling(),
            old(self).lines().len() > 0 ==> ({
                let at = recall_up(old(self).lines().len(), old(self).recalled());
                &&& final(self).recalled() == Some(at)
                &&& final(self).line() == old(self).lines()[at as int]
                &&& final(self).cycling() is None
            }),
    {
        if self.history.len() == 0 {
            return;
        }
        let at = match self.history_at {
            Some(i) => if i > 0 {
                i - 1
            } else {
                0
            },
            None => self.history.len() - 1,
        };
        self.history_at = Some(at);
        self.input = copy_string(&self.history[at]);
        self.cycle = None;
    }

    /// Steps forward through the lines run before; past the newest, the line is empty again.
    pub fn history_down(&mut self)
        requires
            old(self).wf(),
        ensures
            final(self).wf(),
            final(self).lines() == old(self).lines(),
            old(self).recalled() is None ==> final(self).line() == old(self).line()
                && final(self).recalled() is None && final(self).cycling() == old(self).cycling(),
            old(self).recalled() matches Some(i) ==> final(self).cycling() is None
                && final(self).recalled() == recall_down(old(self).lines().len(), i)
                && final(self).line() == match recall_down(old(self).lines().len(), i) {
                Some(j) => old(self).lines()[j as int],
                None => Seq::<char>::empty(),
            },
    {
        let Some(at) = self.history_at else { return };
        let n = self.history.len();
        assert(at < n);
        if at + 1 >= n {
            self.history_at = None;
            self.input = String::new();
        } else {
            self.history_at = Some(at + 1);
            self.input = copy_string(&self.history[at + 1]);
        }
        self.cycle = None;
    }

    /// Takes the line, remembers it, and leaves the palette empty for the next command.
    pub fn submit(&mut self) -> (line: String)
        ensures
            line@ == trim(old(self).line()),
            final(self).line() == Seq::<char>::empty(),
            final(self).recalled() is None,
            final(self).cycling() is None,
            final(self).wf(),
            final(self).lines() == remembered(old(self).lines(), line@),
    {
        let v = chars_of(self.input.as_str());
        let t = crate::text::trimmed(v.as_slice());
        let line = string_of(t.as_slice());
        self.input = String::new();
        let n = self.history.len();
        let fresh = if n == 0 {
            true
        } else {
            !crate::text::same_text(t.as_slice(), self.history[n - 1].as_str())
        };
        proof {
            if n > 0 {
                assert(self.lines().last() == self.history@[n - 1]@);
            }
        }
        if t.len() > 0 && fresh {
            self.history.push(copy_string(&line));
            proof {
                assert(self.lines() =~= old(self).lines().push(line@));
            }
        }
        self.history_at = None;
        self.cycle = None;
        line
    }
}

/// The history after submitting `line`: it goes at the end, unless it is empty or repeats the
/// newest line.
pub open spec fn remembered(lines: Seq<Seq<char>>, line: Seq<char>) -> Seq<Seq<char>> {
    if line.len() > 0 && (lines.len() == 0 || lines.last() != line) {
        lines.push(line)
    } else {
        lines
    }
}

/// Where recall stands after `↑` in a history of `len` lines: one older, stopping at the
/// oldest; from a fresh line, the newest.
pub open spec fn recall_up(len: nat, recalled: Option<nat>) -> nat {
    match recalled {
        Some(i) => if i > 0 {
            (i - 1) as nat
        } else {
            0
        },
        None => (len - 1) as nat,
    }
}

/// Where recall stands after `↓` from line `i`: one newer, or a fresh line past the newest.
pub open spec fn recall_down(len: nat, i: nat) -> Option<nat> {
    if i + 1 >= len {
        None
    } else {
        Some(i + 1)
    }
}

/// A submitted line that is not blank is the newest line of the history afterwards, and is
/// never stored twice in a row.
pub proof fn law_submit_remembers(lines: Seq<Seq<char>>, line: Seq<char>)
    ensures
        line.len() > 0 ==> remembered(lines, line).len() > 0 && remembered(lines, line).last()
            == line,
        line.len() == 0 ==> remembered(lines, line) == lines,
        lines.len() > 0 && lines.last() == line ==> remembered(lines, line) == lines,
        remembered(lines, line).take(lines.len() as int) == lines,
{
    assert(lines.push(line).take(lines.len() as int) == lines);
    assert(lines.take(lines.len() as int) == lines);
}

/// `↓` undoes `↑`: from a fresh line, up then down is a fresh line again; from a recalled line
/// that is not the oldest, up then down lands on it again.
pub proof fn law_recall_round_trip(len: nat, recalled: Option<nat>)
    requires
        len > 0,
        recalled matches Some(i) ==> 0 < i < len,
    ensures
        recall_down(len, recall_up(len, recalled)) == recalled,
{
}

impl Default for Palette {
    fn default() -> (p: Self)
        ensures
            p.line() == Seq::<char>::empty(),
            p.lines().len() == 0,
            p.recalled() is None,
            p.cycling() is None,
    {
        Palette::with_history(Vec::new())
    }
}

/// A key as the command line reads it; `Ctrl` is a letter pressed with control.
#[derive(Clone, Copy, Debug, PartialEq, Eq, Structural)]
pub enum PaletteKey {
    Esc,
    Enter,
    Backspace,
    Tab,
    BackTab,
    Up,
    Down,
    Right,
    End,
    Char(char),
    Ctrl(char),
    Other,
}

/// What a key asks of the app: nothing more, closing the line, or running a submitted line.
#[derive(Debug, PartialEq, Eq)]
pub enum PaletteOutcome {
    Stay,
    Close,
    Run(String),
}

impl Palette {
    /// What `key` does to the line: `esc` closes it, and so does `backspace` on an empty line;
    /// typing and `backspace` edit it; tab and shift-tab cycle through `candidates`, the
    /// completions of the token being typed; `→` and `end` take the grey suggestion; the
    /// arrows up and down walk the history; `enter` hands the line over to be run.
    pub fn key(&mut self, key: PaletteKey, candidates: &[String]) -> (r: PaletteOutcome)
        requires
            old(self).wf(),
        ensures
            final(self).wf(),
            match key {
                PaletteKey::Esc => r is Close,
                PaletteKey::Enter => r matches PaletteOutcome::Run(line) && line@ == trim(old(self).line())
                    && final(self).lines() == remembered(old(self).lines(), line@) && final(self).line()
                    == Seq::<char>::empty() && final(self).recalled() is None && final(self).cycling() is None,
                PaletteKey::Backspace => if old(self).line().len() == 0 {
                    r is Close
                } else {
                    r is Stay && final(self).line() == old(self).line().drop_last() && final(self).lines()
                        == old(self).lines() && final(self).recalled() == old(self).recalled()
                        && final(self).cycling() is None
                },
                PaletteKey::Char(c) => r is Stay && final(self).line() == old(self).line().push(c)
                    && final(self).lines() == old(self).lines() && final(self).recalled() == old(
                    self,
                ).recalled() && final(self).cycling() is None,
                PaletteKey::Tab | PaletteKey::BackTab => r is Stay && final(self).lines() == old(self).lines()
                    && final(self).recalled() == old(self).recalled() && ({
                    let backwards = key == PaletteKey::BackTab;
                    let (prefix, token) = last_token_split(old(self).line());
                    let opts = completions(token, candidates@.map_values(|s: String| s@));
                    match old(self).cycling() {
                        None => if opts.len() == 0 {
                            final(self).line() == old(self).line() && final(self).cycling() is None
                        } else {
                            final(self).cycling() == Some((prefix, opts, 0nat)) && final(self).line()
                                == prefix + opts[0] + after_option(opts[0])
                        },
                        Some((p, os, at)) => {
                            let next = step(at, os.len(), backwards);
                            final(self).cycling() == Some((p, os, next)) && final(self).line() == p
                                + os[next as int] + after_option(os[next as int])
                        },
                    }
                }),
                PaletteKey::Right | PaletteKey::End => r is Stay && final(self).lines() == old(self).lines()
                    && final(self).recalled() == old(self).recalled() && final(self).cycling() == old(
                    self,
                ).cycling() && ({
                    let g = if old(self).cycling() is Some {
                        None
                    } else {
                        ghost_text(
                            last_token_split(old(self).line()).1,
                            candidates@.map_values(|s: String| s@),
                        )
                    };
                    match g {
                        Some(rest) => final(self).line() == old(self).line() + rest + after_option(
                            old(self).line() + rest,
                        ),
                        None => final(self).line() == old(self).line(),
                    }
                }),
                PaletteKey::Up => r is Stay && final(self).lines() == old(self).lines() && (old(
                    self,
                ).lines().len() == 0 ==> final(self).line() == old(self).line() && final(self).recalled()
                    == old(self).recalled() && final(self).cycling() == old(self).cycling()) && (old(
                    self,
                ).lines().len() > 0 ==> ({
                    let at = recall_up(old(self).lines().len(), old(self).recalled());
                    &&& final(self).recalled() == Some(at)
                    &&& final(self).line() == old(self).lines()[at as int]
                    &&& final(self).cycling() is None
                })),
                PaletteKey::Down => r is Stay && final(self).lines() == old(self).lines() && (old(
                    self,
                ).recalled() is None ==> final(self).line() == old(self).line() && final(self).recalled()
                    is None && final(self).cycling() == old(self).cycling()) && (old(self).recalled() matches Some(
                    i,
                ) ==> final(self).cycling() is None && final(self).recalled() == recall_down(
                    old(self).lines().len(),
                    i,
                ) && final(self).line() == match recall_down(old(self).lines().len(), i) {
                    Some(j) => old(self).lines()[j as int],
                    None => Seq::<char>::empty(),
                }),
                _ => r is Stay && final(self).line() == old(self).line() && final(self).lines() == old(
                    self,
                ).lines() && final(self).recalled() == old(self).recalled() && final(self).cycling()
                    == old(self).cycling(),
            },
    {
        match key {
            PaletteKey::Esc => PaletteOutcome::Close,
            PaletteKey::Char(c) => {
                self.type_char(c);
                PaletteOutcome::Stay
            },
            PaletteKey::Backspace => {
                if self.input.as_str().is_empty() {
                    PaletteOutcome::Close
                } else {
                    self.backspace();
                    PaletteOutcome::Stay
                }
            },
            PaletteKey::Tab => {
                self.complete(candidates, false);
                PaletteOutcome::Stay
            },
            PaletteKey::BackTab => {
                self.complete(candidates, true);
                PaletteOutcome::Stay
            },
            PaletteKey::Up => {
                self.history_up();
                PaletteOutcome::Stay
            },
            PaletteKey::Down => {
                self.history_down();
                PaletteOutcome::Stay
            },
            PaletteKey::Right | PaletteKey::End => {
                self.accept(candidates);
                PaletteOutcome::Stay
            },
            PaletteKey::Enter => PaletteOutcome::Run(self.submit()),
            _ => PaletteOutcome::Stay,
        }
    }
}


/// The periods `:snooze` offers, in the order its completion lists their words.
pub open spec fn snooze_periods() -> Seq<Snooze> {
    seq![Snooze::OneHour, Snooze::ThreeHours, Snooze::Tomorrow, Snooze::NextWeek]
}

proof fn lemma_snooze_verb(rest: Seq<char>)
    ensures
        command_with_argument("snooze"@, rest) == Some(snooze_parsed(rest)),
        command_with_argument("z"@, rest) == Some(snooze_parsed(rest)),
{
    reveal_strlit("join");
    reveal_strlit("j");
    reveal_strlit("leave");
    reveal_strlit("go");
    reveal_strlit("g");
    reveal_strlit("c");
    reveal_strlit("msg");
    reveal_strlit("m");
    reveal_strlit("dm");
    reveal_strlit("react");
    reveal_strlit("r");
    reveal_strlit("search");
    reveal_strlit("s");
    reveal_strlit("/");
    reveal_strlit("export");
    reveal_strlit("e");
    reveal_strlit("snooze");
    reveal_strlit("z");
    assert("snooze"@ != "join"@) by { assert("snooze"@.len() != "join"@.len()); }
    assert("snooze"@ != "j"@) by { assert("snooze"@.len() != "j"@.len()); }
    assert("snooze"@ != "leave"@) by { assert("snooze"@.len() != "leave"@.len()); }
    assert("snooze"@ != "go"@) by { assert("snooze"@.len() != "go"@.len()); }
    assert("snooze"@ != "g"@) by { assert("snooze"@.len() != "g"@.len()); }
    assert("snooze"@ != "c"@) by { assert("snooze"@.len() != "c"@.len()); }
    assert("snooze"@ != "msg"@) by { assert("snooze"@.len() != "msg"@.len()); }
    assert("snooze"@ != "m"@) by { assert("snooze"@.len() != "m"@.len()); }
    assert("snooze"@ != "dm"@) by { assert("snooze"@.len() != "dm"@.len()); }
    assert("snooze"@ != "react"@) by { assert("snooze"@.len() != "react"@.len()); }
    assert("snooze"@ != "r"@) by { assert("snooze"@.len() != "r"@.len()); }
    assert("snooze"@ != "search"@) by { assert("snooze"@[1] != "search"@[1]); }
    assert("snooze"@ != "s"@) by { assert("snooze"@.len() != "s"@.len()); }
    assert("snooze"@ != "/"@) by { assert("snooze"@.len() != "/"@.len()); }
    assert("snooze"@ != "export"@) by { assert("snooze"@[0] != "export"@[0]); }
    assert("snooze"@ != "e"@) by { assert("snooze"@.len() != "e"@.len()); }
    assert("z"@ != "join"@) by { assert("z"@.len() != "join"@.len()); }
    assert("z"@ != "j"@) by { assert("z"@[0] != "j"@[0]); }
    assert("z"@ != "leave"@) by { assert("z"@.len() != "leave"@.len()); }
    assert("z"@ != "go"@) by { assert("z"@.len() != "go"@.len()); }
    assert("z"@ != "g"@) by { assert("z"@[0] != "g"@[0]); }
    assert("z"@ != "c"@) by { assert("z"@[0] != "c"@[0]); }
    assert("z"@ != "msg"@) by { assert("z"@.len() != "msg"@.len()); }
    assert("z"@ != "m"@) by { assert("z"@[0] != "m"@[0]); }
    assert("z"@ != "dm"@) by { assert("z"@.len() != "dm"@.len()); }
    assert("z"@ != "react"@) by { assert("z"@.len() != "react"@.len()); }
    assert("z"@ != "r"@) by { assert("z"@[0] != "r"@[0]); }
    assert("z"@ != "search"@) by { assert("z"@.len() != "search"@.len()); }
    assert("z"@ != "s"@) by { assert("z"@[0] != "s"@[0]); }
    assert("z"@ != "/"@) by { assert("z"@[0] != "/"@[0]); }
    assert("z"@ != "export"@) by { assert("z"@.len() != "export"@.len()); }
    assert("z"@ != "e"@) by { assert("z"@[0] != "e"@[0]); }
}

proof fn lemma_snooze_words()
    ensures
        snooze_parsed("1h"@) == Ok::<CommandView, Seq<char>>(CommandView::Snooze(Snooze::OneHour)),
        snooze_parsed("3h"@) == Ok::<CommandView, Seq<char>>(CommandView::Snooze(Snooze::ThreeHours)),
        snooze_parsed("tomorrow"@) == Ok::<CommandView, Seq<char>>(CommandView::Snooze(Snooze::Tomorrow)),
        snooze_parsed("monday"@) == Ok::<CommandView, Seq<char>>(CommandView::Snooze(Snooze::NextWeek)),
        snooze_parsed("week"@) == Ok::<CommandView, Seq<char>>(CommandView::Snooze(Snooze::NextWeek)),
        snooze_parsed("1"@) == Ok::<CommandView, Seq<char>>(CommandView::Snooze(Snooze::OneHour)),
        snooze_parsed("3"@) == Ok::<CommandView, Seq<char>>(CommandView::Snooze(Snooze::ThreeHours)),
        snooze_parsed("tmr"@) == Ok::<CommandView, Seq<char>>(CommandView::Snooze(Snooze::Tomorrow)),
{
    reveal_strlit("1h");
    reveal_strlit("1");
    reveal_strlit("3h");
    reveal_strlit("3");
    reveal_strlit("tomorrow");
    reveal_strlit("tmr");
    reveal_strlit("monday");
    reveal_strlit("week");
    assert("3h"@ != "1h"@) by { assert("3h"@[0] != "1h"@[0]); }
    assert("3h"@ != "1"@) by { assert("3h"@.len() != "1"@.len()); }
    assert("tomorrow"@ != "1h"@) by { assert("tomorrow"@.len() != "1h"@.len()); }
    assert("tomorrow"@ != "1"@) by { assert("tomorrow"@.len() != "1"@.len()); }
    assert("tomorrow"@ != "3h"@) by { assert("tomorrow"@.len() != "3h"@.len()); }
    assert("tomorrow"@ != "3"@) by { assert("tomorrow"@.len() != "3"@.len()); }
    assert("monday"@ != "1h"@) by { assert("monday"@.len() != "1h"@.len()); }
    assert("monday"@ != "1"@) by { assert("monday"@.len() != "1"@.len()); }
    assert("monday"@ != "3h"@) by { assert("monday"@.len() != "3h"@.len()); }
    assert("monday"@ != "3"@) by { assert("monday"@.len() != "3"@.len()); }
    assert("monday"@ != "tomorrow"@) by { assert("monday"@.len() != "tomorrow"@.len()); }
    assert("monday"@ != "tmr"@) by { assert("monday"@.len() != "tmr"@.len()); }
    assert("week"@ != "1h"@) by { assert("week"@.len() != "1h"@.len()); }
    assert("week"@ != "1"@) by { assert("week"@.len() != "1"@.len()); }
    assert("week"@ != "3h"@) by { assert("week"@.len() != "3h"@.len()); }
    assert("week"@ != "3"@) by { assert("week"@.len() != "3"@.len()); }
    assert("week"@ != "tomorrow"@) by { assert("week"@.len() != "tomorrow"@.len()); }
    assert("week"@ != "tmr"@) by { assert("week"@.len() != "tmr"@.len()); }
    assert("week"@ != "monday"@) by { assert("week"@.len() != "monday"@.len()); }
    assert("3"@ != "1"@) by { assert("3"@[0] != "1"@[0]); }
    assert("3"@ != "1h"@) by { assert("3"@.len() != "1h"@.len()); }
    assert("tmr"@ != "1"@) by { assert("tmr"@.len() != "1"@.len()); }
    assert("tmr"@ != "1h"@) by { assert("tmr"@.len() != "1h"@.len()); }
    assert("tmr"@ != "3"@) by { assert("tmr"@.len() != "3"@.len()); }
    assert("tmr"@ != "3h"@) by { assert("tmr"@.len() != "3h"@.len()); }
}

/// The words the completion offers after `:snooze`, in order.
pub open spec fn snooze_words() -> Seq<Seq<char>> {
    seq!["1h"@, "3h"@, "tomorrow"@, "monday"@]
}

/// Each word the completion offers after `:snooze` names its own period: `1h` an hour, `3h`
/// three hours, `tomorrow` the next day and `monday` the next week, which `week` names too;
/// no two offered words snooze for the same time.
#[verifier::rlimit(60)]
pub proof fn law_snooze_words_name_their_periods()
    ensures
        verb_slot("snooze"@) == SlotView::Literal(snooze_words()),
        snooze_words().len() == snooze_periods().len(),
        forall|i: int|
            0 <= i < snooze_words().len() ==> #[trigger] command_with_argument("snooze"@, snooze_words()[i])
                == Some(Ok::<CommandView, Seq<char>>(CommandView::Snooze(snooze_periods()[i]))),
        forall|i: int, j: int|
            0 <= i < j < snooze_periods().len() ==> #[trigger] snooze_periods()[i] != #[trigger] snooze_periods()[j],
        command_with_argument("snooze"@, "week"@) == command_with_argument("snooze"@, "monday"@),
        command_with_argument("z"@, "monday"@) == command_with_argument("snooze"@, "monday"@),
{
    lemma_snooze_words();

    lemma_snooze_verb("1h"@);
    lemma_snooze_verb("3h"@);
    lemma_snooze_verb("tomorrow"@);
    lemma_snooze_verb("monday"@);
    lemma_snooze_verb("week"@);
    lemma_snooze_slot();
}

proof fn lemma_snooze_slot()
    ensures
        verb_slot("snooze"@) == SlotView::Literal(seq!["1h"@, "3h"@, "tomorrow"@, "monday"@]),
{
    reveal_strlit("join");
    reveal_strlit("j");
    reveal_strlit("leave");
    reveal_strlit("go");
    reveal_strlit("g");
    reveal_strlit("c");
    reveal_strlit("msg");
    reveal_strlit("m");
    reveal_strlit("dm");
    reveal_strlit("react");
    reveal_strlit("r");
    reveal_strlit("export");
    reveal_strlit("e");
    reveal_strlit("snooze");
    assert("snooze"@ != "join"@) by { assert("snooze"@.len() != "join"@.len()); }
    assert("snooze"@ != "j"@) by { assert("snooze"@.len() != "j"@.len()); }
    assert("snooze"@ != "leave"@) by { assert("snooze"@.len() != "leave"@.len()); }
    assert("snooze"@ != "go"@) by { assert("snooze"@.len() != "go"@.len()); }
    assert("snooze"@ != "g"@) by { assert("snooze"@.len() != "g"@.len()); }
    assert("snooze"@ != "c"@) by { assert("snooze"@.len() != "c"@.len()); }
    assert("snooze"@ != "msg"@) by { assert("snooze"@.len() != "msg"@.len()); }
    assert("snooze"@ != "m"@) by { assert("snooze"@.len() != "m"@.len()); }
    assert("snooze"@ != "dm"@) by { assert("snooze"@.len() != "dm"@.len()); }
    assert("snooze"@ != "react"@) by { assert("snooze"@.len() != "react"@.len()); }
    assert("snooze"@ != "r"@) by { assert("snooze"@.len() != "r"@.len()); }
    assert("snooze"@ != "export"@) by { assert("snooze"@[0] != "export"@[0]); }
    assert("snooze"@ != "e"@) by { assert("snooze"@.len() != "e"@.len()); }
}


/// Any other word after `:snooze` is refused.
pub proof fn law_other_snooze_words_are_refused(w: Seq<char>)
    requires
        !(w == "1h"@ || w == "1"@ || w == "3h"@ || w == "3"@ || w == "tomorrow"@ || w == "tmr"@
            || w == "monday"@ || w == "week"@),
    ensures
        command_with_argument("snooze"@, w) matches Some(Err(_)),
{
    lemma_snooze_verb(w);
}


/// `1`, `3` and `tmr` are short for `1h`, `3h` and `tomorrow`.
pub proof fn law_snooze_short_words()
    ensures
        command_with_argument("snooze"@, "1"@) == command_with_argument("snooze"@, "1h"@),
        command_with_argument("snooze"@, "3"@) == command_with_argument("snooze"@, "3h"@),
        command_with_argument("snooze"@, "tmr"@) == command_with_argument("snooze"@, "tomorrow"@),
{
    lemma_snooze_words();
    lemma_snooze_verb("1"@);
    lemma_snooze_verb("1h"@);
    lemma_snooze_verb("3"@);
    lemma_snooze_verb("3h"@);
    lemma_snooze_verb("tmr"@);
    lemma_snooze_verb("tomorrow"@);
}

} // verus!
