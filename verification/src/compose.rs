//! Writing a message in `$EDITOR`: which editor to open, and what of the file that comes back
//! is worth sending.
use crate::text::{
    chars_of, opt_view, same_chars, split_words, string_of, texts, trim, trimmed, words,
};
use vstd::prelude::*;

verus! {

/// The editor opened when none is configured.
pub const FALLBACK: &'static str = "vi";

/// What is sent of an edited file: its text without surrounding blanks, and nothing when the
/// editor gave up, the text is empty or the draft came back untouched.
pub open spec fn sent(draft: Seq<char>, edited: Seq<char>, editor_ok: bool) -> Option<Seq<char>> {
    let text = trim(edited);
    if editor_ok && text != trim(draft) && text.len() > 0 {
        Some(text)
    } else {
        None
    }
}

/// The message to send once the editor closed, if any.
pub fn to_send(draft: &str, edited: &str, editor_ok: bool) -> (r: Option<String>)
    ensures
        match r {
            Some(t) => sent(draft@, edited@, editor_ok) == Some(t@),
            None => sent(draft@, edited@, editor_ok) is None,
        },
{
    let text = trimmed(chars_of(edited).as_slice());
    let before = trimmed(chars_of(draft).as_slice());
    let changed = !same_chars(text.as_slice(), before.as_slice());
    if editor_ok && changed && text.len() > 0 {
        Some(string_of(text.as_slice()))
    } else {
        None
    }
}

/// The editor to open, and the arguments it was configured with, as in `EDITOR="code -w"`.
#[derive(Debug, PartialEq, Eq)]
pub struct Editor {
    pub program: String,
    pub args: Vec<String>,
}

/// The command configured: `$VISUAL` when set, else `$EDITOR`, else nothing.
pub open spec fn command(visual: Option<Seq<char>>, editor: Option<Seq<char>>) -> Seq<char> {
    match visual {
        Some(v) => v,
        None => match editor {
            Some(e) => e,
            None => Seq::empty(),
        },
    }
}

/// The program of a command, its first word, or `FALLBACK` when it has none.
pub open spec fn program_of(command: Seq<char>) -> Seq<char> {
    if words(command).len() > 0 {
        words(command)[0]
    } else {
        FALLBACK@
    }
}

/// The arguments of a command: its words after the first.
pub open spec fn args_of(command: Seq<char>) -> Seq<Seq<char>> {
    if words(command).len() > 0 {
        words(command).drop_first()
    } else {
        Seq::empty()
    }
}

impl Editor {
    /// The editor `$VISUAL` names, else the one `$EDITOR` names, else `vi`; the command's
    /// other words are its arguments.
    pub fn pick(visual: Option<String>, editor: Option<String>) -> (r: Self)
        ensures
            r.program@ == program_of(command(opt_view(visual), opt_view(editor))),
            texts(r.args@) == args_of(command(opt_view(visual), opt_view(editor))),
    {
        let command = match visual {
            Some(v) => v,
            None => match editor {
                Some(e) => e,
                None => String::new(),
            },
        };
        let ws = split_words(chars_of(command.as_str()).as_slice());
        let ghost wv = ws@.map_values(|w: Vec<char>| w@);
        if ws.len() == 0 {
            return Editor { program: FALLBACK.to_owned(), args: Vec::new() };
        }
        assert(wv[0] == ws@[0]@);
        let program = string_of(ws[0].as_slice());
        let mut args: Vec<String> = Vec::new();
        let mut i: usize = 1;
        while i < ws.len()
            invariant
                1 <= i <= ws@.len(),
                wv == ws@.map_values(|w: Vec<char>| w@),
                texts(args@) == wv.subrange(1, i as int),
            decreases ws.len() - i,
        {
            let ghost before = args@;
            args.push(string_of(ws[i].as_slice()));
            assert(texts(args@) == texts(before).push(wv[i as int]));
            assert(wv.subrange(1, i + 1) == wv.subrange(1, i as int).push(wv[i as int]));
            i += 1;
        }
        assert(wv.subrange(1, wv.len() as int) == wv.drop_first());
        Editor { program, args }
    }
}

} // verus!
