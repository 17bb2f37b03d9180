//! The one-row input: its text and where the cursor sits, in one value so the two cannot drift.
//! The cursor counts characters, so an accent or an emoji is always stepped over whole.
use crate::text::{
    chars_of, cut, is_white_space, last_space_end, slice_of, string_of, trim_end, trim_end_at,
};
use vstd::prelude::*;

verus! {

/// The characters typed so far and the cursor between two of them (or at either end).
#[derive(Debug, PartialEq)]
pub struct Field {
    text: Vec<char>,
    cursor: usize,
}

impl Field {
    #[verifier::type_invariant]
    spec fn cursor_fits(self) -> bool {
        self.cursor <= self.text@.len()
    }

    /// The cursor never stands past the last character.
    pub fn cursor_inside(&self)
        ensures
            self.at() <= self.chars().len(),
    {
        proof {
            use_type_invariant(self);
        }
    }

    /// The characters of the row.
    pub closed spec fn chars(self) -> Seq<char> {
        self.text@
    }

    /// How many characters sit before the cursor.
    pub closed spec fn at(self) -> nat {
        self.cursor as nat
    }

    /// Starts on `text` with the cursor after its last character, where typing goes on.
    pub fn new(text: &str) -> (f: Self)
        ensures
            f.chars() == text@,
            f.at() == text@.len(),
    {
        let text = chars_of(text);
        let cursor = text.len();
        Field { text, cursor }
    }

    /// An empty row.
    pub fn empty() -> (f: Self)
        ensures
            f.chars() == Seq::<char>::empty(),
            f.at() == 0,
    {
        Field { text: Vec::new(), cursor: 0 }
    }

    /// The text of the row.
    pub fn text(&self) -> (s: String)
        ensures
            s@ == self.chars(),
    {
        string_of(self.text.as_slice())
    }

    /// Hands the text over and leaves the row empty.
    pub fn take(&mut self) -> (s: String)
        ensures
            s@ == old(self).chars(),
            final(self).chars() == Seq::<char>::empty(),
            final(self).at() == 0,
    {
        let s = string_of(self.text.as_slice());
        *self = Field::empty();
        s
    }

    /// Empties the row.
    pub fn clear(&mut self)
        ensures
            final(self).chars() == Seq::<char>::empty(),
            final(self).at() == 0,
    {
        *self = Field::empty();
    }

    /// Whether the cursor is past the last character.
    pub fn at_end(&self) -> (r: bool)
        ensures
            r == (self.at() == self.chars().len()),
    {
        self.cursor == self.text.len()
    }

    /// What sits before the cursor, the character under it (empty past the last one), and the rest.
    pub fn split(&self) -> (parts: (String, String, String))
        ensures
            (parts.0@, parts.1@, parts.2@) == pieces(self.chars(), self.at()),
    {
        proof {
            use_type_invariant(self);
        }
        let n = self.text.len();
        let c = self.cursor;
        let under_end = if c < n { c + 1 } else { c };
        let before = slice_of(self.text.as_slice(), 0, c);
        let under = slice_of(self.text.as_slice(), c, under_end);
        let after = slice_of(self.text.as_slice(), under_end, n);
        proof {
            assert(self.text@.subrange(0, c as int) == self.text@.take(c as int));
            assert(self.text@.subrange(under_end as int, n as int) == self.text@.skip(
                under_end as int,
            ));
        }
        (
            string_of(before.as_slice()),
            string_of(under.as_slice()),
            string_of(after.as_slice()),
        )
    }

    /// Types `c` where the cursor is; the cursor moves past it.
    pub fn insert(&mut self, c: char)
        ensures
            (final(self).chars(), final(self).at()) == typed(old(self).chars(), old(self).at(), c),
    {
        proof {
            use_type_invariant(&*self);
        }
        let at = self.cursor;
        let mut text = self.text.clone();
        proof {
            assert(text@ == self.text@);
        }
        text.insert(at, c);
        assert(at < text.len());
        proof {
            assert(text@ == self.text@.take(at as int).push(c) + self.text@.skip(at as int));
        }
        *self = Field { text, cursor: at + 1 };
    }

    /// Removes the character before the cursor; nothing at the start.
    pub fn backspace(&mut self)
        ensures
            (final(self).chars(), final(self).at()) == erased_before(
                old(self).chars(),
                old(self).at(),
            ),
    {
        proof {
            use_type_invariant(&*self);
        }
        let Some(prev) = self.prev() else { return };
        let text = cut(self.text.as_slice(), prev, self.cursor);
        *self = Field { text, cursor: prev };
    }

    /// Removes the character under the cursor; nothing at the end.
    pub fn delete(&mut self)
        ensures
            (final(self).chars(), final(self).at()) == erased_under(
                old(self).chars(),
                old(self).at(),
            ),
    {
        proof {
            use_type_invariant(&*self);
        }
        let n = self.text.len();
        let at = self.cursor;
        if at < n {
            let text = cut(self.text.as_slice(), at, at + 1);
            *self = Field { text, cursor: at };
        }
    }

    /// Deletes back to the start of the word the cursor follows, the spaces in between included.
    pub fn delete_word(&mut self)
        ensures
            (final(self).chars(), final(self).at()) == word_erased(
                old(self).chars(),
                old(self).at(),
            ),
    {
        proof {
            use_type_invariant(&*self);
        }
        let from = self.word_start();
        let text = cut(self.text.as_slice(), from, self.cursor);
        *self = Field { text, cursor: from };
    }

    /// One character to the left, staying at the start.
    pub fn left(&mut self)
        ensures
            (final(self).chars(), final(self).at()) == moved_left(old(self).chars(), old(self).at()),
    {
        proof {
            use_type_invariant(&*self);
        }
        let to = match self.prev() {
            Some(p) => p,
            None => 0,
        };
        self.cursor = to;
    }

    /// One character to the right, staying at the end.
    pub fn right(&mut self)
        ensures
            (final(self).chars(), final(self).at()) == moved_right(
                old(self).chars(),
                old(self).at(),
            ),
    {
        proof {
            use_type_invariant(&*self);
        }
        let to = match self.next() {
            Some(n) => n,
            None => self.cursor,
        };
        self.cursor = to;
    }

    /// Moves the cursor before the first character.
    pub fn start(&mut self)
        ensures
            final(self).chars() == old(self).chars(),
            final(self).at() == 0,
    {
        self.cursor = 0;
    }

    /// Moves the cursor past the last character.
    pub fn end(&mut self)
        ensures
            final(self).chars() == old(self).chars(),
            final(self).at() == old(self).chars().len(),
    {
        self.cursor = self.text.len();
    }

    /// Where the character before the cursor starts, if there is one.
    fn prev(&self) -> (r: Option<usize>)
        ensures
            self.at() == 0 ==> r is None,
            self.at() > 0 ==> r is Some && r.unwrap() == self.at() - 1,
    {
        if self.cursor > 0 {
            Some(self.cursor - 1)
        } else {
            None
        }
    }

    /// Where the character under the cursor ends, if there is one.
    fn next(&self) -> (r: Option<usize>)
        ensures
            self.at() >= self.chars().len() ==> r is None,
            self.at() < self.chars().len() ==> r is Some && r.unwrap() == self.at() + 1,
    {
        if self.cursor < self.text.len() {
            Some(self.cursor + 1)
        } else {
            None
        }
    }

    fn word_start(&self) -> (r: usize)
        ensures
            r == word_start(self.chars(), self.at()),
            r <= self.at(),
    {
        proof {
            use_type_invariant(self);
        }
        let v = self.text.as_slice();
        let e = trim_end_at(v, self.cursor);
        let mut j = e;
        while j > 0 && !crate::text::is_whitespace(v[j - 1])
            invariant
                j <= e <= v@.len(),
                last_space_end(v@.take(e as int)) == last_space_end(v@.take(j as int)),
            decreases j,
        {
            proof {
                let t = v@.take(j as int);
                assert(t.last() == v@[j - 1]);
                assert(t.drop_last() == v@.take(j - 1));
            }
            j -= 1;
        }
        proof {
            let t = v@.take(j as int);
            if j > 0 {
                assert(t.last() == v@[j - 1]);
            }
        }
        j
    }
}

/// Where a word deletion from `at` stops: just past the last white space before the word the
/// cursor follows (trailing white space counts as part of that word), or the start of the text.
pub open spec fn word_start(text: Seq<char>, at: nat) -> nat {
    last_space_end(trim_end(text.take(at as int)))
}

/// What sits before `at`, the character under it (nothing past the last one), and the rest.
pub open spec fn pieces(text: Seq<char>, at: nat) -> (Seq<char>, Seq<char>, Seq<char>) {
    let end = if at < text.len() { at + 1int } else { at as int };
    (text.take(at as int), text.subrange(at as int, end), text.skip(end))
}

/// The three pieces put back together give the text; the middle one holds at most one
/// character, none exactly at the end, and then nothing follows it.
pub proof fn law_pieces_rejoin(text: Seq<char>, at: nat)
    requires
        at <= text.len(),
    ensures
        ({
            let (b, u, a) = pieces(text, at);
            &&& b + u + a == text
            &&& u.len() <= 1
            &&& (u.len() == 0 <==> at == text.len())
            &&& u.len() == 0 ==> a.len() == 0
        }),
{
    let (b, u, a) = pieces(text, at);
    assert(b + u + a =~= text);
}

/// Typing `c` puts it between what stood before the cursor and what stood from it on, and the
/// cursor ends right after it.
pub proof fn law_typing_lands_at_the_cursor(text: Seq<char>, at: nat, c: char)
    requires
        at <= text.len(),
    ensures
        ({
            let (b, u, a) = pieces(text, at);
            let (t, n) = typed(text, at, c);
            let (b2, u2, a2) = pieces(t, n);
            &&& n <= t.len()
            &&& t == b.push(c) + u + a
            &&& b2 == b.push(c)
            &&& u2 + a2 == u + a
        }),
{
    let (b, u, a) = pieces(text, at);
    let (t, n) = typed(text, at, c);
    let (b2, u2, a2) = pieces(t, n);
    assert(t =~= b.push(c) + u + a);
    assert(b2 =~= b.push(c));
    assert(u2 + a2 =~= u + a);
}

/// Typing `c` at `at`: it lands there and the cursor moves past it.
pub open spec fn typed(text: Seq<char>, at: nat, c: char) -> (Seq<char>, nat) {
    (text.take(at as int).push(c) + text.skip(at as int), at + 1)
}

/// Backspace: the character before the cursor goes; nothing happens at the start.
pub open spec fn erased_before(text: Seq<char>, at: nat) -> (Seq<char>, nat) {
    if at == 0 {
        (text, at)
    } else {
        (text.take(at - 1) + text.skip(at as int), (at - 1) as nat)
    }
}

/// Delete: the character under the cursor goes; nothing happens at the end.
pub open spec fn erased_under(text: Seq<char>, at: nat) -> (Seq<char>, nat) {
    if at >= text.len() {
        (text, at)
    } else {
        (text.take(at as int) + text.skip(at + 1int), at)
    }
}

/// Deleting the word before the cursor: everything from `word_start` up to the cursor goes.
pub open spec fn word_erased(text: Seq<char>, at: nat) -> (Seq<char>, nat) {
    let from = word_start(text, at);
    (text.take(from as int) + text.skip(at as int), from)
}

/// One step left, stopping at the start.
pub open spec fn moved_left(text: Seq<char>, at: nat) -> (Seq<char>, nat) {
    (text, if at > 0 { (at - 1) as nat } else { 0 })
}

/// One step right, stopping at the end.
pub open spec fn moved_right(text: Seq<char>, at: nat) -> (Seq<char>, nat) {
    (text, if at < text.len() { at + 1 } else { at })
}

/// Backspace right after typing a character takes it back: the row is as it was.
pub proof fn law_backspace_undoes_typing(text: Seq<char>, at: nat, c: char)
    requires
        at <= text.len(),
    ensures
        erased_before(typed(text, at, c).0, typed(text, at, c).1) == (text, at),
{
    let t = typed(text, at, c).0;
    assert(t.take(at as int) == text.take(at as int));
    assert(t.skip(at + 1int) == text.skip(at as int));
    assert(text.take(at as int) + text.skip(at as int) == text);
}

/// Delete after moving left over a character just typed takes it back too.
pub proof fn law_left_then_delete_undoes_typing(text: Seq<char>, at: nat, c: char)
    requires
        at <= text.len(),
    ensures
        ({
            let (t, a) = typed(text, at, c);
            let (t2, a2) = moved_left(t, a);
            erased_under(t2, a2) == (text, at)
        }),
{
    let t = typed(text, at, c).0;
    assert(t.take(at as int) == text.take(at as int));
    assert(t.skip(at + 1int) == text.skip(at as int));
    assert(text.take(at as int) + text.skip(at as int) == text);
}

/// Right undoes left, except at the start where left did nothing; left undoes right, except at
/// the end. Moving never changes the text.
pub proof fn law_moves_are_inverse(text: Seq<char>, at: nat)
    requires
        at <= text.len(),
    ensures
        at > 0 ==> moved_right(moved_left(text, at).0, moved_left(text, at).1) == (text, at),
        at < text.len() ==> moved_left(moved_right(text, at).0, moved_right(text, at).1) == (
            text,
            at,
        ),
        moved_left(text, at).0 == text,
        moved_right(text, at).0 == text,
{
}

/// Every edit keeps the cursor between the first and the last character.
pub proof fn law_cursor_stays_inside(text: Seq<char>, at: nat, c: char)
    requires
        at <= text.len(),
    ensures
        typed(text, at, c).1 <= typed(text, at, c).0.len(),
        erased_before(text, at).1 <= erased_before(text, at).0.len(),
        erased_under(text, at).1 <= erased_under(text, at).0.len(),
        word_erased(text, at).1 <= word_erased(text, at).0.len(),
        moved_left(text, at).1 <= moved_left(text, at).0.len(),
        moved_right(text, at).1 <= moved_right(text, at).0.len(),
{
    lemma_word_start_bound(text, at);
}

/// Deleting a word only touches what sits before the cursor: what follows it stays, after the
/// cursor.
pub proof fn law_word_deletion_keeps_what_follows(text: Seq<char>, at: nat)
    requires
        at <= text.len(),
    ensures
        ({
            let (t, a) = word_erased(text, at);
            t.skip(a as int) == text.skip(at as int) && t.take(a as int) == text.take(a as int)
        }),
{
    lemma_word_start_bound(text, at);
    let (t, a) = word_erased(text, at);
    assert(t.skip(a as int) == text.skip(at as int));
    assert(t.take(a as int) == text.take(a as int));
}

proof fn lemma_last_space_end_bound(s: Seq<char>)
    ensures
        last_space_end(s) <= s.len(),
    decreases s.len(),
{
    if s.len() > 0 && !is_white_space(s.last()) {
        lemma_last_space_end_bound(s.drop_last());
    }
}

proof fn lemma_trim_end_shorter(s: Seq<char>)
    ensures
        trim_end(s).len() <= s.len(),
    decreases s.len(),
{
    if s.len() > 0 && is_white_space(s.last()) {
        lemma_trim_end_shorter(s.drop_last());
    }
}

proof fn lemma_word_start_bound(text: Seq<char>, at: nat)
    requires
        at <= text.len(),
    ensures
        word_start(text, at) <= at,
{
    let w = trim_end(text.take(at as int));
    lemma_trim_end_shorter(text.take(at as int));
    lemma_last_space_end_bound(w);
}

impl Clone for Field {
    fn clone(&self) -> (f: Self)
        ensures
            f.chars() == self.chars(),
            f.at() == self.at(),
    {
        proof {
            use_type_invariant(self);
        }
        let text = self.text.clone();
        proof {
            assert(text@ == self.text@);
        }
        Field { text, cursor: self.cursor }
    }
}

impl Default for Field {
    fn default() -> (f: Self)
        ensures
            f.chars() == Seq::<char>::empty(),
            f.at() == 0,
    {
        Field::empty()
    }
}

} // verus!
