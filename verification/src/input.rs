//! The react row's completion of emoji names: the grey end of the name being typed after the
//! cursor, and `→` taking it.
use crate::complete::{ghost, ghost_text};
use crate::emoji::{name_of, shortcode};
use crate::field::{typed, Field};
use crate::text::{chars_of, texts};
use vstd::prelude::*;

verus! {

/// The name the row completes: what is typed, or the name of a pasted glyph.
pub open spec fn token_of(text: Seq<char>) -> Seq<char> {
    match name_of(text) {
        Some(n) => n,
        None => text,
    }
}

/// The grey suggestion after the cursor: only with the cursor at the end of `text`, never
/// while tab is cycling, never empty.
pub open spec fn suggestion(text: Seq<char>, at: nat, cycling: bool, candidates: Seq<Seq<char>>) -> Option<Seq<char>> {
    if cycling || at != text.len() {
        None
    } else {
        match ghost_text(token_of(text), candidates) {
            Some(g) => if g.len() > 0 {
                Some(g)
            } else {
                None
            },
            None => None,
        }
    }
}

/// The end of the emoji name being typed, to show in grey after the cursor.
pub fn input_ghost(buffer: &Field, cycling: bool, candidates: &[String]) -> (r: Option<String>)
    ensures
        match r {
            Some(g) => suggestion(buffer.chars(), buffer.at(), cycling, texts(candidates@)) == Some(g@),
            None => suggestion(buffer.chars(), buffer.at(), cycling, texts(candidates@)) is None,
        },
{
    if cycling || !buffer.at_end() {
        return None;
    }
    let text = buffer.text();
    match ghost(shortcode(text.as_str()), candidates) {
        Some(g) => if !g.as_str().is_empty() {
            Some(g)
        } else {
            None
        },
        None => None,
    }
}

/// `→` on the react row: takes the suggested end of the name, leaving the cursor after it,
/// and says whether there was one.
pub fn accept_ghost(buffer: &mut Field, cycling: bool, candidates: &[String]) -> (r: bool)
    ensures
        match suggestion(old(buffer).chars(), old(buffer).at(), cycling, texts(candidates@)) {
            Some(g) => r && final(buffer).chars() == old(buffer).chars() + g && final(buffer).at() == old(
                buffer,
            ).at() + g.len(),
            None => !r && final(buffer).chars() == old(buffer).chars() && final(buffer).at() == old(
                buffer,
            ).at(),
        },
{
    let rest = match input_ghost(buffer, cycling, candidates) {
        Some(g) => g,
        None => return false,
    };
    let ghost start = buffer.chars();
    let cs = chars_of(rest.as_str());
    let mut k: usize = 0;
    assert(start + cs@.take(0) == start);
    while k < cs.len()
        invariant
            k <= cs@.len(),
            buffer.chars() == start + cs@.take(k as int),
            buffer.at() == start.len() + k,
        decreases cs.len() - k,
    {
        let ghost before = buffer.chars();
        buffer.insert(cs[k]);
        proof {
            assert(before.take(before.len() as int) == before);
            assert(before.skip(before.len() as int) == Seq::<char>::empty());
            assert(cs@.take(k + 1) == cs@.take(k as int).push(cs@[k as int]));
            assert(buffer.chars() == start + cs@.take(k + 1));
        }
        k += 1;
    }
    assert(cs@.take(cs@.len() as int) == cs@);
    true
}

} // verus!
