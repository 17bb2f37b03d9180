//! The emoji the app knows by name, with the glyph each one draws, and the way back from a
//! pasted glyph to the name Slack wants.
use crate::order::{key_views, sorted_order, sorts, Key};
use crate::text::{chars_of, push_char};
use vstd::prelude::*;

verus! {

/// Every known emoji as (name, glyph), by name. A glyph is kept without skin tone or
/// presentation selector.
pub open spec fn table() -> Seq<(Seq<char>, Seq<char>)> {
    seq![
        ("+1"@, "👍"@),
        ("-1"@, "👎"@),
        ("100"@, "💯"@),
        ("arrows_counterclockwise"@, "🔄"@),
        ("bug"@, "🐛"@),
        ("clap"@, "👏"@),
        ("eyes"@, "👀"@),
        ("fire"@, "🔥"@),
        ("heart"@, "❤"@),
        ("joy"@, "😂"@),
        ("pray"@, "🙏"@),
        ("raised_hands"@, "🙌"@),
        ("rocket"@, "🚀"@),
        ("smile"@, "😄"@),
        ("sob"@, "😭"@),
        ("tada"@, "🎉"@),
        ("thinking_face"@, "🤔"@),
        ("wave"@, "👋"@),
        ("white_check_mark"@, "✅"@),
        ("x"@, "❌"@),
    ]
}

/// The names of `table`, in its order.
pub open spec fn names() -> Seq<Seq<char>> {
    table().map_values(|e: (Seq<char>, Seq<char>)| e.0)
}

/// The table as the program holds it.
fn entries() -> (r: Vec<(&'static str, &'static str)>)
    ensures
        r@.map_values(|e: (&str, &str)| (e.0@, e.1@)) == table(),
{
    let r = vec![
        ("+1", "👍"),
        ("-1", "👎"),
        ("100", "💯"),
        ("arrows_counterclockwise", "🔄"),
        ("bug", "🐛"),
        ("clap", "👏"),
        ("eyes", "👀"),
        ("fire", "🔥"),
        ("heart", "❤"),
        ("joy", "😂"),
        ("pray", "🙏"),
        ("raised_hands", "🙌"),
        ("rocket", "🚀"),
        ("smile", "😄"),
        ("sob", "😭"),
        ("tada", "🎉"),
        ("thinking_face", "🤔"),
        ("wave", "👋"),
        ("white_check_mark", "✅"),
        ("x", "❌"),
    ];
    assert(r@.map_values(|e: (&str, &str)| (e.0@, e.1@)) =~= table());
    r
}

/// A character that only shades the glyph before it: a skin tone, or the selector that asks
/// for emoji presentation.
pub open spec fn is_modifier(c: char) -> bool {
    ('\u{1F3FB}' <= c && c <= '\u{1F3FF}') || c == '\u{FE0F}'
}

/// `s` without its modifiers.
pub open spec fn bare(s: Seq<char>) -> Seq<char>
    decreases s.len(),
{
    if s.len() == 0 {
        s
    } else if is_modifier(s.last()) {
        bare(s.drop_last())
    } else {
        bare(s.drop_last()).push(s.last())
    }
}

/// The first entry of `table` from `i` on whose glyph is `g`.
pub open spec fn glyph_from(g: Seq<char>, i: nat) -> Option<nat>
    decreases table().len() - i,
{
    if i >= table().len() {
        None
    } else if table()[i as int].1 == g {
        Some(i)
    } else {
        glyph_from(g, i + 1)
    }
}

/// A skin tone or presentation selector after a glyph does not change which emoji it is.
pub proof fn law_shading_keeps_the_name(text: Seq<char>, shade: char)
    requires
        is_modifier(shade),
    ensures
        name_of(text.push(shade)) == name_of(text),
{
    assert(text.push(shade).drop_last() == text);
}

/// The name Slack knows the glyph `text` by, shading aside; `None` for anything else.
pub open spec fn name_of(text: Seq<char>) -> Option<Seq<char>> {
    match glyph_from(bare(text), 0) {
        Some(i) => Some(table()[i as int].0),
        None => None,
    }
}

fn is_modifier_char(c: char) -> (r: bool)
    ensures
        r == is_modifier(c),
{
    ('\u{1F3FB}' <= c && c <= '\u{1F3FF}') || c == '\u{FE0F}'
}

/// The name of a pasted glyph, if it is one the table knows.
pub fn name_for(text: &str) -> (r: Option<&'static str>)
    ensures
        match r {
            Some(n) => name_of(text@) == Some(n@),
            None => name_of(text@) is None,
        },
{
    let v = chars_of(text);
    let mut b = String::new();
    let mut i: usize = 0;
    while i < v.len()
        invariant
            i <= v@.len(),
            v@ == text@,
            b@ == bare(v@.take(i as int)),
        decreases v.len() - i,
    {
        proof {
            let t = v@.take(i + 1);
            assert(t.drop_last() == v@.take(i as int));
            assert(t.last() == v@[i as int]);
        }
        if !is_modifier_char(v[i]) {
            push_char(&mut b, v[i]);
        }
        i += 1;
    }
    assert(v@.take(v@.len() as int) == v@);
    let known = entries();
    let ghost views = known@.map_values(|e: (&str, &str)| (e.0@, e.1@));
    let glyph = chars_of(b.as_str());
    let mut k: usize = 0;
    while k < known.len()
        invariant
            k <= known@.len(),
            views == table(),
            views == known@.map_values(|e: (&str, &str)| (e.0@, e.1@)),
            glyph@ == bare(text@),
            glyph_from(bare(text@), 0) == glyph_from(bare(text@), k as nat),
        decreases known.len() - k,
    {
        let (name, g) = known[k];
        assert(views[k as int] == (name@, g@));
        if crate::text::same_text(glyph.as_slice(), g) {
            return Some(name);
        }
        k += 1;
    }
    None
}

/// The first entry of `table` from `i` on named `name`.
pub open spec fn name_from(name: Seq<char>, i: nat) -> Option<nat>
    decreases table().len() - i,
{
    if i >= table().len() {
        None
    } else if table()[i as int].0 == name {
        Some(i)
    } else {
        name_from(name, i + 1)
    }
}

/// The glyph the emoji `name` draws, if the table knows it.
pub open spec fn glyph_of(name: Seq<char>) -> Option<Seq<char>> {
    match name_from(name, 0) {
        Some(i) => Some(table()[i as int].1),
        None => None,
    }
}

/// The glyph of a known emoji name; custom emoji have none.
pub fn glyph(name: &str) -> (r: Option<&'static str>)
    ensures
        match r {
            Some(g) => glyph_of(name@) == Some(g@),
            None => glyph_of(name@) is None,
        },
{
    let known = entries();
    let ghost views = known@.map_values(|e: (&str, &str)| (e.0@, e.1@));
    let mut k: usize = 0;
    while k < known.len()
        invariant
            k <= known@.len(),
            views == table(),
            views == known@.map_values(|e: (&str, &str)| (e.0@, e.1@)),
            name_from(name@, 0) == name_from(name@, k as nat),
        decreases known.len() - k,
    {
        let (n, g) = known[k];
        assert(views[k as int] == (n@, g@));
        if crate::text::same_str(n, name) {
            return Some(g);
        }
        k += 1;
    }
    None
}

/// Reactions travel by name, so a pasted glyph becomes its name; anything else stands as typed.
pub fn shortcode(text: &str) -> (r: &str)
    ensures
        match name_of(text@) {
            Some(n) => r@ == n,
            None => r@ == text@,
        },
{
    match name_for(text) {
        Some(name) => name,
        None => text,
    }
}

/// The sort keys that order names alphabetically.
pub open spec fn name_keys(names: Seq<Seq<char>>) -> Seq<(nat, Seq<char>)> {
    names.map_values(|n: Seq<char>| (0nat, n))
}

/// Every known emoji name, in alphabetical order.
pub fn emoji_names() -> (r: Vec<String>)
    ensures
        exists|order: Seq<usize>|
            #![trigger sorts(name_keys(names()), order)]
            sorts(name_keys(names()), order) && r@.map_values(|s: String| s@) == order.map_values(
                |i: usize| names()[i as int],
            ),
{
    let known = entries();
    let ghost views = known@.map_values(|e: (&str, &str)| (e.0@, e.1@));
    let mut keys: Vec<Key> = Vec::new();
    let mut i: usize = 0;
    while i < known.len()
        invariant
            i <= known@.len(),
            views == table(),
            views == known@.map_values(|e: (&str, &str)| (e.0@, e.1@)),
            keys@.len() == i,
            forall|j: int| 0 <= j < i ==> #[trigger] keys@[j]@ == (0nat, names()[j]),
        decreases known.len() - i,
    {
        let (name, _) = known[i];
        assert(views[i as int].0 == name@);
        keys.push(Key { rank: 0, text: chars_of(name) });
        i += 1;
    }
    assert(key_views(keys@) =~= name_keys(names()));
    let order = sorted_order(keys.as_slice());
    let mut r: Vec<String> = Vec::new();
    let mut k: usize = 0;
    while k < order.len()
        invariant
            k <= order@.len(),
            sorts(name_keys(names()), order@),
            views == table(),
            views == known@.map_values(|e: (&str, &str)| (e.0@, e.1@)),
            r@.map_values(|s: String| s@) == order@.take(k as int).map_values(
                |i: usize| names()[i as int],
            ),
        decreases order.len() - k,
    {
        let (name, _) = known[order[k]];
        assert(views[order@[k as int] as int].0 == name@);
        assert(names()[order@[k as int] as int] == name@);
        let ghost old_r = r@;
        r.push(name.to_owned());
        assert(r@.map_values(|s: String| s@) == old_r.map_values(|s: String| s@).push(name@));
        assert(order@.take(k + 1) == order@.take(k as int).push(order@[k as int]));
        assert(r@.map_values(|s: String| s@) =~= order@.take(k + 1).map_values(
            |i: usize| names()[i as int],
        ));
        k += 1;
    }
    assert(order@.take(order@.len() as int) == order@);
    r
}

} // verus!
