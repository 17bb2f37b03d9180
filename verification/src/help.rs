//! The `?` overlay: every browse key, grouped the way a reader looks for them, and how wide
//! the overlay has to be for every line to fit.
use unicode_width::UnicodeWidthStr;
use vstd::prelude::*;

verus! {

/// The columns `UnicodeWidthStr::width` gives a text on screen.
pub uninterp spec fn width(s: Seq<char>) -> nat;

/// `UnicodeWidthStr::width`: how many columns `s` takes on screen. Its result depends on the
/// text alone; the Unicode width tables it follows are not restated here.
#[verifier::external_body]
fn text_width(s: &str) -> (r: usize)
    ensures
        r == width(s@),
{
    s.width()
}

/// Blank columns between the key column and what the key does.
pub const HELP_GUTTER: usize = 2;

/// Bindings sit under their group name, not next to it.
pub const HELP_INDENT: usize = 2;

/// The note under the keys.
pub const HELP_FOOTER: &'static str = "messages are markdown: **bold** _italic_ `code` @user #channel";

/// A group of the overlay: its name and its bindings, each a key and what it does.
pub type Group = (&'static str, Vec<(&'static str, &'static str)>);

/// A group as texts.
pub open spec fn group_view(g: Group) -> (Seq<char>, Seq<(Seq<char>, Seq<char>)>) {
    (g.0@, g.1@.map_values(|b: (&'static str, &'static str)| (b.0@, b.1@)))
}

/// Every browse key, grouped the way a reader looks for them: each group's name and its
/// bindings, a key and what it does.
pub open spec fn groups_table() -> Seq<(Seq<char>, Seq<(Seq<char>, Seq<char>)>)> {
    seq![
        ("move"@, seq![
            ("tab"@, "cycle panes"@),
            ("j k"@, "move down · up"@),
            ("g G"@, "top · bottom"@),
            ("→ / l"@, "open channel · open the message's thread"@),
            ("← / h"@, "close thread · back to channels"@),
            ("enter"@, "open channel · open thread · jump to result"@),
        ]),
        ("message"@, seq![
            ("r"@, "reply in the focused conversation"@),
            ("t"@, "reply in the selected message's thread"@),
            ("E"@, "write the message in $EDITOR"@),
            ("e / +"@, "react (type the emoji name)"@),
            ("o / y"@, "open in Slack · copy permalink"@),
            ("u"@, "open the message's link in the browser"@),
            (":edit"@, "rewrite your own message"@),
            (":delete"@, "delete your own message, after a yes"@),
        ]),
        ("find"@, seq![
            ("s"@, "search messages"@),
            ("/"@, "filter channels"@),
            ("⌘k / ^k"@, "jump to a channel, person or thread · > searches"@),
            ("i"@, "inbox: unread DMs, mentions, thread replies"@),
            ("p"@, "promises: follow-ups you said you would do, still open"@),
            ("f"@, "firehose: every channel as one live ticker"@),
        ]),
        ("modes"@, seq![
            ("z"@, "reading mode: one centered conversation, nothing else"@),
            (":"@, "command line: :join :go :msg :react :search :export :read …"@),
            ("R"@, "refresh"@),
            ("esc"@, "close thread · clear search or filter"@),
            ("q"@, "quit"@),
        ]),
    ]
}

/// Every browse key, grouped the way a reader looks for them.
pub fn help_groups() -> (r: Vec<Group>)
    ensures
        groups_view(r@) == groups_table(),
{
    let r = vec![
        ("move", vec![
            ("tab", "cycle panes"),
            ("j k", "move down · up"),
            ("g G", "top · bottom"),
            ("→ / l", "open channel · open the message's thread"),
            ("← / h", "close thread · back to channels"),
            ("enter", "open channel · open thread · jump to result"),
        ]),
        ("message", vec![
            ("r", "reply in the focused conversation"),
            ("t", "reply in the selected message's thread"),
            ("E", "write the message in $EDITOR"),
            ("e / +", "react (type the emoji name)"),
            ("o / y", "open in Slack · copy permalink"),
            ("u", "open the message's link in the browser"),
            (":edit", "rewrite your own message"),
            (":delete", "delete your own message, after a yes"),
        ]),
        ("find", vec![
            ("s", "search messages"),
            ("/", "filter channels"),
            ("⌘k / ^k", "jump to a channel, person or thread · > searches"),
            ("i", "inbox: unread DMs, mentions, thread replies"),
            ("p", "promises: follow-ups you said you would do, still open"),
            ("f", "firehose: every channel as one live ticker"),
        ]),
        ("modes", vec![
            ("z", "reading mode: one centered conversation, nothing else"),
            (":", "command line: :join :go :msg :react :search :export :read …"),
            ("R", "refresh"),
            ("esc", "close thread · clear search or filter"),
            ("q", "quit"),
        ]),
    ];
    assert(groups_view(r@) =~= groups_table()) by {
        assert(group_view(r@[0]) == groups_table()[0]) by {
            assert(r@[0].1@.map_values(|b: (&'static str, &'static str)| (b.0@, b.1@)) =~= groups_table()[0].1);
        }
        assert(group_view(r@[1]) == groups_table()[1]) by {
            assert(r@[1].1@.map_values(|b: (&'static str, &'static str)| (b.0@, b.1@)) =~= groups_table()[1].1);
        }
        assert(group_view(r@[2]) == groups_table()[2]) by {
            assert(r@[2].1@.map_values(|b: (&'static str, &'static str)| (b.0@, b.1@)) =~= groups_table()[2].1);
        }
        assert(group_view(r@[3]) == groups_table()[3]) by {
            assert(r@[3].1@.map_values(|b: (&'static str, &'static str)| (b.0@, b.1@)) =~= groups_table()[3].1);
        }
    }
    r
}

/// The bindings of `groups`, group after group.
pub open spec fn bindings_of(groups: Seq<(Seq<char>, Seq<(Seq<char>, Seq<char>)>)>) -> Seq<(Seq<char>, Seq<char>)>
    decreases groups.len(),
{
    if groups.len() == 0 {
        Seq::empty()
    } else {
        bindings_of(groups.drop_last()) + groups.last().1
    }
}

/// The larger of `a` and `b`.
pub open spec fn larger(a: nat, b: nat) -> nat {
    if a >= b {
        a
    } else {
        b
    }
}

/// The widest key of `bindings`, 0 when there is none.
pub open spec fn key_width(bindings: Seq<(Seq<char>, Seq<char>)>) -> nat
    decreases bindings.len(),
{
    if bindings.len() == 0 {
        0
    } else {
        larger(key_width(bindings.drop_last()), width(bindings.last().0))
    }
}

/// The widest binding line of `bindings`, its key column `key_w` wide.
pub open spec fn line_width(bindings: Seq<(Seq<char>, Seq<char>)>, key_w: nat) -> nat
    decreases bindings.len(),
{
    if bindings.len() == 0 {
        0
    } else {
        larger(
            line_width(bindings.drop_last(), key_w),
            (HELP_INDENT + key_w + HELP_GUTTER + width(bindings.last().1)) as nat,
        )
    }
}

/// The widest group name of `groups`.
pub open spec fn name_width(groups: Seq<(Seq<char>, Seq<(Seq<char>, Seq<char>)>)>) -> nat
    decreases groups.len(),
{
    if groups.len() == 0 {
        0
    } else {
        larger(name_width(groups.drop_last()), width(groups.last().0))
    }
}

/// The views of `groups`.
pub open spec fn groups_view(groups: Seq<Group>) -> Seq<(Seq<char>, Seq<(Seq<char>, Seq<char>)>)> {
    groups.map_values(|g: Group| group_view(g))
}

/// The bindings of `groups`, group after group.
fn bindings_in(groups: &Vec<Group>) -> (r: Vec<(&'static str, &'static str)>)
    ensures
        r@.map_values(|b: (&'static str, &'static str)| (b.0@, b.1@)) == bindings_of(groups_view(groups@)),
{
    let ghost gv = groups_view(groups@);
    let mut r: Vec<(&'static str, &'static str)> = Vec::new();
    let mut i: usize = 0;
    while i < groups.len()
        invariant
            i <= groups@.len(),
            gv == groups_view(groups@),
            r@.map_values(|b: (&'static str, &'static str)| (b.0@, b.1@)) == bindings_of(gv.take(i as int)),
        decreases groups.len() - i,
    {
        let ghost before = r@.map_values(|b: (&'static str, &'static str)| (b.0@, b.1@));
        let list = &groups[i].1;
        let ghost lv = list@.map_values(|b: (&'static str, &'static str)| (b.0@, b.1@));
        let mut k: usize = 0;
        while k < list.len()
            invariant
                k <= list@.len(),
                lv == list@.map_values(|b: (&'static str, &'static str)| (b.0@, b.1@)),
                r@.map_values(|b: (&'static str, &'static str)| (b.0@, b.1@)) == before + lv.take(k as int),
            decreases list.len() - k,
        {
            let ghost old_r = r@;
            r.push(list[k]);
            assert(r@.map_values(|b: (&'static str, &'static str)| (b.0@, b.1@)) == old_r.map_values(
                |b: (&'static str, &'static str)| (b.0@, b.1@),
            ).push(lv[k as int]));
            assert(lv.take(k + 1) == lv.take(k as int).push(lv[k as int]));
            assert(r@.map_values(|b: (&'static str, &'static str)| (b.0@, b.1@)) =~= before + lv.take(k + 1));
            k += 1;
        }
        proof {
            let t = gv.take(i + 1);
            assert(t.drop_last() == gv.take(i as int));
            assert(t.last() == group_view(groups@[i as int]));
            assert(lv.take(lv.len() as int) == lv);
        }
        i += 1;
    }
    assert(gv.take(gv.len() as int) == gv);
    r
}

/// The widest key of `bindings`.
fn key_width_in(bindings: &Vec<(&'static str, &'static str)>) -> (r: usize)
    ensures
        r == key_width(bindings@.map_values(|b: (&'static str, &'static str)| (b.0@, b.1@))),
{
    let ghost bv = bindings@.map_values(|b: (&'static str, &'static str)| (b.0@, b.1@));
    let mut w: usize = 0;
    let mut i: usize = 0;
    while i < bindings.len()
        invariant
            i <= bindings@.len(),
            bv == bindings@.map_values(|b: (&'static str, &'static str)| (b.0@, b.1@)),
            w == key_width(bv.take(i as int)),
        decreases bindings.len() - i,
    {
        proof {
            let t = bv.take(i + 1);
            assert(t.drop_last() == bv.take(i as int));
        }
        let k = text_width(bindings[i].0);
        if k > w {
            w = k;
        }
        i += 1;
    }
    assert(bv.take(bv.len() as int) == bv);
    w
}

/// The columns the widest row of the overlay needs: a binding, a group name or the footer,
/// kept to 16 bits as a screen size.
pub open spec fn overlay_width(groups: Seq<(Seq<char>, Seq<(Seq<char>, Seq<char>)>)>) -> u16 {
    let bindings = bindings_of(groups);
    let widest = larger(
        larger(line_width(bindings, key_width(bindings)), name_width(groups)),
        width(HELP_FOOTER@),
    );
    (widest % 0x10000) as u16
}

/// The columns the widest row of the overlay of `groups` needs.
fn width_in(groups: &Vec<Group>) -> (r: u16)
    ensures
        r == overlay_width(groups_view(groups@)),
{
    let ghost gv = groups_view(groups@);
    let bindings = bindings_in(groups);
    let ghost bv = bindings@.map_values(|b: (&'static str, &'static str)| (b.0@, b.1@));
    let key_w = key_width_in(&bindings);
    let mut widest: u128 = 0;
    let mut i: usize = 0;
    while i < bindings.len()
        invariant
            i <= bindings@.len(),
            bv == bindings@.map_values(|b: (&'static str, &'static str)| (b.0@, b.1@)),
            bv == bindings_of(gv),
            key_w == key_width(bv),
            widest == line_width(bv.take(i as int), key_w as nat),
            widest <= 2 * usize::MAX + 4,
        decreases bindings.len() - i,
    {
        proof {
            let t = bv.take(i + 1);
            assert(t.drop_last() == bv.take(i as int));
        }
        let line = HELP_INDENT as u128 + key_w as u128 + HELP_GUTTER as u128 + text_width(bindings[i].1) as u128;
        if line > widest {
            widest = line;
        }
        i += 1;
    }
    assert(bv.take(bv.len() as int) == bv);
    let mut names: u128 = 0;
    let mut g: usize = 0;
    while g < groups.len()
        invariant
            g <= groups@.len(),
            gv == groups_view(groups@),
            names == name_width(gv.take(g as int)),
            names <= usize::MAX,
        decreases groups.len() - g,
    {
        proof {
            let t = gv.take(g + 1);
            assert(t.drop_last() == gv.take(g as int));
            assert(t.last().0 == groups@[g as int].0@);
        }
        let n = text_width(groups[g].0) as u128;
        if n > names {
            names = n;
        }
        g += 1;
    }
    assert(gv.take(gv.len() as int) == gv);
    let footer = text_width(HELP_FOOTER) as u128;
    let mut all = if widest >= names { widest } else { names };
    if footer > all {
        all = footer;
    }
    (all % 0x10000) as u16
}

/// Every binding of the overlay, group after group.
pub fn help_bindings() -> (r: Vec<(&'static str, &'static str)>)
    ensures
        r@.map_values(|b: (&'static str, &'static str)| (b.0@, b.1@)) == bindings_of(groups_table()),
{
    bindings_in(&help_groups())
}

/// The width of the key column: the widest key of the overlay.
pub fn help_key_width() -> (r: usize)
    ensures
        r == key_width(bindings_of(groups_table())),
{
    key_width_in(&help_bindings())
}

/// The columns the widest row of the overlay needs: a binding, a group name or the footer.
pub fn help_width() -> (r: u16)
    ensures
        r == overlay_width(groups_table()),
{
    width_in(&help_groups())
}

} // verus!
