//! What the commands that name a conversation resolve it to: `:go` opens a channel by its
//! label or a person by their handle, `:leave` leaves the one named or the one open.
use crate::sidebar::{channel_named, first_named, row_views, ChannelRow};
use crate::text::{chars_of, copy_string, lowercase, same_chars, to_lower};
use vstd::prelude::*;

verus! {

/// Where `:go` leads.
#[derive(Debug, PartialEq, Eq)]
pub enum Destination {
    /// The channel with this id.
    Channel(String),
    /// The direct messages with the person of this id.
    Person(String),
}

/// The people as (id, handle) texts.
pub open spec fn people_views(people: Seq<(String, String)>) -> Seq<(Seq<char>, Seq<char>)> {
    people.map_values(|p: (String, String)| (p.0@, p.1@))
}

/// The first person from position `i` on whose handle is `handle`, both in lower case.
pub open spec fn first_handle(people: Seq<(Seq<char>, Seq<char>)>, handle: Seq<char>, i: nat) -> Option<nat>
    decreases people.len() - i,
{
    if i >= people.len() {
        None
    } else if lowercase(people[i as int].1) == lowercase(handle) {
        Some(i)
    } else {
        first_handle(people, handle, i + 1)
    }
}

/// The refusal when `target` names no channel and is no `@handle`.
pub open spec fn no_conversation(target: Seq<char>) -> Seq<char> {
    "no conversation called "@ + target
}

/// The refusal when `@handle` names nobody.
pub open spec fn nobody(target: Seq<char>) -> Seq<char> {
    "nobody called "@ + target
}

/// Where `:go target` leads: the channel it names, else, for `@handle`, the person with that
/// handle; a refusal that says which was missing otherwise.
pub fn go(channels: &[ChannelRow], people: &[(String, String)], target: &str) -> (r: Result<Destination, String>)
    ensures
        match first_named(row_views(channels@), target@, 0) {
            Some(k) => r matches Ok(Destination::Channel(id)) && id@ == channels@[k as int].id@,
            None => if target@.len() > 0 && target@[0] == '@' {
                match first_handle(people_views(people@), target@.drop_first(), 0) {
                    Some(j) => r matches Ok(Destination::Person(id)) && id@ == people@[j as int].0@,
                    None => r matches Err(e) && e@ == nobody(target@),
                }
            } else {
                r matches Err(e) && e@ == no_conversation(target@)
            },
        },
{
    match channel_named(channels, target) {
        Some(c) => return Ok(Destination::Channel(copy_string(&c.id))),
        None => {},
    }
    let t = chars_of(target);
    if t.len() == 0 || t[0] != '@' {
        let mut e = String::new();
        e.append("no conversation called ");
        e.append(target);
        proof {
            reveal_strlit("no conversation called ");
        }
        return Err(e);
    }
    let handle = crate::text::string_of(crate::text::slice_of(t.as_slice(), 1, t.len()).as_slice());
    proof {
        assert(t@.subrange(1, t@.len() as int) == target@.drop_first());
    }
    let want = chars_of(to_lower(handle.as_str()).as_str());
    let ghost pv = people_views(people@);
    let mut i: usize = 0;
    while i < people.len()
        invariant
            i <= people@.len(),
            pv == people_views(people@),
            want@ == lowercase(target@.drop_first()),
            first_named(row_views(channels@), target@, 0) is None,
            target@.len() > 0 && target@[0] == '@',
            first_handle(pv, target@.drop_first(), 0) == first_handle(pv, target@.drop_first(), i as nat),
        decreases people.len() - i,
    {
        let h = chars_of(to_lower(people[i].1.as_str()).as_str());
        assert(pv[i as int].1 == people@[i as int].1@);
        if same_chars(h.as_slice(), want.as_slice()) {
            assert(lowercase(pv[i as int].1) == lowercase(target@.drop_first()));
            assert(first_handle(pv, target@.drop_first(), i as nat) == Some(i as nat));
            return Ok(Destination::Person(copy_string(&people[i].0)));
        }
        i += 1;
    }
    let mut e = String::new();
    e.append("nobody called ");
    e.append(target);
    proof {
        reveal_strlit("nobody called ");
    }
    Err(e)
}

/// The refusal of `:leave` with nothing named and nothing open.
pub const NOTHING_TO_LEAVE: &'static str = "no conversation to leave";

/// What `:leave` leaves: the conversation `name` names, else the one `current`ly open; a
/// name that is no channel's label is taken as an id as it stands.
pub fn leave(channels: &[ChannelRow], name: Option<&str>, current: Option<&str>) -> (r: Result<String, String>)
    ensures
        match (name, current) {
            (None, None) => r matches Err(e) && e@ == NOTHING_TO_LEAVE@,
            _ => {
                let target = match name {
                    Some(n) => n@,
                    None => current.unwrap()@,
                };
                r matches Ok(id) && id@ == match first_named(row_views(channels@), target, 0) {
                    Some(k) => channels@[k as int].id@,
                    None => target,
                }
            },
        },
{
    let target = match name {
        Some(n) => n,
        None => match current {
            Some(c) => c,
            None => return Err(NOTHING_TO_LEAVE.to_owned()),
        },
    };
    match channel_named(channels, target) {
        Some(c) => Ok(copy_string(&c.id)),
        None => Ok(target.to_owned()),
    }
}

} // verus!
