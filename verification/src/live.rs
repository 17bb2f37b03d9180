//! Reactions on a message as live events change them: someone adds one, someone takes theirs
//! back. The same event seen twice changes nothing the second time.
use crate::text::{copy_string, copy_texts, same_str, texts};
use vstd::prelude::*;

verus! {

/// One reaction on a message: its name, how many put it there, and who.
#[derive(Debug, PartialEq, Eq)]
pub struct Reaction {
    pub name: String,
    pub count: u32,
    pub users: Vec<String>,
}

/// A reaction as texts and a number.
pub struct ReactionView {
    pub name: Seq<char>,
    pub count: nat,
    pub users: Seq<Seq<char>>,
}

impl View for Reaction {
    type V = ReactionView;

    open spec fn view(&self) -> ReactionView {
        ReactionView { name: self.name@, count: self.count as nat, users: texts(self.users@) }
    }
}

/// The views of `rs`.
pub open spec fn views(rs: Seq<Reaction>) -> Seq<ReactionView> {
    rs.map_values(|r: Reaction| r@)
}

impl Clone for Reaction {
    fn clone(&self) -> (r: Self)
        ensures
            r@ == self@,
    {
        Reaction { name: copy_string(&self.name), count: self.count, users: copy_texts(&self.users) }
    }
}

/// The first reaction from position `i` on named `name`.
pub open spec fn named_from(rs: Seq<ReactionView>, name: Seq<char>, i: nat) -> Option<nat>
    decreases rs.len() - i,
{
    if i >= rs.len() {
        None
    } else if rs[i as int].name == name {
        Some(i)
    } else {
        named_from(rs, name, i + 1)
    }
}

/// `users` without `user`, wherever it appears.
pub open spec fn without(users: Seq<Seq<char>>, user: Seq<char>) -> Seq<Seq<char>>
    decreases users.len(),
{
    if users.len() == 0 {
        users
    } else if users.last() == user {
        without(users.drop_last(), user)
    } else {
        without(users.drop_last(), user).push(users.last())
    }
}

/// What `user` adding (`added`) or taking back a reaction `name` does to one reaction.
pub open spec fn touched(r: ReactionView, user: Seq<char>, added: bool) -> ReactionView {
    let mine = r.users.contains(user);
    if added && !mine {
        ReactionView { name: r.name, count: r.count + 1, users: r.users.push(user) }
    } else if !added && mine {
        ReactionView {
            name: r.name,
            count: if r.count == 0 { 0 } else { (r.count - 1) as nat },
            users: without(r.users, user),
        }
    } else {
        r
    }
}

/// The reactions after `user` adds (`added`) or takes back the reaction `name`: the first
/// reaction of that name changes, and goes once nobody is left on it; a new name is added at
/// the end with its one user; taking back a reaction that is not there changes nothing.
pub open spec fn adjusted(rs: Seq<ReactionView>, name: Seq<char>, user: Seq<char>, added: bool) -> Seq<
    ReactionView,
> {
    match named_from(rs, name, 0) {
        None => if added {
            rs.push(ReactionView { name, count: 1, users: seq![user] })
        } else {
            rs
        },
        Some(i) => {
            let t = touched(rs[i as int], user, added);
            if t.count == 0 {
                rs.remove(i as int)
            } else {
                rs.update(i as int, t)
            }
        },
    }
}

/// Whether the event can be counted: adding a reaction that is not yet `user`'s keeps its count
/// inside `u32`.
pub open spec fn countable(rs: Seq<ReactionView>, name: Seq<char>, user: Seq<char>, added: bool) -> bool {
    match named_from(rs, name, 0) {
        Some(i) => added && !rs[i as int].users.contains(user) ==> rs[i as int].count < u32::MAX,
        None => true,
    }
}

/// Whether `users` holds `user`.
fn holds(users: &Vec<String>, user: &str) -> (r: bool)
    ensures
        r == texts(users@).contains(user@),
{
    let mut i: usize = 0;
    while i < users.len()
        invariant
            i <= users@.len(),
            forall|j: int| 0 <= j < i ==> texts(users@)[j] != user@,
        decreases users.len() - i,
    {
        if same_str(users[i].as_str(), user) {
            assert(texts(users@)[i as int] == user@);
            return true;
        }
        i += 1;
    }
    false
}

/// `users` without `user`.
fn drop_user(users: &Vec<String>, user: &str) -> (r: Vec<String>)
    ensures
        texts(r@) == without(texts(users@), user@),
{
    let mut r: Vec<String> = Vec::new();
    let mut i: usize = 0;
    while i < users.len()
        invariant
            i <= users@.len(),
            texts(r@) == without(texts(users@).take(i as int), user@),
        decreases users.len() - i,
    {
        proof {
            let t = texts(users@).take(i + 1);
            assert(t.drop_last() == texts(users@).take(i as int));
            assert(t.last() == users@[i as int]@);
        }
        if !same_str(users[i].as_str(), user) {
            let ghost before = r@;
            r.push(copy_string(&users[i]));
            assert(texts(r@) == texts(before).push(users@[i as int]@));
        }
        i += 1;
    }
    assert(texts(users@).take(users@.len() as int) == texts(users@));
    r
}

/// Applies one reaction event: `user` added (`added`) or took back the reaction `name`.
pub fn adjust_reaction(reactions: &mut Vec<Reaction>, name: &str, user: &str, added: bool)
    requires
        countable(views(old(reactions)@), name@, user@, added),
    ensures
        views(final(reactions)@) == adjusted(views(old(reactions)@), name@, user@, added),
{
    let ghost rs = views(reactions@);
    let mut i: usize = 0;
    while i < reactions.len() && !same_str(reactions[i].name.as_str(), name)
        invariant
            rs == views(reactions@),
            i <= reactions@.len(),
            named_from(rs, name@, 0) == named_from(rs, name@, i as nat),
        decreases reactions.len() - i,
    {
        i += 1;
    }
    if i == reactions.len() {
        if added {
            let mut users: Vec<String> = Vec::new();
            users.push(user.to_owned());
            assert(texts(users@) =~= seq![user@]);
            reactions.push(Reaction { name: name.to_owned(), count: 1, users });
            assert(views(reactions@) =~= rs.push(ReactionView { name: name@, count: 1, users: seq![user@] }));
        }
        return;
    }
    assert(rs[i as int] == reactions@[i as int]@);
    let mine = holds(&reactions[i].users, user);
    let old_count = reactions[i].count;
    let (count, users) = if added && !mine {
        let mut users = copy_texts(&reactions[i].users);
        users.push(user.to_owned());
        (old_count + 1, users)
    } else if !added && mine {
        (if old_count == 0 { 0 } else { old_count - 1 }, drop_user(&reactions[i].users, user))
    } else {
        (old_count, copy_texts(&reactions[i].users))
    };
    let ghost t = touched(rs[i as int], user@, added);
    assert(texts(users@) == t.users);
    if count == 0 {
        reactions.remove(i);
        assert(views(reactions@) =~= rs.remove(i as int));
    } else {
        let r = Reaction { name: name.to_owned(), count, users };
        assert(r@ == t);
        reactions.set(i, r);
        assert(views(reactions@) =~= rs.update(i as int, t));
    }
}

/// The same reaction event applied twice leaves what applying it once left: live events may
/// arrive again, and a click already shown may come back from Slack.
pub proof fn law_repeated_events_change_nothing(
    rs: Seq<ReactionView>,
    name: Seq<char>,
    user: Seq<char>,
    added: bool,
)
    requires
        countable(rs, name, user, added),
        forall|i: int, j: int|
            #![trigger rs[i], rs[j]]
            0 <= i < j < rs.len() && rs[i].name == name ==> rs[j].name != name,
        forall|i: int|
            #![trigger rs[i]]
            0 <= i < rs.len() && rs[i].name == name && added && rs[i].users.contains(user) ==> rs[i].count
                > 0,
    ensures
        countable(adjusted(rs, name, user, added), name, user, added),
        adjusted(adjusted(rs, name, user, added), name, user, added) == adjusted(rs, name, user, added),
{
    lemma_named_from(rs, name, 0);
    let once = adjusted(rs, name, user, added);
    lemma_named_from(once, name, 0);
    match named_from(rs, name, 0) {
        None => {
            if added {
                assert(once[rs.len() as int].name == name);
                assert(once[rs.len() as int].users == seq![user]);
                assert(once[rs.len() as int].users[0] == user);
            }
        },
        Some(i) => {
            let t = touched(rs[i as int], user, added);
            let mine = rs[i as int].users.contains(user);
            if t.count == 0 {
                assert forall|j: int| 0 <= j < once.len() implies #[trigger] once[j].name != name by {
                    if j < i {
                        assert(once[j] == rs[j]);
                    } else {
                        assert(once[j] == rs[j + 1]);
                    }
                }
            } else {
                assert(once[i as int] == t);
                if added && !mine {
                    assert(t.users[t.users.len() - 1] == user);
                } else if !added && mine {
                    lemma_without(rs[i as int].users, user);
                }
                assert(touched(t, user, added) == t);
                assert(once.update(i as int, t) == once);
            }
        },
    }
}

/// Where `named_from` points, the name is found, and nowhere before it.
pub proof fn lemma_named_from(rs: Seq<ReactionView>, name: Seq<char>, i: nat)
    ensures
        named_from(rs, name, i) matches Some(k) ==> i <= k < rs.len() && rs[k as int].name == name
            && forall|j: int| i <= j < k ==> rs[j].name != name,
        named_from(rs, name, i) is None ==> forall|j: int| i <= j < rs.len() ==> rs[j].name != name,
    decreases rs.len() - i,
{
    if i < rs.len() && rs[i as int].name != name {
        lemma_named_from(rs, name, i + 1);
    }
}

/// Nothing of `user` is left after taking it out.
pub proof fn lemma_without(users: Seq<Seq<char>>, user: Seq<char>)
    ensures
        !without(users, user).contains(user),
    decreases users.len(),
{
    if users.len() > 0 {
        lemma_without(users.drop_last(), user);
        let w = without(users.drop_last(), user);
        if users.last() != user {
            assert forall|k: int| 0 <= k < w.push(users.last()).len() implies w.push(users.last())[k]
                != user by {
                if k < w.len() {
                    assert(w.push(users.last())[k] == w[k]);
                }
            }
        }
    }
}

/// Taking `user` out never lengthens the list, and shortens it when `user` was there.
proof fn lemma_without_len(users: Seq<Seq<char>>, user: Seq<char>)
    ensures
        without(users, user).len() <= users.len(),
        users.contains(user) ==> without(users, user).len() < users.len(),
    decreases users.len(),
{
    if users.len() > 0 {
        lemma_without_len(users.drop_last(), user);
        if users.contains(user) && users.last() != user {
            let k = choose|k: int| 0 <= k < users.len() && users[k] == user;
            assert(users.drop_last()[k] == user);
        }
    }
}

/// Every name once; every reaction put there at least once, and at least as often as it has
/// users.
pub open spec fn well_counted(rs: Seq<ReactionView>) -> bool {
    &&& forall|i: int, j: int| 0 <= i < j < rs.len() ==> #[trigger] rs[i].name != #[trigger] rs[j].name
    &&& forall|i: int| 0 <= i < rs.len() ==> #[trigger] rs[i].count >= 1 && rs[i].count >= rs[i].users.len()
}

/// The reactions not named `name`, in order.
pub open spec fn others(rs: Seq<ReactionView>, name: Seq<char>) -> Seq<ReactionView>
    decreases rs.len(),
{
    if rs.len() == 0 {
        rs
    } else if rs.last().name == name {
        others(rs.drop_last(), name)
    } else {
        others(rs.drop_last(), name).push(rs.last())
    }
}

/// Appending a reaction named `name` leaves the others as they were.
proof fn lemma_others_push(rs: Seq<ReactionView>, name: Seq<char>, t: ReactionView)
    requires
        t.name == name,
    ensures
        others(rs.push(t), name) == others(rs, name),
{
    assert(rs.push(t).drop_last() == rs);
}

/// Changing or removing the reaction at `i`, named `name`, leaves the others as they were.
proof fn lemma_others_at(rs: Seq<ReactionView>, name: Seq<char>, i: int, t: ReactionView)
    requires
        0 <= i < rs.len(),
        rs[i].name == name,
        t.name == name,
    ensures
        others(rs.update(i, t), name) == others(rs, name),
        others(rs.remove(i), name) == others(rs, name),
    decreases rs.len(),
{
    let n = rs.len();
    if i == n - 1 {
        assert(rs.update(i, t).drop_last() == rs.drop_last());
        assert(rs.remove(i) == rs.drop_last());
    } else {
        lemma_others_at(rs.drop_last(), name, i, t);
        assert(rs.update(i, t).drop_last() == rs.drop_last().update(i, t));
        assert(rs.update(i, t).last() == rs.last());
        assert(rs.remove(i).drop_last() == rs.drop_last().remove(i));
        assert(rs.remove(i).last() == rs.last());
    }
}

/// One reaction event touches only the reaction it names: the others stay as they were, in
/// their order. Afterwards `user` is on that reaction when they added it and on none of that
/// name when they took it back, and every name still shows once and is counted at least as
/// often as it has users.
pub proof fn law_an_event_touches_only_its_reaction(
    rs: Seq<ReactionView>,
    name: Seq<char>,
    user: Seq<char>,
    added: bool,
)
    requires
        well_counted(rs),
    ensures
        others(adjusted(rs, name, user, added), name) == others(rs, name),
        added ==> exists|i: int|
            0 <= i < adjusted(rs, name, user, added).len() && #[trigger] adjusted(rs, name, user, added)[i].name
                == name && adjusted(rs, name, user, added)[i].users.contains(user),
        !added ==> forall|i: int|
            0 <= i < adjusted(rs, name, user, added).len() && #[trigger] adjusted(rs, name, user, added)[i].name
                == name ==> !adjusted(rs, name, user, added)[i].users.contains(user),
        well_counted(adjusted(rs, name, user, added)),
{
    lemma_named_from(rs, name, 0);
    let after = adjusted(rs, name, user, added);
    match named_from(rs, name, 0) {
        None => {
            if added {
                let t = ReactionView { name, count: 1, users: seq![user] };
                lemma_others_push(rs, name, t);
                assert(after[rs.len() as int] == t);
                assert(t.users[0] == user);
                assert(t.users.contains(user));
                assert(after[rs.len() as int].name == name && after[rs.len() as int].users.contains(user));
                assert forall|i: int, j: int| 0 <= i < j < after.len() implies #[trigger] after[i].name
                    != #[trigger] after[j].name by {
                    if j == rs.len() {
                        assert(after[i] == rs[i]);
                    } else {
                        assert(after[i] == rs[i] && after[j] == rs[j]);
                    }
                }
                assert forall|i: int| 0 <= i < after.len() implies #[trigger] after[i].count >= 1
                    && after[i].count >= after[i].users.len() by {
                    if i < rs.len() {
                        assert(after[i] == rs[i]);
                    }
                }
            }
        },
        Some(k) => {
            let r = rs[k as int];
            let t = touched(r, user, added);
            let mine = r.users.contains(user);
            lemma_without(r.users, user);
            lemma_without_len(r.users, user);
            if added && !mine {
                assert(t.users[t.users.len() - 1] == user);
                assert(t.users.contains(user));
            }
            assert(t.count >= t.users.len());
            lemma_others_at(rs, name, k as int, t);
            if t.count == 0 {
                assert(after == rs.remove(k as int));
                assert(!added);
                assert forall|i: int| 0 <= i < after.len() implies #[trigger] after[i].name != name by {
                    if i < k {
                        assert(after[i] == rs[i]);
                    } else {
                        assert(after[i] == rs[i + 1]);
                    }
                }
                assert forall|i: int, j: int| 0 <= i < j < after.len() implies #[trigger] after[i].name
                    != #[trigger] after[j].name by {
                    let a = if i < k { i } else { i + 1 };
                    let b = if j < k { j } else { j + 1 };
                    assert(after[i] == rs[a] && after[j] == rs[b]);
                }
                assert forall|i: int| 0 <= i < after.len() implies #[trigger] after[i].count >= 1
                    && after[i].count >= after[i].users.len() by {
                    if i < k {
                        assert(after[i] == rs[i]);
                    } else {
                        assert(after[i] == rs[i + 1]);
                    }
                }
            } else {
                assert(after == rs.update(k as int, t));
                assert(after[k as int] == t);
                if added {
                    assert(after[k as int].name == name && after[k as int].users.contains(user));
                }
                assert forall|i: int, j: int| 0 <= i < j < after.len() implies #[trigger] after[i].name
                    != #[trigger] after[j].name by {
                    assert(after[i].name == rs[i].name && after[j].name == rs[j].name);
                }
                assert forall|i: int| 0 <= i < after.len() implies #[trigger] after[i].count >= 1
                    && after[i].count >= after[i].users.len() by {
                    if i != k {
                        assert(after[i] == rs[i]);
                    }
                }
                if !added {
                    assert forall|i: int| 0 <= i < after.len() && #[trigger] after[i].name == name implies !after[
                        i].users.contains(user) by {
                        if i != k {
                            assert(after[i] == rs[i]);
                            assert(rs[i].name != rs[k as int].name || i == k);
                        }
                    }
                }
            }
        },
    }
}

} // verus!
