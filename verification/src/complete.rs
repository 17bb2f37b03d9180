//! Completing the token being typed, shared by the `:` command line and the input row.
use crate::fuzzy::{best, best_of, rank as fuzzy_rank, ranked};
use crate::fuzzy::lower;
use crate::text::{
    begins_with, byte_cut, chars_of, copy_string, labels_of, lowercase, measure_bytes, slice_of,
    string_of, utf8_len,
};
use vstd::prelude::*;

verus! {

/// How many candidates tab-cycling walks through.
pub const MAX: usize = 50;

/// At most `MAX` of `s`, from the start.
pub open spec fn head<T>(s: Seq<T>) -> Seq<T> {
    if s.len() <= MAX {
        s
    } else {
        s.take(MAX as int)
    }
}

/// The candidates for `token`, best first; an empty token offers the head of the list.
pub open spec fn completions(token: Seq<char>, candidates: Seq<Seq<char>>) -> Seq<Seq<char>> {
    if token.len() == 0 {
        head(candidates)
    } else {
        head(ranked(token, candidates).map_values(|i: int| candidates[i]))
    }
}

/// Whether `candidate` starts with `token`, case left aside.
pub open spec fn starts_alike(candidate: Seq<char>, token: Seq<char>) -> bool {
    let t = lowercase(token);
    let c = lowercase(candidate);
    t.len() <= c.len() && c.take(t.len() as int) == t
}

/// Whether `candidate` starts with `token`, case left aside, and is longer in bytes.
pub open spec fn extends(candidate: Seq<char>, token: Seq<char>) -> bool {
    starts_alike(candidate, token) && utf8_len(candidate) > utf8_len(token)
}

/// The first candidate from position `i` on that `extends` the token.
pub open spec fn first_extending(token: Seq<char>, candidates: Seq<Seq<char>>, i: int) -> Option<
    int,
>
    decreases candidates.len() - i,
{
    if i < 0 || i >= candidates.len() {
        None
    } else if extends(candidates[i], token) {
        Some(i)
    } else {
        first_extending(token, candidates, i + 1)
    }
}

/// The grey text a shell shows after the cursor: the rest of the best candidate for `token`,
/// or nothing when the token is empty or matches nothing. A candidate `token` starts is preferred
/// over a fuzzy match, so typing a name to its end never jumps somewhere else. The rest begins
/// as many bytes into the candidate as the token takes; where that falls inside a character,
/// or past the candidate's end, nothing is suggested.
pub open spec fn ghost_text(token: Seq<char>, candidates: Seq<Seq<char>>) -> Option<Seq<char>> {
    if token.len() == 0 {
        None
    } else {
        let pick = match first_extending(token, candidates, 0) {
            Some(i) => Some(i),
            None => best_of(token, candidates),
        };
        match pick {
            Some(i) => if starts_alike(candidates[i], token) {
                match byte_cut(candidates[i], utf8_len(token)) {
                    Some(k) => Some(candidates[i].skip(k)),
                    None => None,
                }
            } else {
                None
            },
            None => None,
        }
    }
}

/// The candidates for `token`, best first; an empty token offers the head of the list.
pub fn rank(token: &str, candidates: &[String]) -> (r: Vec<String>)
    ensures
        r@.map_values(|s: String| s@) == completions(
            token@,
            candidates@.map_values(|s: String| s@),
        ),
{
    let ghost views = candidates@.map_values(|s: String| s@);
    let t = chars_of(token);
    let mut r: Vec<String> = Vec::new();
    if t.len() == 0 {
        let keep = if candidates.len() < MAX {
            candidates.len()
        } else {
            MAX
        };
        let mut i: usize = 0;
        while i < keep
            invariant
                i <= keep <= candidates@.len(),
                keep <= MAX,
                keep == candidates@.len() || keep == MAX,
                r@.len() == i,
                forall|j: int| 0 <= j < i ==> #[trigger] r@[j]@ == candidates@[j]@,
            decreases keep - i,
        {
            r.push(copy_string(&candidates[i]));
            i += 1;
        }
        assert(r@.map_values(|s: String| s@) =~= completions(token@, views));
        return r;
    }
    let labels = labels_of(candidates);
    let order = fuzzy_rank(t.as_slice(), &labels);
    let ghost ranks = ranked(token@, views);
    let ghost picked = ranks.map_values(|i: int| views[i]);
    proof {
        assert(labels@.map_values(|l: Vec<char>| l@) == views);
        assert(order@.len() == ranks.len());
        crate::fuzzy::lemma_ranked_in_bounds(token@, views);
        assert forall|j: int| 0 <= j < order@.len() implies #[trigger] order@[j] < candidates@.len() by {
            assert(order@.map_values(|i: usize| i as int)[j] == order@[j] as int);
        }
    }
    let keep = if order.len() < MAX {
        order.len()
    } else {
        MAX
    };
    let mut i: usize = 0;
    while i < keep
        invariant
            i <= keep <= order@.len(),
            keep <= MAX,
            keep == order@.len() || keep == MAX,
            order@.len() == ranks.len(),
            order@.map_values(|i: usize| i as int) == ranks,
            picked == ranks.map_values(|i: int| views[i]),
            views == candidates@.map_values(|s: String| s@),
            forall|j: int| 0 <= j < order@.len() ==> #[trigger] order@[j] < candidates@.len(),
            r@.len() == i,
            forall|j: int| 0 <= j < i ==> #[trigger] r@[j]@ == picked[j],
        decreases keep - i,
    {
        proof {
            assert(order@.map_values(|i: usize| i as int)[i as int] == order@[i as int] as int);
        }
        r.push(copy_string(&candidates[order[i]]));
        i += 1;
    }
    assert(r@.map_values(|s: String| s@) =~= completions(token@, views));
    r
}

/// Whether `label` starts with the token whose lower case is `low`, case left aside.
fn starts_alike_exec(label: &[char], token: &[char], low: &[char]) -> (r: bool)
    requires
        low@ == lowercase(token@),
    ensures
        r == starts_alike(label@, token@),
{
    let l = lower(label);
    begins_with(l.as_slice(), low)
}

fn first_extending_exec(token: &[char], low: &[char], labels: &Vec<Vec<char>>) -> (r: Option<usize>)
    requires
        low@ == lowercase(token@),
    ensures
        match r {
            Some(i) => first_extending(token@, labels@.map_values(|l: Vec<char>| l@), 0) == Some(
                i as int,
            ),
            None => first_extending(token@, labels@.map_values(|l: Vec<char>| l@), 0) is None,
        },
{
    let ghost views = labels@.map_values(|l: Vec<char>| l@);
    let mut i: usize = 0;
    while i < labels.len()
        invariant
            i <= labels@.len(),
            views == labels@.map_values(|l: Vec<char>| l@),
            low@ == lowercase(token@),
            first_extending(token@, views, 0) == first_extending(token@, views, i as int),
        decreases labels.len() - i,
    {
        assert(views[i as int] == labels@[i as int]@);
        if measure_bytes(labels[i].as_slice(), token).0 && starts_alike_exec(
            labels[i].as_slice(),
            token,
            low,
        ) {
            return Some(i);
        }
        i += 1;
    }
    None
}

/// The grey text a shell shows after the cursor: the rest of the best candidate for `token`,
/// or nothing when the token is empty or matches nothing.
pub fn ghost(token: &str, candidates: &[String]) -> (r: Option<String>)
    ensures
        match r {
            Some(s) => ghost_text(token@, candidates@.map_values(|c: String| c@)) == Some(s@),
            None => ghost_text(token@, candidates@.map_values(|c: String| c@)) is None,
        },
{
    let ghost views = candidates@.map_values(|c: String| c@);
    let t = chars_of(token);
    if t.len() == 0 {
        return None;
    }
    let labels = labels_of(candidates);
    let low = lower(t.as_slice());
    proof {
        assert(labels@.map_values(|l: Vec<char>| l@) == views);
    }
    let pick = match first_extending_exec(t.as_slice(), low.as_slice(), &labels) {
        Some(i) => Some(i),
        None => best(t.as_slice(), &labels),
    };
    let Some(i) = pick else { return None };
    proof {
        crate::fuzzy::lemma_ranked_in_bounds(token@, views);
        if first_extending(token@, views, 0) is Some {
            lemma_first_extending_bounds(token@, views, 0);
        }
        assert(i < labels@.len());
        assert(views[i as int] == labels@[i as int]@);
    }
    if !starts_alike_exec(labels[i].as_slice(), t.as_slice(), low.as_slice()) {
        return None;
    }
    let Some(k) = measure_bytes(labels[i].as_slice(), t.as_slice()).1 else { return None };
    proof {
        crate::text::lemma_cut_in_range(labels@[i as int]@, utf8_len(t@));
    }
    let rest = slice_of(labels[i].as_slice(), k, labels[i].len());
    proof {
        assert(labels@[i as int]@.subrange(k as int, labels@[i as int]@.len() as int)
            == labels@[i as int]@.skip(k as int));
    }
    Some(string_of(rest.as_slice()))
}

proof fn lemma_first_extending_bounds(token: Seq<char>, candidates: Seq<Seq<char>>, i: int)
    requires
        first_extending(token, candidates, i) is Some,
    ensures
        i <= first_extending(token, candidates, i).unwrap() < candidates.len(),
    decreases candidates.len() - i,
{
    if 0 <= i < candidates.len() && !extends(candidates[i], token) {
        lemma_first_extending_bounds(token, candidates, i + 1);
    }
}

/// How many options the cycling row shows at once.
pub const SHOWN: usize = 4;

/// Where the cycle lands one step on from `at` among `n` options, either way round.
pub open spec fn step(at: nat, n: nat, backwards: bool) -> nat
    recommends
        n > 0,
{
    if backwards {
        ((at + n - 1) % (n as int)) as nat
    } else {
        ((at + 1) % n) as nat
    }
}

/// The row shown while cycling: the first label between brackets, then the others, two spaces
/// apart.
pub open spec fn hint_row(labels: Seq<Seq<char>>) -> Seq<char> {
    if labels.len() == 0 {
        Seq::empty()
    } else {
        seq!['['] + labels[0] + seq![']'] + trailing_labels(labels.drop_first())
    }
}

/// Each label after the first, behind two spaces.
pub open spec fn trailing_labels(labels: Seq<Seq<char>>) -> Seq<char>
    decreases labels.len(),
{
    if labels.len() == 0 {
        Seq::empty()
    } else {
        trailing_labels(labels.drop_last()) + seq![' ', ' '] + labels.last()
    }
}

/// Whether `label` can turn the text `input` into the text `output`.
pub open spec fn made_by<F: Fn(&str) -> String>(label: F, input: Seq<char>, output: Seq<char>) -> bool {
    exists|s: &str, out: String|
        #![trigger label.ensures((s,), out)]
        s@ == input && out@ == output && label.ensures((s,), out)
}

/// The candidates one token is being cycled through, until the text changes again.
#[derive(Debug, PartialEq)]
pub struct Cycle {
    options: Vec<String>,
    at: usize,
}

impl Cycle {
    #[verifier::type_invariant]
    spec fn in_hand(self) -> bool {
        0 < self.options@.len() && self.at < self.options@.len()
    }

    /// The options, best first.
    pub closed spec fn options(self) -> Seq<Seq<char>> {
        self.options@.map_values(|s: String| s@)
    }

    /// Which option is in hand.
    pub closed spec fn at(self) -> nat {
        self.at as nat
    }

    /// Starts on the best candidate for `token`, or nothing when none matches.
    pub fn new(token: &str, candidates: &[String]) -> (r: Option<Self>)
        ensures
            match r {
                Some(c) => c.options() == completions(
                    token@,
                    candidates@.map_values(|s: String| s@),
                ) && c.options().len() > 0 && c.at() == 0,
                None => completions(token@, candidates@.map_values(|s: String| s@)).len() == 0,
            },
    {
        let options = rank(token, candidates);
        if options.len() == 0 {
            None
        } else {
            Some(Cycle { options, at: 0 })
        }
    }

    /// One option on, or back, wrapping around at either end.
    pub fn advance(&mut self, backwards: bool)
        ensures
            final(self).options() == old(self).options(),
            final(self).at() == step(old(self).at(), old(self).options().len(), backwards),
    {
        proof {
            use_type_invariant(&*self);
        }
        let n = self.options.len();
        let at = self.at;
        let next = if backwards {
            if at == 0 {
                n - 1
            } else {
                at - 1
            }
        } else {
            if at + 1 == n {
                0
            } else {
                at + 1
            }
        };
        proof {
            if backwards {
                if at == 0 {
                    assert((at + n - 1) % (n as int) == n - 1) by (nonlinear_arith)
                        requires
                            at == 0,
                            n > 0,
                    ;
                } else {
                    assert((at + n - 1) % (n as int) == at - 1) by (nonlinear_arith)
                        requires
                            0 < at < n,
                    ;
                }
            } else {
                if at + 1 == n {
                    assert((at + 1) % (n as int) == 0) by (nonlinear_arith)
                        requires
                            at + 1 == n,
                    ;
                } else {
                    assert((at + 1) % (n as int) == at + 1) by (nonlinear_arith)
                        requires
                            at + 1 < n,
                    ;
                }
            }
        }
        self.at = next;
    }

    /// The option in hand.
    pub fn current(&self) -> (r: String)
        ensures
            r@ == self.options()[self.at() as int],
    {
        proof {
            use_type_invariant(self);
        }
        copy_string(&self.options[self.at])
    }

    /// The options the row shows: the one in hand and up to three after it.
    pub fn shown(&self) -> (r: Vec<String>)
        ensures
            r@.map_values(|s: String| s@) == self.options().subrange(
                self.at() as int,
                if self.at() + SHOWN <= self.options().len() {
                    self.at() + SHOWN
                } else {
                    self.options().len() as int
                },
            ),
    {
        proof {
            use_type_invariant(self);
        }
        let n = self.options.len();
        let end = if n - self.at >= SHOWN {
            self.at + SHOWN
        } else {
            n
        };
        let mut r: Vec<String> = Vec::new();
        let mut i = self.at;
        while i < end
            invariant
                self.at <= i <= end <= n,
                n == self.options@.len(),
                r@.len() == i - self.at,
                forall|j: int|
                    0 <= j < r@.len() ==> #[trigger] r@[j]@ == self.options@[self.at + j]@,
            decreases end - i,
        {
            r.push(copy_string(&self.options[i]));
            i += 1;
        }
        assert(r@.map_values(|s: String| s@) =~= self.options().subrange(
            self.at as int,
            end as int,
        ));
        r
    }

    /// The row shown while cycling: the option in hand between brackets, then the next few.
    /// `label` is how each one reads on screen, which needs not be the value itself.
    pub fn hint<F: Fn(&str) -> String>(&self, label: F) -> (r: String)
        requires
            forall|s: &str| #[trigger] label.requires((s,)),
        ensures
            exists|labels: Seq<Seq<char>>|
                #![trigger hint_row(labels)]
                {
                    &&& r@ == hint_row(labels)
                    &&& labels.len() == self.shown_count()
                    &&& forall|k: int|
                        0 <= k < labels.len() ==> made_by(
                            label,
                            self.options()[self.at() + k],
                            #[trigger] labels[k],
                        )
                },
    {
        proof {
            use_type_invariant(self);
        }
        let shown = self.shown();
        proof {
            let sub = self.options().subrange(
                self.at() as int,
                if self.at() + SHOWN <= self.options().len() {
                    self.at() + SHOWN
                } else {
                    self.options().len() as int
                },
            );
            assert(shown@.map_values(|s: String| s@) == sub);
            assert(shown@.len() == sub.len());
            assert forall|j: int| 0 <= j < shown@.len() implies #[trigger] shown@[j]@ == self.options()[self.at() + j] by {
                assert(shown@.map_values(|s: String| s@)[j] == shown@[j]@);
            }
        }
        let ghost mut labels: Seq<Seq<char>> = Seq::empty();
        let mut row = String::new();
        let mut k: usize = 0;
        while k < shown.len()
            invariant
                k <= shown@.len(),
                shown@.len() == self.shown_count(),
                forall|j: int|
                    0 <= j < shown@.len() ==> #[trigger] shown@[j]@ == self.options()[self.at()
                        + j],
                forall|s: &str| #[trigger] label.requires((s,)),
                labels.len() == k,
                k > 0 ==> row@ == hint_row(labels),
                k == 0 ==> row@ == Seq::<char>::empty(),
                forall|j: int|
                    0 <= j < labels.len() ==> made_by(
                        label,
                        self.options()[self.at() + j],
                        #[trigger] labels[j],
                    ),
            decreases shown.len() - k,
        {
            let name = shown[k].as_str();
            let out = label(name);
            let ghost before = labels;
            proof {
                labels = labels.push(out@);
                assert forall|j: int| 0 <= j < labels.len() implies made_by(
                    label,
                    self.options()[self.at() + j],
                    #[trigger] labels[j],
                ) by {
                    if j == k {
                        assert(label.ensures((name,), out));
                    } else {
                        assert(labels[j] == before[j]);
                    }
                }
            }
            if k == 0 {
                row.append("[");
                row.append(out.as_str());
                row.append("]");
                proof {
                    reveal_strlit("[");
                    reveal_strlit("]");
                    assert(labels.drop_first().len() == 0);
                    assert(row@ =~= hint_row(labels));
                }
            } else {
                row.append("  ");
                row.append(out.as_str());
                proof {
                    reveal_strlit("  ");
                    let d = labels.drop_first();
                    assert(d.drop_last() == before.drop_first());
                    assert(d.last() == out@);
                    assert(row@ =~= hint_row(labels));
                }
            }
            k += 1;
        }
        proof {
            assert(row@ == hint_row(labels));
        }
        row
    }

    /// How many options the row shows.
    pub closed spec fn shown_count(self) -> nat {
        if self.at() + SHOWN <= self.options().len() {
            SHOWN as nat
        } else {
            (self.options().len() - self.at()) as nat
        }
    }
}

/// One step on from `at` among `n` options, written without the remainder.
pub proof fn lemma_step(at: nat, n: nat, backwards: bool)
    requires
        at < n,
    ensures
        step(at, n, backwards) == if backwards {
            if at == 0 {
                (n - 1) as nat
            } else {
                (at - 1) as nat
            }
        } else {
            if at + 1 == n {
                0
            } else {
                at + 1
            }
        },
{
    if backwards {
        if at == 0 {
            assert((at + n - 1) % (n as int) == n - 1) by (nonlinear_arith)
                requires
                    at == 0,
                    n > 0,
            ;
        } else {
            assert((at + n - 1) % (n as int) == at - 1) by (nonlinear_arith)
                requires
                    0 < at < n,
            ;
        }
    } else {
        if at + 1 == n {
            assert((at + 1) % n == 0) by (nonlinear_arith)
                requires
                    at + 1 == n,
            ;
        } else {
            assert((at + 1) % n == at + 1) by (nonlinear_arith)
                requires
                    at + 1 < n,
            ;
        }
    }
}

/// Stepping forward then back, or back then forward, lands where it started.
pub proof fn law_steps_undo_each_other(at: nat, n: nat)
    requires
        at < n,
    ensures
        step(step(at, n, false), n, true) == at,
        step(step(at, n, true), n, false) == at,
{
    assert(step(at, n, false) == if at + 1 == n { 0 } else { at + 1 }) by (nonlinear_arith)
        requires
            at < n,
    {
        if at + 1 == n {
            assert((at + 1) % n == 0);
        } else {
            assert((at + 1) % n == at + 1);
        }
    }
    assert(step(at, n, true) == if at == 0 { (n - 1) as nat } else { (at - 1) as nat }) by (nonlinear_arith)
        requires
            at < n,
    {
        if at == 0 {
            assert((at + n - 1) % (n as int) == n - 1);
        } else {
            assert((at + n - 1) % (n as int) == at - 1);
        }
    }
    let f = step(at, n, false);
    let b = step(at, n, true);
    assert(step(f, n, true) == at) by (nonlinear_arith)
        requires
            f == if at + 1 == n { 0 } else { at + 1 },
            at < n,
    {
        if f == 0 {
            assert((f + n - 1) % (n as int) == n - 1);
        } else {
            assert((f + n - 1) % (n as int) == f - 1);
        }
    }
    assert(step(b, n, false) == at) by (nonlinear_arith)
        requires
            b == if at == 0 { (n - 1) as nat } else { (at - 1) as nat },
            at < n,
    {
        if b + 1 == n {
            assert((b + 1) % n == 0);
        } else {
            assert((b + 1) % n == b + 1);
        }
    }
}

} // verus!
