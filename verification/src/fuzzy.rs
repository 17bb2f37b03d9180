//! Matching what was typed against a list of labels, forgiving about case and gaps:
//! an exact match beats a prefix, a prefix beats a run found inside the label, and that beats
//! letters found in order with gaps between them. Equal matches keep the list's order.
use crate::text::{chars_of, lowercase, string_of, to_lower};
use vstd::prelude::*;

verus! {

/// Whether the letters of `q` appear in `c` in order, gaps allowed.
pub open spec fn in_order(q: Seq<char>, c: Seq<char>) -> bool
    decreases c.len(),
{
    if q.len() == 0 {
        true
    } else if c.len() == 0 {
        false
    } else if q[0] == c[0] {
        in_order(q.drop_first(), c.drop_first())
    } else {
        in_order(q, c.drop_first())
    }
}

/// Whether `q` appears in `c` as one unbroken run starting at `k`.
pub open spec fn occurs_at(q: Seq<char>, c: Seq<char>, k: int) -> bool {
    0 <= k && k + q.len() <= c.len() && c.subrange(k, k + q.len()) == q
}

/// Whether `q` appears in `c` as one unbroken run.
pub open spec fn occurs(q: Seq<char>, c: Seq<char>) -> bool {
    exists|k: int| occurs_at(q, c, k)
}

/// How well `q` matches `c`, both already lowercased: 0 exact, 1 prefix, 2 a run inside,
/// 3 letters in order; `None` when the letters are not all there in order.
pub open spec fn grade(q: Seq<char>, c: Seq<char>) -> Option<nat> {
    if c == q {
        Some(0)
    } else if occurs_at(q, c, 0) {
        Some(1)
    } else if occurs(q, c) {
        Some(2)
    } else if in_order(q, c) {
        Some(3)
    } else {
        None
    }
}

/// How well `query` matches `label`, case left aside.
pub open spec fn match_grade(query: Seq<char>, label: Seq<char>) -> Option<nat> {
    grade(lowercase(query), lowercase(label))
}

/// The positions among the first `n` labels whose match has grade `g`, in list order.
pub open spec fn graded(query: Seq<char>, labels: Seq<Seq<char>>, g: nat, n: nat) -> Seq<int>
    decreases n,
{
    if n == 0 {
        Seq::empty()
    } else {
        let rest = graded(query, labels, g, (n - 1) as nat);
        if match_grade(query, labels[n - 1]) == Some(g) {
            rest.push(n - 1)
        } else {
            rest
        }
    }
}

/// Every label `query` matches, by position: exact matches first, then prefixes, then runs
/// found inside, then letters found in order; each group in list order.
pub open spec fn ranked(query: Seq<char>, labels: Seq<Seq<char>>) -> Seq<int> {
    let n = labels.len();
    graded(query, labels, 0, n) + graded(query, labels, 1, n) + graded(query, labels, 2, n)
        + graded(query, labels, 3, n)
}

/// The position of the first of `ranked`, if any label matches.
pub open spec fn best_of(query: Seq<char>, labels: Seq<Seq<char>>) -> Option<int> {
    if ranked(query, labels).len() > 0 {
        Some(ranked(query, labels)[0])
    } else {
        None
    }
}

/// `s` in lower case, as characters.
pub fn lower(s: &[char]) -> (r: Vec<char>)
    ensures
        r@ == lowercase(s@),
{
    let text = string_of(s);
    let low = to_lower(text.as_str());
    chars_of(low.as_str())
}

fn in_order_exec(q: &[char], c: &[char]) -> (r: bool)
    ensures
        r == in_order(q@, c@),
{
    let mut i: usize = 0;
    let mut j: usize = 0;
    assert(q@.skip(0) == q@);
    assert(c@.skip(0) == c@);
    while i < q.len() && j < c.len()
        invariant
            i <= q@.len(),
            j <= c@.len(),
            in_order(q@, c@) == in_order(q@.skip(i as int), c@.skip(j as int)),
        decreases c.len() - j,
    {
        proof {
            let qs = q@.skip(i as int);
            let cs = c@.skip(j as int);
            assert(qs[0] == q@[i as int]);
            assert(cs[0] == c@[j as int]);
            assert(qs.drop_first() == q@.skip(i + 1));
            assert(cs.drop_first() == c@.skip(j + 1));
        }
        if q[i] == c[j] {
            i += 1;
        }
        j += 1;
    }
    proof {
        if i == q.len() {
            assert(q@.skip(i as int).len() == 0);
        } else {
            assert(c@.skip(j as int).len() == 0);
        }
    }
    i == q.len()
}

fn occurs_at_exec(q: &[char], c: &[char], k: usize) -> (r: bool)
    ensures
        r == occurs_at(q@, c@, k as int),
{
    let n = c.len();
    if k > n || q.len() > n - k {
        return false;
    }
    let mut i: usize = 0;
    while i < q.len()
        invariant
            i <= q@.len(),
            k + q@.len() <= c@.len(),
            n == c@.len(),
            forall|j: int| 0 <= j < i ==> c@[k + j] == q@[j],
        decreases q.len() - i,
    {
        assert(k + i < c@.len());
        if c[k + i] != q[i] {
            assert(c@.subrange(k as int, k + q@.len())[i as int] != q@[i as int]);
            return false;
        }
        i += 1;
    }
    assert(c@.subrange(k as int, k + q@.len()) == q@);
    true
}

/// Whether `q` appears in `c` as one unbroken run.
pub fn occurs_exec(q: &[char], c: &[char]) -> (r: bool)
    ensures
        r == occurs(q@, c@),
{
    if q.len() > c.len() {
        assert forall|j: int| !occurs_at(q@, c@, j) by {}
        return false;
    }
    let last = c.len() - q.len();
    let mut k: usize = 0;
    while k < last
        invariant
            k <= last,
            last + q@.len() == c@.len(),
            forall|j: int| 0 <= j < k ==> !occurs_at(q@, c@, j),
        decreases last - k,
    {
        if occurs_at_exec(q, c, k) {
            return true;
        }
        k += 1;
    }
    if occurs_at_exec(q, c, last) {
        return true;
    }
    assert forall|j: int| !occurs_at(q@, c@, j) by {
        if 0 <= j && j + q@.len() <= c@.len() {
            assert(j <= last);
        }
    }
    false
}

/// The grade of `q` against `c`, both already lowercased.
pub fn grade_exec(q: &[char], c: &[char]) -> (r: Option<u8>)
    ensures
        match r {
            Some(g) => grade(q@, c@) == Some(g as nat),
            None => grade(q@, c@) is None,
        },
{
    if crate::text::same_chars(c, q) {
        Some(0)
    } else if occurs_at_exec(q, c, 0) {
        Some(1)
    } else if occurs_exec(q, c) {
        Some(2)
    } else if in_order_exec(q, c) {
        Some(3)
    } else {
        None
    }
}

/// Grades every label against the query, lower case on both sides.
fn grades(query: &[char], labels: &Vec<Vec<char>>) -> (r: Vec<Option<u8>>)
    ensures
        r@.len() == labels@.len(),
        forall|i: int|
            0 <= i < labels@.len() ==> match #[trigger] r@[i] {
                Some(g) => match_grade(query@, labels@[i]@) == Some(g as nat),
                None => match_grade(query@, labels@[i]@) is None,
            },
{
    let q = lower(query);
    let mut r: Vec<Option<u8>> = Vec::new();
    let mut i: usize = 0;
    while i < labels.len()
        invariant
            i <= labels@.len(),
            q@ == lowercase(query@),
            r@.len() == i,
            forall|j: int|
                0 <= j < i ==> match #[trigger] r@[j] {
                    Some(g) => match_grade(query@, labels@[j]@) == Some(g as nat),
                    None => match_grade(query@, labels@[j]@) is None,
                },
        decreases labels.len() - i,
    {
        let c = lower(labels[i].as_slice());
        r.push(grade_exec(q.as_slice(), c.as_slice()));
        i += 1;
    }
    r
}

/// Every label that `query` matches, best first, as positions into `labels`.
pub fn rank(query: &[char], labels: &Vec<Vec<char>>) -> (r: Vec<usize>)
    ensures
        r@.map_values(|i: usize| i as int) == ranked(query@, labels@.map_values(|l: Vec<char>| l@)),
{
    let ghost views = labels@.map_values(|l: Vec<char>| l@);
    let gs = grades(query, labels);
    let mut r: Vec<usize> = Vec::new();
    let mut g: u8 = 0;
    while g < 4
        invariant
            g <= 4,
            gs@.len() == labels@.len(),
            views.len() == labels@.len(),
            forall|i: int| 0 <= i < labels@.len() ==> #[trigger] views[i] == labels@[i]@,
            forall|i: int|
                0 <= i < labels@.len() ==> match #[trigger] gs@[i] {
                    Some(x) => match_grade(query@, labels@[i]@) == Some(x as nat),
                    None => match_grade(query@, labels@[i]@) is None,
                },
            r@.map_values(|i: usize| i as int) == grades_upto(query@, views, g as nat),
        decreases 4 - g,
    {
        let ghost before = r@.map_values(|i: usize| i as int);
        let mut i: usize = 0;
        while i < gs.len()
            invariant
                g < 4,
                i <= gs@.len(),
                gs@.len() == labels@.len(),
                views.len() == labels@.len(),
                forall|i: int| 0 <= i < labels@.len() ==> #[trigger] views[i] == labels@[i]@,
                forall|i: int|
                    0 <= i < labels@.len() ==> match #[trigger] gs@[i] {
                        Some(x) => match_grade(query@, labels@[i]@) == Some(x as nat),
                        None => match_grade(query@, labels@[i]@) is None,
                    },
                r@.map_values(|i: usize| i as int) == before + graded(
                    query@,
                    views,
                    g as nat,
                    i as nat,
                ),
            decreases gs.len() - i,
        {
            let ghost old_r = r@;
            let hit = match gs[i] {
                Some(x) => x == g,
                None => false,
            };
            if hit {
                r.push(i);
            }
            proof {
                assert(views[i as int] == labels@[i as int]@);
                if hit {
                    assert(r@.map_values(|i: usize| i as int) == old_r.map_values(
                        |i: usize| i as int,
                    ).push(i as int));
                } else {
                    assert(r@ == old_r);
                }
            }
            i += 1;
        }
        g += 1;
    }
    proof {
        lemma_ranked_is_groups(query@, views);
    }
    r
}

/// The grade groups below `g`, in order.
pub open spec fn grades_upto(query: Seq<char>, labels: Seq<Seq<char>>, g: nat) -> Seq<int>
    decreases g,
{
    if g == 0 {
        Seq::empty()
    } else {
        grades_upto(query, labels, (g - 1) as nat) + graded(
            query,
            labels,
            (g - 1) as nat,
            labels.len(),
        )
    }
}

proof fn lemma_graded_in_bounds(query: Seq<char>, labels: Seq<Seq<char>>, g: nat, n: nat)
    ensures
        forall|k: int|
            0 <= k < graded(query, labels, g, n).len() ==> 0 <= #[trigger] graded(
                query,
                labels,
                g,
                n,
            )[k] < n,
    decreases n,
{
    if n > 0 {
        lemma_graded_in_bounds(query, labels, g, (n - 1) as nat);
        let rest = graded(query, labels, g, (n - 1) as nat);
        let all = graded(query, labels, g, n);
        assert forall|k: int| 0 <= k < all.len() implies 0 <= #[trigger] all[k] < n by {
            if k < rest.len() {
                assert(all[k] == rest[k]);
            }
        }
    }
}

/// Every position `ranked` gives points at one of the labels.
pub proof fn lemma_ranked_in_bounds(query: Seq<char>, labels: Seq<Seq<char>>)
    ensures
        forall|k: int|
            0 <= k < ranked(query, labels).len() ==> 0 <= #[trigger] ranked(query, labels)[k]
                < labels.len(),
{
    let n = labels.len();
    lemma_graded_in_bounds(query, labels, 0, n);
    lemma_graded_in_bounds(query, labels, 1, n);
    lemma_graded_in_bounds(query, labels, 2, n);
    lemma_graded_in_bounds(query, labels, 3, n);
    let a = graded(query, labels, 0, n);
    let b = graded(query, labels, 1, n);
    let c = graded(query, labels, 2, n);
    let d = graded(query, labels, 3, n);
    assert forall|k: int| 0 <= k < ranked(query, labels).len() implies 0 <= #[trigger] ranked(
        query,
        labels,
    )[k] < n by {
        let r = ranked(query, labels);
        if k < a.len() {
            assert(r[k] == a[k]);
        } else if k < a.len() + b.len() {
            assert(r[k] == b[k - a.len()]);
        } else if k < a.len() + b.len() + c.len() {
            assert(r[k] == c[k - a.len() - b.len()]);
        } else {
            assert(r[k] == d[k - a.len() - b.len() - c.len()]);
        }
    }
}

/// `ranked` is the four grade groups in order.
pub proof fn lemma_ranked_is_groups(query: Seq<char>, labels: Seq<Seq<char>>)
    ensures
        ranked(query, labels) == grades_upto(query, labels, 4),
{
    let n = labels.len();
    reveal_with_fuel(grades_upto, 5);
    assert(Seq::<int>::empty() + graded(query, labels, 0, n) == graded(query, labels, 0, n));
}

/// The position of the best match, if `query` matches anything.
pub fn best(query: &[char], labels: &Vec<Vec<char>>) -> (r: Option<usize>)
    ensures
        match r {
            Some(i) => best_of(query@, labels@.map_values(|l: Vec<char>| l@)) == Some(i as int),
            None => best_of(query@, labels@.map_values(|l: Vec<char>| l@)) is None,
        },
{
    let order = rank(query, labels);
    if order.len() > 0 {
        proof {
            assert(order@.map_values(|i: usize| i as int)[0] == order@[0] as int);
        }
        Some(order[0])
    } else {
        None
    }
}

/// How many single-character insertions, deletions and substitutions turn `a` into `b`
/// (the Levenshtein distance).
pub open spec fn edits(a: Seq<char>, b: Seq<char>) -> nat
    decreases a.len() + b.len(),
{
    if a.len() == 0 {
        b.len()
    } else if b.len() == 0 {
        a.len()
    } else {
        let sub = edits(a.drop_last(), b.drop_last()) + if a.last() == b.last() {
            0nat
        } else {
            1nat
        };
        let del = edits(a.drop_last(), b) + 1;
        let ins = edits(a, b.drop_last()) + 1;
        min3(sub, del, ins)
    }
}

/// The least of three.
pub open spec fn min3(x: nat, y: nat, z: nat) -> nat {
    if x <= y && x <= z {
        x
    } else if y <= z {
        y
    } else {
        z
    }
}

/// Turning one text into another never takes more edits than the longer one has characters.
pub proof fn lemma_edits_bound(a: Seq<char>, b: Seq<char>)
    ensures
        edits(a, b) <= if a.len() >= b.len() { a.len() } else { b.len() },
    decreases a.len() + b.len(),
{
    if a.len() > 0 && b.len() > 0 {
        lemma_edits_bound(a.drop_last(), b.drop_last());
    }
}

fn add_one(x: usize) -> (r: usize)
    ensures
        x < usize::MAX ==> r == x + 1,
        x == usize::MAX ==> r == x,
{
    if x < usize::MAX {
        x + 1
    } else {
        x
    }
}

/// The Levenshtein distance between `a` and `b`.
pub fn edit_distance(a: &[char], b: &[char]) -> (d: usize)
    ensures
        d == edits(a@, b@),
{
    let n = a.len();
    let m = b.len();
    let mut prev: Vec<usize> = Vec::new();
    prev.push(0);
    let mut j: usize = 0;
    while j < m
        invariant
            j <= m == b@.len(),
            prev@.len() == j + 1,
            forall|k: int| 0 <= k <= j ==> #[trigger] prev@[k] == k,
        decreases m - j,
    {
        j += 1;
        prev.push(j);
    }
    proof {
        assert forall|k: int| 0 <= k <= m implies #[trigger] prev@[k] == edits(
            a@.take(0),
            b@.take(k),
        ) by {
            assert(a@.take(0).len() == 0);
            assert(b@.take(k).len() == k);
        }
    }
    let mut i: usize = 0;
    while i < n
        invariant
            i <= n == a@.len(),
            m == b@.len(),
            prev@.len() == m + 1,
            forall|k: int| 0 <= k <= m ==> #[trigger] prev@[k] == edits(a@.take(i as int), b@.take(k)),
        decreases n - i,
    {
        let mut cur: Vec<usize> = Vec::new();
        cur.push(i + 1);
        proof {
            assert(b@.take(0).len() == 0);
            assert(a@.take(i + 1).len() == i + 1);
        }
        let mut j: usize = 0;
        while j < m
            invariant
                j <= m == b@.len(),
                i < n == a@.len(),
                prev@.len() == m + 1,
                forall|k: int|
                    0 <= k <= m ==> #[trigger] prev@[k] == edits(a@.take(i as int), b@.take(k)),
                cur@.len() == j + 1,
                forall|k: int|
                    0 <= k <= j ==> #[trigger] cur@[k] == edits(a@.take(i + 1), b@.take(k)),
            decreases m - j,
        {
            let cost: usize = if a[i] == b[j] { 0 } else { 1 };
            let sub = if cost == 0 { prev[j] } else { add_one(prev[j]) };
            let del = add_one(prev[j + 1]);
            let ins = add_one(cur[j]);
            let best = if sub <= del && sub <= ins {
                sub
            } else if del <= ins {
                del
            } else {
                ins
            };
            proof {
                let x = a@.take(i + 1);
                let y = b@.take(j + 1);
                assert(x.drop_last() == a@.take(i as int));
                assert(y.drop_last() == b@.take(j as int));
                assert(x.last() == a@[i as int]);
                assert(y.last() == b@[j as int]);
                lemma_edits_bound(x, y);
                lemma_edits_bound(x.drop_last(), y.drop_last());
                lemma_edits_bound(x.drop_last(), y);
                lemma_edits_bound(x, y.drop_last());
            }
            cur.push(best);
            j += 1;
        }
        prev = cur;
        i += 1;
    }
    proof {
        assert(a@.take(n as int) == a@);
        assert(b@.take(m as int) == b@);
    }
    prev[m]
}

/// The most edits a typo may take to still be suggested.
pub const MAX_EDITS: usize = 2;

/// The positions among the first `n` candidates that are exactly `d` edits from `word`,
/// case left aside, in list order.
pub open spec fn at_distance(word: Seq<char>, candidates: Seq<Seq<char>>, d: nat, n: nat) -> Seq<
    int,
>
    decreases n,
{
    if n == 0 {
        Seq::empty()
    } else {
        let rest = at_distance(word, candidates, d, (n - 1) as nat);
        if edits(lowercase(word), lowercase(candidates[n - 1])) == d {
            rest.push(n - 1)
        } else {
            rest
        }
    }
}

/// The candidates close enough to `word` to be what was meant, nearest first, each group in
/// list order.
pub open spec fn near(word: Seq<char>, candidates: Seq<Seq<char>>) -> Seq<int> {
    let n = candidates.len();
    at_distance(word, candidates, 0, n) + at_distance(word, candidates, 1, n) + at_distance(
        word,
        candidates,
        2,
        n,
    )
}

/// The distance groups below `d`, in order.
pub open spec fn near_upto(word: Seq<char>, candidates: Seq<Seq<char>>, d: nat) -> Seq<int>
    decreases d,
{
    if d == 0 {
        Seq::empty()
    } else {
        near_upto(word, candidates, (d - 1) as nat) + at_distance(
            word,
            candidates,
            (d - 1) as nat,
            candidates.len(),
        )
    }
}

/// What `word` may have been meant as, nearest first: every candidate at most `MAX_EDITS`
/// edits away, as positions into `candidates`, the first `limit` of them.
pub fn suggestions(word: &[char], candidates: &Vec<Vec<char>>, limit: usize) -> (r: Vec<usize>)
    ensures
        r@.map_values(|i: usize| i as int) == near(
            word@,
            candidates@.map_values(|c: Vec<char>| c@),
        ).take(
            if limit < near(word@, candidates@.map_values(|c: Vec<char>| c@)).len() {
                limit as int
            } else {
                near(word@, candidates@.map_values(|c: Vec<char>| c@)).len() as int
            },
        ),
{
    let ghost views = candidates@.map_values(|c: Vec<char>| c@);
    let w = lower(word);
    let mut dists: Vec<usize> = Vec::new();
    let mut i: usize = 0;
    while i < candidates.len()
        invariant
            i <= candidates@.len(),
            w@ == lowercase(word@),
            dists@.len() == i,
            forall|j: int|
                0 <= j < i ==> #[trigger] dists@[j] == edits(lowercase(word@), lowercase(candidates@[j]@)),
        decreases candidates.len() - i,
    {
        let c = lower(candidates[i].as_slice());
        dists.push(edit_distance(w.as_slice(), c.as_slice()));
        i += 1;
    }
    let mut all: Vec<usize> = Vec::new();
    let mut d: usize = 0;
    while d <= MAX_EDITS
        invariant
            d <= MAX_EDITS + 1,
            dists@.len() == candidates@.len(),
            views.len() == candidates@.len(),
            forall|j: int| 0 <= j < candidates@.len() ==> #[trigger] views[j] == candidates@[j]@,
            forall|j: int|
                0 <= j < candidates@.len() ==> #[trigger] dists@[j] == edits(lowercase(word@), lowercase(candidates@[j]@)),
            all@.map_values(|i: usize| i as int) == near_upto(word@, views, d as nat),
        decreases MAX_EDITS + 1 - d,
    {
        let ghost before = all@.map_values(|i: usize| i as int);
        let mut i: usize = 0;
        while i < dists.len()
            invariant
                d <= MAX_EDITS,
                i <= dists@.len(),
                dists@.len() == candidates@.len(),
                views.len() == candidates@.len(),
                forall|j: int| 0 <= j < candidates@.len() ==> #[trigger] views[j] == candidates@[j]@,
                forall|j: int|
                    0 <= j < candidates@.len() ==> #[trigger] dists@[j] == edits(lowercase(word@), lowercase(candidates@[j]@)),
                all@.map_values(|i: usize| i as int) == before + at_distance(
                    word@,
                    views,
                    d as nat,
                    i as nat,
                ),
            decreases dists.len() - i,
        {
            let ghost old_all = all@;
            if dists[i] == d {
                all.push(i);
            }
            proof {
                assert(views[i as int] == candidates@[i as int]@);
                if dists[i as int] == d {
                    assert(all@.map_values(|i: usize| i as int) == old_all.map_values(
                        |i: usize| i as int,
                    ).push(i as int));
                } else {
                    assert(all@ == old_all);
                }
            }
            i += 1;
        }
        d += 1;
    }
    proof {
        reveal_with_fuel(near_upto, 4);
        assert(Seq::<int>::empty() + at_distance(word@, views, 0, views.len()) == at_distance(
            word@,
            views,
            0,
            views.len(),
        ));
    }
    let keep = if limit < all.len() {
        limit
    } else {
        all.len()
    };
    let mut r: Vec<usize> = Vec::new();
    let mut k: usize = 0;
    while k < keep
        invariant
            k <= keep <= all@.len(),
            r@ == all@.take(k as int),
        decreases keep - k,
    {
        r.push(all[k]);
        k += 1;
        assert(r@ == all@.take(k as int));
    }
    proof {
        assert(r@.map_values(|i: usize| i as int) == all@.map_values(|i: usize| i as int).take(
            keep as int,
        ));
    }
    r
}

proof fn lemma_at_distance_in_bounds(word: Seq<char>, candidates: Seq<Seq<char>>, d: nat, n: nat)
    ensures
        forall|k: int|
            0 <= k < at_distance(word, candidates, d, n).len() ==> 0 <= #[trigger] at_distance(
                word,
                candidates,
                d,
                n,
            )[k] < n,
    decreases n,
{
    if n > 0 {
        lemma_at_distance_in_bounds(word, candidates, d, (n - 1) as nat);
        let rest = at_distance(word, candidates, d, (n - 1) as nat);
        let all = at_distance(word, candidates, d, n);
        assert forall|k: int| 0 <= k < all.len() implies 0 <= #[trigger] all[k] < n by {
            if k < rest.len() {
                assert(all[k] == rest[k]);
            }
        }
    }
}

/// Every position `near` gives points at one of the candidates.
pub proof fn lemma_near_in_bounds(word: Seq<char>, candidates: Seq<Seq<char>>)
    ensures
        forall|k: int|
            0 <= k < near(word, candidates).len() ==> 0 <= #[trigger] near(word, candidates)[k]
                < candidates.len(),
{
    let n = candidates.len();
    lemma_at_distance_in_bounds(word, candidates, 0, n);
    lemma_at_distance_in_bounds(word, candidates, 1, n);
    lemma_at_distance_in_bounds(word, candidates, 2, n);
    let a = at_distance(word, candidates, 0, n);
    let b = at_distance(word, candidates, 1, n);
    let c = at_distance(word, candidates, 2, n);
    assert forall|k: int| 0 <= k < near(word, candidates).len() implies 0 <= #[trigger] near(
        word,
        candidates,
    )[k] < n by {
        let r = near(word, candidates);
        if k < a.len() {
            assert(r[k] == a[k]);
        } else if k < a.len() + b.len() {
            assert(r[k] == b[k - a.len()]);
        } else {
            assert(r[k] == c[k - a.len() - b.len()]);
        }
    }
}

} // verus!
