//! Stable ordering by a key made of a number and a text: what the sidebar and the reaction
//! strip sort by.
use vstd::prelude::*;

verus! {

/// Whether `a` comes before `b` in the order of texts: character by character, by code point,
/// a text before every longer text that it begins.
pub open spec fn chars_before(a: Seq<char>, b: Seq<char>) -> bool
    decreases a.len(),
{
    if a.len() == 0 {
        b.len() > 0
    } else if b.len() == 0 {
        false
    } else if a[0] != b[0] {
        (a[0] as int) < (b[0] as int)
    } else {
        chars_before(a.drop_first(), b.drop_first())
    }
}

/// No text comes before itself.
pub proof fn lemma_chars_irreflexive(a: Seq<char>)
    ensures
        !chars_before(a, a),
    decreases a.len(),
{
    if a.len() > 0 {
        lemma_chars_irreflexive(a.drop_first());
    }
}

/// The order of texts is transitive.
pub proof fn lemma_chars_transitive(a: Seq<char>, b: Seq<char>, c: Seq<char>)
    requires
        chars_before(a, b),
        chars_before(b, c),
    ensures
        chars_before(a, c),
    decreases a.len(),
{
    if a.len() > 0 && b.len() > 0 && c.len() > 0 && a[0] == b[0] && b[0] == c[0] {
        lemma_chars_transitive(a.drop_first(), b.drop_first(), c.drop_first());
    }
}

/// Of two different texts, one comes before the other.
pub proof fn lemma_chars_total(a: Seq<char>, b: Seq<char>)
    ensures
        a == b || chars_before(a, b) || chars_before(b, a),
    decreases a.len(),
{
    if a.len() > 0 && b.len() > 0 && a[0] == b[0] {
        lemma_chars_total(a.drop_first(), b.drop_first());
        if a.drop_first() == b.drop_first() {
            assert(a == seq![a[0]] + a.drop_first());
            assert(b == seq![b[0]] + b.drop_first());
        }
    } else if a.len() == 0 && b.len() == 0 {
        assert(a == b);
    }
}

/// A sort key: a number first, then a text.
pub struct Key {
    pub rank: u128,
    pub text: Vec<char>,
}

impl View for Key {
    type V = (nat, Seq<char>);

    open spec fn view(&self) -> (nat, Seq<char>) {
        (self.rank as nat, self.text@)
    }
}

/// Whether key `a` comes before key `b`: by number, then by text.
pub open spec fn key_before(a: (nat, Seq<char>), b: (nat, Seq<char>)) -> bool {
    a.0 < b.0 || (a.0 == b.0 && chars_before(a.1, b.1))
}

/// Whether entry `i` of `keys` goes before entry `j`: by key, and in their first order where
/// the keys are equal.
pub open spec fn entry_before(keys: Seq<(nat, Seq<char>)>, i: int, j: int) -> bool {
    key_before(keys[i], keys[j]) || (keys[i] == keys[j] && i < j)
}

/// Whether `order` holds position `j`.
pub open spec fn lists(order: Seq<usize>, j: int) -> bool {
    exists|k: int| 0 <= k < order.len() && order[k] == j
}

/// `order` lists each position of `keys` once, sorted by key and, among equal keys, by position:
/// a stable sort.
pub open spec fn sorts(keys: Seq<(nat, Seq<char>)>, order: Seq<usize>) -> bool {
    &&& order.len() == keys.len()
    &&& forall|k: int| 0 <= k < order.len() ==> #[trigger] order[k] < keys.len()
    &&& forall|j: int| 0 <= j < keys.len() ==> #[trigger] lists(order, j)
    &&& forall|k: int, l: int| 0 <= k < l < order.len() ==> #[trigger] order[k] != #[trigger] order[l]
    &&& forall|k: int, l: int|
        0 <= k < l < order.len() ==> entry_before(keys, #[trigger] order[k] as int, #[trigger] order[l] as int)
}

/// The views of `keys`.
pub open spec fn key_views(keys: Seq<Key>) -> Seq<(nat, Seq<char>)> {
    keys.map_values(|k: Key| k@)
}

/// Whether text `a` comes before text `b`.
pub fn chars_less(a: &[char], b: &[char]) -> (r: bool)
    ensures
        r == chars_before(a@, b@),
{
    let mut i: usize = 0;
    assert(a@.skip(0) == a@ && b@.skip(0) == b@);
    while i < a.len() && i < b.len() && a[i] == b[i]
        invariant
            i <= a@.len(),
            i <= b@.len(),
            a@.take(i as int) == b@.take(i as int),
            chars_before(a@, b@) == chars_before(a@.skip(i as int), b@.skip(i as int)),
        decreases a.len() - i,
    {
        proof {
            let (x, y) = (a@.skip(i as int), b@.skip(i as int));
            assert(x[0] == a@[i as int] && y[0] == b@[i as int]);
            assert(x.drop_first() == a@.skip(i + 1));
            assert(y.drop_first() == b@.skip(i + 1));
            assert(a@.take(i + 1) == a@.take(i as int).push(a@[i as int]));
            assert(b@.take(i + 1) == b@.take(i as int).push(b@[i as int]));
        }
        i += 1;
    }
    let ghost (x, y) = (a@.skip(i as int), b@.skip(i as int));
    if i == a.len() {
        i < b.len()
    } else if i == b.len() {
        false
    } else {
        assert(x[0] == a@[i as int] && y[0] == b@[i as int]);
        a[i] < b[i]
    }
}

/// Whether key `a` comes before key `b`.
pub fn key_less(a: &Key, b: &Key) -> (r: bool)
    ensures
        r == key_before(a@, b@),
{
    if a.rank != b.rank {
        a.rank < b.rank
    } else {
        chars_less(a.text.as_slice(), b.text.as_slice())
    }
}

/// Entries with keys in order keep that order against a third one.
proof fn lemma_key_chain(a: (nat, Seq<char>), b: (nat, Seq<char>), c: (nat, Seq<char>))
    requires
        key_before(a, b),
        key_before(b, c) || b == c,
    ensures
        key_before(a, c),
{
    if b != c && a.0 == b.0 && b.0 == c.0 {
        lemma_chars_transitive(a.1, b.1, c.1);
    }
}

/// Of two different keys, one comes before the other; no key comes before itself.
proof fn lemma_key_total(a: (nat, Seq<char>), b: (nat, Seq<char>))
    ensures
        a == b || key_before(a, b) || key_before(b, a),
        !key_before(a, a),
{
    lemma_chars_total(a.1, b.1);
    lemma_chars_irreflexive(a.1);
}

/// The positions of `keys` in stable sorted order.
pub fn sorted_order(keys: &[Key]) -> (r: Vec<usize>)
    ensures
        sorts(key_views(keys@), r@),
{
    let ghost ks = key_views(keys@);
    let n = keys.len();
    let mut out: Vec<usize> = Vec::new();
    let mut i: usize = 0;
    while i < n
        invariant
            n == keys@.len() == ks.len(),
            ks == key_views(keys@),
            i <= n,
            out@.len() == i,
            forall|k: int| 0 <= k < out@.len() ==> #[trigger] out@[k] < i,
            forall|j: int| 0 <= j < i ==> #[trigger] lists(out@, j),
            forall|k: int, l: int| 0 <= k < l < out@.len() ==> #[trigger] out@[k] != #[trigger] out@[l],
            forall|k: int, l: int|
                0 <= k < l < out@.len() ==> entry_before(ks, #[trigger] out@[k] as int, #[trigger] out@[l] as int),
        decreases n - i,
    {
        let mut p: usize = 0;
        while p < out.len() && !key_less(&keys[i], &keys[out[p]])
            invariant
                n == keys@.len() == ks.len(),
                ks == key_views(keys@),
                i < n,
                out@.len() == i,
                forall|k: int| 0 <= k < out@.len() ==> #[trigger] out@[k] < i,
                p <= out@.len(),
                forall|k: int| 0 <= k < p ==> !key_before(ks[i as int], ks[#[trigger] out@[k] as int]),
            decreases out.len() - p,
        {
            p += 1;
        }
        let ghost old_out = out@;
        out.insert(p, i);
        proof {
            assert(out@ == old_out.insert(p as int, i));
            assert forall|k: int, l: int| 0 <= k < l < out@.len() implies entry_before(
                ks,
                #[trigger] out@[k] as int,
                #[trigger] out@[l] as int,
            ) by {
                let (a, b) = (out@[k] as int, out@[l] as int);
                if l == p {
                    // an earlier entry that does not come after the new one
                    assert(a == old_out[k]);
                    lemma_key_total(ks[a], ks[i as int]);
                } else if k == p {
                    assert(b == old_out[l - 1]);
                    if l - 1 == p {
                        assert(key_before(ks[i as int], ks[b]));
                    } else {
                        let m = old_out[p as int] as int;
                        assert(entry_before(ks, m, b));
                        assert(key_before(ks[i as int], ks[m]));
                        lemma_key_chain(ks[i as int], ks[m], ks[b]);
                    }
                } else {
                    let k0 = if k < p { k } else { k - 1 };
                    let l0 = if l < p { l } else { l - 1 };
                    assert(a == old_out[k0] && b == old_out[l0]);
                    assert(k0 < l0);
                }
            }
            assert forall|k: int, l: int| 0 <= k < l < out@.len() implies #[trigger] out@[k]
                != #[trigger] out@[l] by {
                if k != p && l != p {
                    let k0 = if k < p { k } else { k - 1 };
                    let l0 = if l < p { l } else { l - 1 };
                    assert(out@[k] == old_out[k0] && out@[l] == old_out[l0]);
                } else if k == p {
                    let l0 = l - 1;
                    assert(out@[l] == old_out[l0]);
                } else {
                    assert(out@[k] == old_out[k]);
                }
            }
            assert forall|j: int| 0 <= j < i + 1 implies #[trigger] lists(out@, j) by {
                if j == i {
                    assert(out@[p as int] == i);
                } else {
                    assert(lists(old_out, j));
                    let k = choose|k: int| 0 <= k < old_out.len() && old_out[k] == j;
                    if k < p {
                        assert(out@[k] == j);
                    } else {
                        assert(out@[k + 1] == j);
                    }
                }
            }
            assert forall|k: int| 0 <= k < out@.len() implies #[trigger] out@[k] < i + 1 by {
                if k < p {
                    assert(out@[k] == old_out[k]);
                } else if k > p {
                    assert(out@[k] == old_out[k - 1]);
                }
            }
        }
        i += 1;
    }
    out
}

/// Whether each text of `s` comes before every later one.
pub open spec fn increasing(s: Seq<Seq<char>>) -> bool {
    forall|k: int, l: int| 0 <= k < l < s.len() ==> chars_before(#[trigger] s[k], #[trigger] s[l])
}

/// Two increasing sequences of the same texts are the same sequence: the order of texts leaves
/// no choice.
pub proof fn lemma_increasing_unique(s: Seq<Seq<char>>, t: Seq<Seq<char>>)
    requires
        increasing(s),
        increasing(t),
        forall|x: Seq<char>| s.contains(x) <==> t.contains(x),
    ensures
        s == t,
    decreases s.len(),
{
    if s.len() == 0 {
        if t.len() > 0 {
            assert(t.contains(t[0]));
        }
        assert(s =~= t);
    } else {
        assert(s.contains(s[0]));
        if t.len() == 0 {
            assert(false);
        }
        let (a, b) = (s[0], t[0]);
        assert(t.contains(b));
        let j = choose|j: int| 0 <= j < t.len() && t[j] == a;
        let i = choose|i: int| 0 <= i < s.len() && s[i] == b;
        if a != b {
            assert(j > 0 && i > 0);
            assert(chars_before(b, a));
            assert(chars_before(a, b));
            lemma_chars_transitive(a, b, a);
            lemma_chars_irreflexive(a);
        }
        let (s1, t1) = (s.drop_first(), t.drop_first());
        assert forall|x: Seq<char>| s1.contains(x) <==> t1.contains(x) by {
            if s1.contains(x) {
                let k = choose|k: int| 0 <= k < s1.len() && s1[k] == x;
                assert(s[k + 1] == x);
                assert(chars_before(a, x));
                lemma_chars_irreflexive(a);
                assert(t.contains(x));
                let m = choose|m: int| 0 <= m < t.len() && t[m] == x;
                assert(m != 0);
                assert(t1[m - 1] == x);
            }
            if t1.contains(x) {
                let k = choose|k: int| 0 <= k < t1.len() && t1[k] == x;
                assert(t[k + 1] == x);
                assert(chars_before(b, x));
                lemma_chars_irreflexive(b);
                assert(s.contains(x));
                let m = choose|m: int| 0 <= m < s.len() && s[m] == x;
                assert(m != 0);
                assert(s1[m - 1] == x);
            }
        }
        assert forall|k: int, l: int| 0 <= k < l < s1.len() implies chars_before(#[trigger] s1[k], #[trigger] s1[l]) by {
            assert(s1[k] == s[k + 1] && s1[l] == s[l + 1]);
        }
        assert forall|k: int, l: int| 0 <= k < l < t1.len() implies chars_before(#[trigger] t1[k], #[trigger] t1[l]) by {
            assert(t1[k] == t[k + 1] && t1[l] == t[l + 1]);
        }
        lemma_increasing_unique(s1, t1);
        assert(s =~= seq![a] + s1);
        assert(t =~= seq![b] + t1);
    }
}

/// No entry goes before itself, and going before is transitive.
proof fn lemma_entry_order(keys: Seq<(nat, Seq<char>)>, a: int, b: int, c: int)
    ensures
        !entry_before(keys, a, a),
        entry_before(keys, a, b) && entry_before(keys, b, c) ==> entry_before(keys, a, c),
{
    lemma_key_total(keys[a], keys[b]);
    if entry_before(keys, a, b) && entry_before(keys, b, c) {
        if key_before(keys[a], keys[b]) {
            lemma_key_chain(keys[a], keys[b], keys[c]);
        } else if key_before(keys[b], keys[c]) {
            assert(keys[a] == keys[b]);
        }
    }
}

/// Two orders that each list the same positions, both going by `entry_before`, are one order.
proof fn lemma_entries_unique(keys: Seq<(nat, Seq<char>)>, s: Seq<usize>, t: Seq<usize>)
    requires
        forall|k: int, l: int| 0 <= k < l < s.len() ==> entry_before(keys, #[trigger] s[k] as int, #[trigger] s[l] as int),
        forall|k: int, l: int| 0 <= k < l < t.len() ==> entry_before(keys, #[trigger] t[k] as int, #[trigger] t[l] as int),
        forall|x: usize| s.contains(x) <==> t.contains(x),
    ensures
        s == t,
    decreases s.len(),
{
    if s.len() == 0 {
        if t.len() > 0 {
            assert(t.contains(t[0]));
        }
        assert(s =~= t);
    } else {
        assert(s.contains(s[0]));
        if t.len() == 0 {
            assert(false);
        }
        let (a, b) = (s[0], t[0]);
        assert(t.contains(b));
        let j = choose|j: int| 0 <= j < t.len() && t[j] == a;
        let i = choose|i: int| 0 <= i < s.len() && s[i] == b;
        if a != b {
            assert(j > 0 && i > 0);
            assert(entry_before(keys, b as int, a as int));
            assert(entry_before(keys, a as int, b as int));
            lemma_entry_order(keys, a as int, b as int, a as int);
        }
        let (s1, t1) = (s.drop_first(), t.drop_first());
        assert forall|x: usize| s1.contains(x) <==> t1.contains(x) by {
            if s1.contains(x) {
                let k = choose|k: int| 0 <= k < s1.len() && s1[k] == x;
                assert(s[k + 1] == x);
                assert(entry_before(keys, a as int, x as int));
                lemma_entry_order(keys, a as int, a as int, a as int);
                assert(t.contains(x));
                let m = choose|m: int| 0 <= m < t.len() && t[m] == x;
                assert(m != 0);
                assert(t1[m - 1] == x);
            }
            if t1.contains(x) {
                let k = choose|k: int| 0 <= k < t1.len() && t1[k] == x;
                assert(t[k + 1] == x);
                assert(entry_before(keys, b as int, x as int));
                lemma_entry_order(keys, b as int, b as int, b as int);
                assert(s.contains(x));
                let m = choose|m: int| 0 <= m < s.len() && s[m] == x;
                assert(m != 0);
                assert(s1[m - 1] == x);
            }
        }
        assert forall|k: int, l: int| 0 <= k < l < s1.len() implies entry_before(
            keys,
            #[trigger] s1[k] as int,
            #[trigger] s1[l] as int,
        ) by {
            assert(s1[k] == s[k + 1] && s1[l] == s[l + 1]);
        }
        assert forall|k: int, l: int| 0 <= k < l < t1.len() implies entry_before(
            keys,
            #[trigger] t1[k] as int,
            #[trigger] t1[l] as int,
        ) by {
            assert(t1[k] == t[k + 1] && t1[l] == t[l + 1]);
        }
        lemma_entries_unique(keys, s1, t1);
        assert(s =~= seq![a] + s1);
        assert(t =~= seq![b] + t1);
    }
}

/// The keys decide the order: there is exactly one stable sorted order of any list of keys,
/// so whatever is sorted by them comes out one way only.
pub proof fn law_sorting_is_determined(keys: Seq<(nat, Seq<char>)>, first: Seq<usize>, second: Seq<usize>)
    requires
        sorts(keys, first),
        sorts(keys, second),
    ensures
        first == second,
{
    assert forall|x: usize| first.contains(x) <==> second.contains(x) by {
        if first.contains(x) {
            let k = choose|k: int| 0 <= k < first.len() && first[k] == x;
            assert(first[k] < keys.len());
            assert(lists(second, x as int));
        }
        if second.contains(x) {
            let k = choose|k: int| 0 <= k < second.len() && second[k] == x;
            assert(second[k] < keys.len());
            assert(lists(first, x as int));
        }
    }
    lemma_entries_unique(keys, first, second);
}

} // verus!
