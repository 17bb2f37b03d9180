//! Text as the library sees it: a sequence of characters, with the few facts about Unicode
//! that the rest of the crate leans on.
use vstd::prelude::*;

verus! {

broadcast use vstd::string::group_string_axioms;

/// The Unicode `White_Space` property (PropList.txt), which `char::is_whitespace` reports.
#[verifier::opaque]
pub open spec fn is_white_space(c: char) -> bool {
    ||| ('\u{9}' <= c && c <= '\u{d}')
    ||| c == ' '
    ||| c == '\u{85}'
    ||| c == '\u{a0}'
    ||| c == '\u{1680}'
    ||| ('\u{2000}' <= c && c <= '\u{200a}')
    ||| c == '\u{2028}'
    ||| c == '\u{2029}'
    ||| c == '\u{202f}'
    ||| c == '\u{205f}'
    ||| c == '\u{3000}'
}

/// Whether `c` has the `White_Space` property, as `char::is_whitespace` answers.
pub fn is_whitespace(c: char) -> (r: bool)
    ensures
        r == is_white_space(c),
{
    proof {
        reveal(is_white_space);
    }
    ('\u{9}' <= c && c <= '\u{d}') || c == ' ' || c == '\u{85}' || c == '\u{a0}' || c == '\u{1680}'
        || ('\u{2000}' <= c && c <= '\u{200a}') || c == '\u{2028}' || c == '\u{2029}'
        || c == '\u{202f}' || c == '\u{205f}' || c == '\u{3000}'
}

/// What `str::to_lowercase` makes of a text, by Unicode's lowercase mapping.
pub uninterp spec fn lowercase(s: Seq<char>) -> Seq<char>;

/// What `str::to_uppercase` makes of a text, by Unicode's uppercase mapping.
pub uninterp spec fn uppercase(s: Seq<char>) -> Seq<char>;

/// `str::to_lowercase`. Its result depends on the text alone; the Unicode tables it follows
/// are not restated here.
#[verifier::external_body]
pub(crate) fn to_lower(s: &str) -> (r: String)
    ensures
        r@ == lowercase(s@),
{
    s.to_lowercase()
}

/// `str::to_uppercase`. Its result depends on the text alone; the Unicode tables it follows
/// are not restated here.
#[verifier::external_body]
pub(crate) fn to_upper(s: &str) -> (r: String)
    ensures
        r@ == uppercase(s@),
{
    s.to_uppercase()
}

/// `String::push`: the character goes at the end.
#[verifier::external_body]
pub(crate) fn push_char(s: &mut String, c: char)
    ensures
        final(s)@ == old(s)@.push(c),
{
    s.push(c)
}

/// The texts of `v`.
pub open spec fn texts(v: Seq<String>) -> Seq<Seq<char>> {
    v.map_values(|s: String| s@)
}

/// The text of an optional string.
pub open spec fn opt_view(s: Option<String>) -> Option<Seq<char>> {
    match s {
        Some(t) => Some(t@),
        None => None,
    }
}

/// A copy of `v`, text for text.
pub fn copy_texts(v: &Vec<String>) -> (r: Vec<String>)
    ensures
        texts(r@) == texts(v@),
{
    let mut r: Vec<String> = Vec::new();
    let mut i: usize = 0;
    while i < v.len()
        invariant
            i <= v@.len(),
            texts(r@) == texts(v@).take(i as int),
        decreases v.len() - i,
    {
        let ghost before = r@;
        r.push(copy_string(&v[i]));
        assert(texts(r@) == texts(before).push(v@[i as int]@));
        assert(texts(v@).take(i + 1) == texts(v@).take(i as int).push(v@[i as int]@));
        i += 1;
    }
    assert(texts(v@).take(v@.len() as int) == texts(v@));
    r
}

/// The characters of `s`, in order.
pub fn chars_of(s: &str) -> (v: Vec<char>)
    ensures
        v@ == s@,
{
    let mut v: Vec<char> = Vec::new();
    for c in it: s.chars()
        invariant
            v@ == it.seq().take(it.index() as int),
            it.seq() == s@,
    {
        v.push(c);
    }
    v
}

/// The text made of the characters `v`.
pub fn string_of(v: &[char]) -> (s: String)
    ensures
        s@ == v@,
{
    let mut s = String::new();
    let mut i: usize = 0;
    while i < v.len()
        invariant
            i <= v.len(),
            s@ == v@.take(i as int),
        decreases v.len() - i,
    {
        push_char(&mut s, v[i]);
        i += 1;
        assert(s@ == v@.take(i as int));
    }
    assert(v@.take(v.len() as int) == v@);
    s
}

/// `s` without the white space it starts with.
pub open spec fn trim_start(s: Seq<char>) -> Seq<char>
    decreases s.len(),
{
    if s.len() > 0 && is_white_space(s[0]) {
        trim_start(s.drop_first())
    } else {
        s
    }
}

/// `s` without the white space it ends with.
pub open spec fn trim_end(s: Seq<char>) -> Seq<char>
    decreases s.len(),
{
    if s.len() > 0 && is_white_space(s.last()) {
        trim_end(s.drop_last())
    } else {
        s
    }
}

/// `s` without white space at either end, as `str::trim` gives it.
pub open spec fn trim(s: Seq<char>) -> Seq<char> {
    trim_end(trim_start(s))
}

/// Where the last white space of `s` ends: just past it, or 0 when `s` has none.
pub open spec fn last_space_end(s: Seq<char>) -> nat
    decreases s.len(),
{
    if s.len() == 0 {
        0
    } else if is_white_space(s.last()) {
        s.len()
    } else {
        last_space_end(s.drop_last())
    }
}

/// Whether any character of `s` is white space.
pub open spec fn has_space(s: Seq<char>) -> bool {
    exists|i: int| 0 <= i < s.len() && is_white_space(#[trigger] s[i])
}

/// Removing all leading white space leaves what removing it in steps leaves.
pub proof fn lemma_trim_start_skip(s: Seq<char>, i: int)
    requires
        0 <= i <= s.len(),
        forall|j: int| 0 <= j < i ==> is_white_space(#[trigger] s[j]),
    ensures
        trim_start(s) == trim_start(s.skip(i)),
    decreases i,
{
    if i > 0 {
        assert(s.drop_first() == s.skip(1));
        lemma_trim_start_skip(s.drop_first(), i - 1);
        assert(s.drop_first().skip(i - 1) == s.skip(i));
    } else {
        assert(s.skip(0) == s);
    }
}

/// Removing all trailing white space leaves what removing it in steps leaves.
pub proof fn lemma_trim_end_take(s: Seq<char>, i: int)
    requires
        0 <= i <= s.len(),
        forall|j: int| i <= j < s.len() ==> is_white_space(#[trigger] s[j]),
    ensures
        trim_end(s) == trim_end(s.take(i)),
    decreases s.len() - i,
{
    if i < s.len() {
        assert(s.drop_last() == s.take(s.len() - 1));
        lemma_trim_end_take(s.drop_last(), i);
        assert(s.drop_last().take(i) == s.take(i));
    } else {
        assert(s.take(i) == s);
    }
}

/// Where the text left after trimming the start of `v` begins.
pub fn trim_start_at(v: &[char]) -> (i: usize)
    ensures
        i <= v@.len(),
        trim_start(v@) == v@.skip(i as int),
{
    let mut i: usize = 0;
    while i < v.len() && is_whitespace(v[i])
        invariant
            i <= v@.len(),
            forall|j: int| 0 <= j < i ==> is_white_space(#[trigger] v@[j]),
        decreases v.len() - i,
    {
        i += 1;
    }
    proof {
        lemma_trim_start_skip(v@, i as int);
    }
    i
}

/// Where the text left after trimming the end of `v[..end]` stops.
pub fn trim_end_at(v: &[char], end: usize) -> (e: usize)
    requires
        end <= v@.len(),
    ensures
        e <= end,
        trim_end(v@.take(end as int)) == v@.take(e as int),
{
    let mut e: usize = end;
    while e > 0 && is_whitespace(v[e - 1])
        invariant
            e <= end <= v@.len(),
            forall|j: int| e <= j < end ==> is_white_space(#[trigger] v@[j]),
        decreases e,
    {
        e -= 1;
    }
    proof {
        let s = v@.take(end as int);
        assert forall|j: int| e <= j < s.len() implies is_white_space(#[trigger] s[j]) by {
            assert(s[j] == v@[j]);
        }
        lemma_trim_end_take(s, e as int);
        assert(s.take(e as int) == v@.take(e as int));
        let t = v@.take(e as int);
        if t.len() > 0 {
            assert(t.last() == v@[e - 1]);
        }
    }
    e
}

/// The characters `v[a..b]`.
pub fn slice_of(v: &[char], a: usize, b: usize) -> (r: Vec<char>)
    requires
        a <= b <= v@.len(),
    ensures
        r@ == v@.subrange(a as int, b as int),
{
    let mut r: Vec<char> = Vec::new();
    let mut i = a;
    while i < b
        invariant
            a <= i <= b <= v@.len(),
            r@ == v@.subrange(a as int, i as int),
        decreases b - i,
    {
        r.push(v[i]);
        i += 1;
        assert(r@ == v@.subrange(a as int, i as int));
    }
    r
}

/// `v` with the characters `v[a..b]` cut out.
pub fn cut(v: &[char], a: usize, b: usize) -> (r: Vec<char>)
    requires
        a <= b <= v@.len(),
    ensures
        r@ == v@.take(a as int) + v@.skip(b as int),
{
    let mut r = slice_of(v, 0, a);
    let mut i = b;
    while i < v.len()
        invariant
            b <= i <= v@.len(),
            r@ == v@.take(a as int) + v@.subrange(b as int, i as int),
        decreases v.len() - i,
    {
        r.push(v[i]);
        i += 1;
        assert(r@ == v@.take(a as int) + v@.subrange(b as int, i as int));
    }
    assert(v@.subrange(b as int, v@.len() as int) == v@.skip(b as int));
    r
}

/// Whether the characters `v` spell `s`.
pub fn same_text(v: &[char], s: &str) -> (r: bool)
    ensures
        r == (v@ == s@),
{
    let w = chars_of(s);
    if v.len() != w.len() {
        return false;
    }
    let mut i: usize = 0;
    while i < v.len()
        invariant
            i <= v@.len() == w@.len(),
            w@ == s@,
            forall|j: int| 0 <= j < i ==> v@[j] == w@[j],
        decreases v.len() - i,
    {
        if v[i] != w[i] {
            return false;
        }
        i += 1;
    }
    assert(v@ == w@);
    true
}

/// Whether `v` and `w` hold the same characters.
pub fn same_chars(v: &[char], w: &[char]) -> (r: bool)
    ensures
        r == (v@ == w@),
{
    if v.len() != w.len() {
        return false;
    }
    let mut i: usize = 0;
    while i < v.len()
        invariant
            i <= v@.len() == w@.len(),
            forall|j: int| 0 <= j < i ==> v@[j] == w@[j],
        decreases v.len() - i,
    {
        if v[i] != w[i] {
            return false;
        }
        i += 1;
    }
    assert(v@ == w@);
    true
}

/// Whether `v` begins with `p`.
pub fn begins_with(v: &[char], p: &[char]) -> (r: bool)
    ensures
        r == (p@.len() <= v@.len() && v@.take(p@.len() as int) == p@),
{
    if p.len() > v.len() {
        return false;
    }
    let mut i: usize = 0;
    while i < p.len()
        invariant
            i <= p@.len() <= v@.len(),
            forall|j: int| 0 <= j < i ==> v@[j] == p@[j],
        decreases p.len() - i,
    {
        if v[i] != p[i] {
            assert(v@.take(p@.len() as int)[i as int] != p@[i as int]);
            return false;
        }
        i += 1;
    }
    assert(v@.take(p@.len() as int) == p@);
    true
}

/// Where the first white space of `v` at or after `from` sits, if any.
pub fn find_space(v: &[char], from: usize) -> (r: Option<usize>)
    requires
        from <= v@.len(),
    ensures
        match r {
            Some(i) => from <= i < v@.len() && is_white_space(v@[i as int]) && forall|j: int|
                from <= j < i ==> !is_white_space(#[trigger] v@[j]),
            None => forall|j: int| from <= j < v@.len() ==> !is_white_space(#[trigger] v@[j]),
        },
{
    let mut i = from;
    while i < v.len()
        invariant
            from <= i <= v@.len(),
            forall|j: int| from <= j < i ==> !is_white_space(#[trigger] v@[j]),
        decreases v.len() - i,
    {
        if is_whitespace(v[i]) {
            return Some(i);
        }
        i += 1;
    }
    None
}

/// The characters of each text, in order.
pub fn labels_of(texts: &[String]) -> (r: Vec<Vec<char>>)
    ensures
        r@.map_values(|l: Vec<char>| l@) == texts@.map_values(|t: String| t@),
{
    let mut r: Vec<Vec<char>> = Vec::new();
    let mut i: usize = 0;
    while i < texts.len()
        invariant
            i <= texts@.len(),
            r@.len() == i,
            forall|j: int| 0 <= j < i ==> #[trigger] r@[j]@ == texts@[j]@,
        decreases texts.len() - i,
    {
        r.push(chars_of(texts[i].as_str()));
        i += 1;
    }
    assert(r@.map_values(|l: Vec<char>| l@) =~= texts@.map_values(|t: String| t@));
    r
}

/// A copy of `s`.
pub fn copy_string(s: &String) -> (r: String)
    ensures
        r@ == s@,
{
    s.clone()
}

/// `s` without the copies of `c` it starts with.
pub open spec fn skip_leading(s: Seq<char>, c: char) -> Seq<char>
    decreases s.len(),
{
    if s.len() > 0 && s[0] == c {
        skip_leading(s.drop_first(), c)
    } else {
        s
    }
}

/// `s` without the copies of `c` it ends with.
pub open spec fn skip_trailing(s: Seq<char>, c: char) -> Seq<char>
    decreases s.len(),
{
    if s.len() > 0 && s.last() == c {
        skip_trailing(s.drop_last(), c)
    } else {
        s
    }
}

/// The first position of `s` holding white space, if any.
pub open spec fn first_space(s: Seq<char>) -> Option<int> {
    if has_space(s) {
        Some(
            choose|i: int|
                0 <= i < s.len() && is_white_space(s[i]) && forall|j: int|
                    0 <= j < i ==> !is_white_space(#[trigger] s[j]),
        )
    } else {
        None
    }
}

/// The first position of `s` holding `c`, if any.
pub open spec fn first_char(s: Seq<char>, c: char) -> Option<int> {
    if s.contains(c) {
        Some(choose|i: int| 0 <= i < s.len() && s[i] == c && forall|j: int| 0 <= j < i ==> s[j] != c)
    } else {
        None
    }
}

/// Where `first_space` points, there is white space, and none before it.
pub proof fn lemma_first_space(s: Seq<char>)
    ensures
        first_space(s) matches Some(p) ==> 0 <= p < s.len() && is_white_space(s[p]) && forall|j: int|
            0 <= j < p ==> !is_white_space(#[trigger] s[j]),
{
    if has_space(s) {
        let k = choose|k: int| 0 <= k < s.len() && is_white_space(#[trigger] s[k]);
        lemma_least_space(s, k);
    }
}

proof fn lemma_least_space(s: Seq<char>, k: int)
    requires
        0 <= k < s.len(),
        is_white_space(s[k]),
    ensures
        exists|i: int|
            0 <= i < s.len() && is_white_space(s[i]) && forall|j: int|
                0 <= j < i ==> !is_white_space(#[trigger] s[j]),
    decreases k,
{
    if exists|j: int| 0 <= j < k && is_white_space(#[trigger] s[j]) {
        let j = choose|j: int| 0 <= j < k && is_white_space(#[trigger] s[j]);
        lemma_least_space(s, j);
    } else {
        assert(forall|j: int| 0 <= j < k ==> !is_white_space(#[trigger] s[j]));
    }
}

proof fn lemma_skip_leading_steps(s: Seq<char>, c: char, i: int)
    requires
        0 <= i <= s.len(),
        forall|j: int| 0 <= j < i ==> #[trigger] s[j] == c,
    ensures
        skip_leading(s, c) == skip_leading(s.skip(i), c),
    decreases i,
{
    if i > 0 {
        assert(s.drop_first() == s.skip(1));
        lemma_skip_leading_steps(s.drop_first(), c, i - 1);
        assert(s.drop_first().skip(i - 1) == s.skip(i));
    } else {
        assert(s.skip(0) == s);
    }
}

proof fn lemma_skip_trailing_steps(s: Seq<char>, c: char, i: int)
    requires
        0 <= i <= s.len(),
        forall|j: int| i <= j < s.len() ==> #[trigger] s[j] == c,
    ensures
        skip_trailing(s, c) == skip_trailing(s.take(i), c),
    decreases s.len() - i,
{
    if i < s.len() {
        assert(s.drop_last() == s.take(s.len() - 1));
        lemma_skip_trailing_steps(s.drop_last(), c, i);
        assert(s.drop_last().take(i) == s.take(i));
    } else {
        assert(s.take(i) == s);
    }
}

/// `v` without the copies of `c` at its start.
pub fn drop_leading(v: &[char], c: char) -> (r: Vec<char>)
    ensures
        r@ == skip_leading(v@, c),
{
    let mut i: usize = 0;
    while i < v.len() && v[i] == c
        invariant
            i <= v@.len(),
            forall|j: int| 0 <= j < i ==> #[trigger] v@[j] == c,
        decreases v.len() - i,
    {
        i += 1;
    }
    proof {
        lemma_skip_leading_steps(v@, c, i as int);
        assert(v@.subrange(i as int, v@.len() as int) == v@.skip(i as int));
    }
    slice_of(v, i, v.len())
}

/// `v` without the copies of `c` at either end.
pub fn drop_around(v: &[char], c: char) -> (r: Vec<char>)
    ensures
        r@ == skip_trailing(skip_leading(v@, c), c),
{
    let w = drop_leading(v, c);
    let mut e: usize = w.len();
    while e > 0 && w[e - 1] == c
        invariant
            e <= w@.len(),
            forall|j: int| e <= j < w@.len() ==> #[trigger] w@[j] == c,
        decreases e,
    {
        e -= 1;
    }
    proof {
        lemma_skip_trailing_steps(w@, c, e as int);
        let t = w@.take(e as int);
        if t.len() > 0 {
            assert(t.last() == w@[e - 1]);
        }
        assert(w@.subrange(0, e as int) == t);
    }
    slice_of(w.as_slice(), 0, e)
}

/// `v` without white space at either end.
pub fn trimmed(v: &[char]) -> (r: Vec<char>)
    ensures
        r@ == trim(v@),
{
    let a = trim_start_at(v);
    let w = slice_of(v, a, v.len());
    proof {
        assert(w@ == v@.skip(a as int));
    }
    let e = trim_end_at(w.as_slice(), w.len());
    proof {
        assert(w@.take(w@.len() as int) == w@);
        assert(w@.subrange(0, e as int) == w@.take(e as int));
    }
    slice_of(w.as_slice(), 0, e)
}

/// Where the first white space of `v` sits, if any.
pub fn first_space_at(v: &[char]) -> (r: Option<usize>)
    ensures
        match r {
            Some(i) => first_space(v@) == Some(i as int) && i < v@.len() && is_white_space(v@[i as int]),
            None => first_space(v@) is None,
        },
{
    let r = find_space(v, 0);
    match r {
        Some(i) => {
            proof {
                let p = |k: int|
                    0 <= k < v@.len() && is_white_space(v@[k]) && forall|j: int|
                        0 <= j < k ==> !is_white_space(#[trigger] v@[j]);
                assert(p(i as int));
                assert(has_space(v@));
                let c = choose|k: int|
                    0 <= k < v@.len() && is_white_space(v@[k]) && forall|j: int|
                        0 <= j < k ==> !is_white_space(#[trigger] v@[j]);
                assert(p(c));
                if c < i {
                    assert(!is_white_space(v@[c]));
                }
                if i < c {
                    assert(!is_white_space(v@[i as int]));
                }
            }
            Some(i)
        },
        None => {
            proof {
                assert(!has_space(v@));
            }
            None
        },
    }
}

/// Where the first `c` of `v` sits, if any.
pub fn first_char_at(v: &[char], c: char) -> (r: Option<usize>)
    ensures
        match r {
            Some(i) => first_char(v@, c) == Some(i as int) && i < v@.len() && v@[i as int] == c,
            None => first_char(v@, c) is None,
        },
{
    let mut i: usize = 0;
    while i < v.len()
        invariant
            i <= v@.len(),
            forall|j: int| 0 <= j < i ==> v@[j] != c,
        decreases v.len() - i,
    {
        if v[i] == c {
            proof {
                assert(v@.contains(c));
                let k = choose|k: int| 0 <= k < v@.len() && v@[k] == c && forall|j: int| 0 <= j < k ==> v@[j] != c;
                if k < i {
                    assert(v@[k] != c);
                }
                if i < k {
                    assert(v@[i as int] != c);
                }
            }
            return Some(i);
        }
        i += 1;
    }
    proof {
        assert(!v@.contains(c));
    }
    None
}

/// Where the last white space of `v` ends: just past it, or 0 when there is none.
pub fn last_space_end_at(v: &[char]) -> (e: usize)
    ensures
        e == last_space_end(v@),
        e <= v@.len(),
{
    let mut j: usize = v.len();
    assert(v@.take(j as int) == v@);
    while j > 0 && !is_whitespace(v[j - 1])
        invariant
            j <= v@.len(),
            last_space_end(v@) == last_space_end(v@.take(j as int)),
        decreases j,
    {
        proof {
            let t = v@.take(j as int);
            assert(t.last() == v@[j - 1]);
            assert(t.drop_last() == v@.take(j - 1));
        }
        j -= 1;
    }
    proof {
        let t = v@.take(j as int);
        if j > 0 {
            assert(t.last() == v@[j - 1]);
        }
    }
    j
}

/// How long the word that `s` starts with is: the characters before its first white space.
pub open spec fn word_len(s: Seq<char>) -> nat
    decreases s.len(),
{
    if s.len() == 0 || is_white_space(s[0]) {
        0
    } else {
        1 + word_len(s.drop_first())
    }
}

/// A word is never longer than the text it starts.
pub proof fn lemma_word_len(s: Seq<char>)
    ensures
        word_len(s) <= s.len(),
        s.len() > 0 && !is_white_space(s[0]) ==> word_len(s) >= 1,
    decreases s.len(),
{
    if s.len() > 0 && !is_white_space(s[0]) {
        lemma_word_len(s.drop_first());
    }
}

/// The words of `s`: its runs of characters between white space, in order, as
/// `str::split_whitespace` gives them.
pub open spec fn words(s: Seq<char>) -> Seq<Seq<char>>
    decreases s.len(),
{
    if s.len() == 0 {
        Seq::empty()
    } else if is_white_space(s[0]) {
        words(s.drop_first())
    } else {
        let n = word_len(s);
        proof {
            lemma_word_len(s);
        }
        seq![s.take(n as int)] + words(s.skip(n as int))
    }
}

/// The words of `v`.
pub fn split_words(v: &[char]) -> (r: Vec<Vec<char>>)
    ensures
        r@.map_values(|w: Vec<char>| w@) == words(v@),
{
    let mut r: Vec<Vec<char>> = Vec::new();
    let mut i: usize = 0;
    assert(v@.skip(0) == v@);
    while i < v.len()
        invariant
            i <= v@.len(),
            words(v@) == r@.map_values(|w: Vec<char>| w@) + words(v@.skip(i as int)),
        decreases v.len() - i,
    {
        let ghost rest = v@.skip(i as int);
        assert(rest[0] == v@[i as int]);
        if is_whitespace(v[i]) {
            assert(rest.drop_first() == v@.skip(i + 1));
            i += 1;
        } else {
            let mut k = i;
            assert(rest.skip(0) == rest);
            while k < v.len() && !is_whitespace(v[k])
                invariant
                    i <= k <= v@.len(),
                    rest == v@.skip(i as int),
                    word_len(rest) == (k - i) + word_len(v@.skip(k as int)),
                    forall|j: int| i <= j < k ==> !is_white_space(#[trigger] v@[j]),
                decreases v.len() - k,
            {
                proof {
                    let t = v@.skip(k as int);
                    assert(t[0] == v@[k as int]);
                    assert(t.drop_first() == v@.skip(k + 1));
                }
                k += 1;
            }
            proof {
                let t = v@.skip(k as int);
                if k < v@.len() {
                    assert(t[0] == v@[k as int]);
                }
                assert(word_len(t) == 0);
                assert(rest.take((k - i) as int) == v@.subrange(i as int, k as int));
                assert(rest.skip((k - i) as int) == v@.skip(k as int));
            }
            let ghost before = r@;
            r.push(slice_of(v, i, k));
            assert(r@.map_values(|w: Vec<char>| w@) == before.map_values(|w: Vec<char>| w@).push(
                v@.subrange(i as int, k as int),
            ));
            i = k;
        }
    }
    assert(v@.skip(v@.len() as int).len() == 0);
    r
}

/// Whether `a` and `b` are the same text.
pub fn same_str(a: &str, b: &str) -> (r: bool)
    ensures
        r == (a@ == b@),
{
    let v = chars_of(a);
    same_text(v.as_slice(), b)
}

/// The digit `d` as a character.
pub open spec fn digit(d: nat) -> char {
    if d == 0 {
        '0'
    } else if d == 1 {
        '1'
    } else if d == 2 {
        '2'
    } else if d == 3 {
        '3'
    } else if d == 4 {
        '4'
    } else if d == 5 {
        '5'
    } else if d == 6 {
        '6'
    } else if d == 7 {
        '7'
    } else if d == 8 {
        '8'
    } else {
        '9'
    }
}

/// `n` written in decimal.
pub open spec fn decimal(n: nat) -> Seq<char>
    decreases n,
{
    if n < 10 {
        seq![digit(n)]
    } else {
        decimal(n / 10).push(digit(n % 10))
    }
}

fn digit_char(d: u64) -> (c: char)
    requires
        d < 10,
    ensures
        c == digit(d as nat),
{
    match d {
        0 => '0',
        1 => '1',
        2 => '2',
        3 => '3',
        4 => '4',
        5 => '5',
        6 => '6',
        7 => '7',
        8 => '8',
        _ => '9',
    }
}

/// `n` in decimal, appended to `s`.
pub fn push_decimal(s: &mut String, n: u64)
    ensures
        final(s)@ == old(s)@ + decimal(n as nat),
    decreases n,
{
    if n >= 10 {
        push_decimal(s, n / 10);
    }
    crate::text::push_char(s, digit_char(n % 10));
    proof {
        if n < 10 {
            assert(decimal(n as nat) == seq![digit(n as nat)]);
        }
    }
}

/// `c` in lower case, when it is an ASCII capital.
pub open spec fn ascii_lower(c: char) -> char {
    if 'A' <= c && c <= 'Z' {
        ((c as u32) + 32) as char
    } else {
        c
    }
}

/// `c` in lower case, when it is an ASCII capital.
pub fn lower_ascii(c: char) -> (r: char)
    ensures
        r == ascii_lower(c),
{
    if 'A' <= c && c <= 'Z' {
        ((c as u8) + 32) as char
    } else {
        c
    }
}


/// How many bytes UTF-8 takes for `c`, as `char::len_utf8` reports.
pub open spec fn utf8_width(c: char) -> int {
    if '\u{80}' > c {
        1
    } else if '\u{800}' > c {
        2
    } else if '\u{10000}' > c {
        3
    } else {
        4
    }
}

/// How many bytes UTF-8 takes for `s`, as `str::len` reports.
pub open spec fn utf8_len(s: Seq<char>) -> int
    decreases s.len(),
{
    if s.len() == 0 {
        0
    } else {
        utf8_len(s.drop_last()) + utf8_width(s.last())
    }
}

/// Where in `s` its first `n` bytes end, when that falls between two characters.
pub open spec fn byte_cut(s: Seq<char>, n: int) -> Option<int> {
    if exists|k: int| 0 <= k <= s.len() && #[trigger] utf8_len(s.take(k)) == n {
        Some(choose|k: int| 0 <= k <= s.len() && #[trigger] utf8_len(s.take(k)) == n)
    } else {
        None
    }
}

/// Where the cut falls, it falls inside the text.
pub proof fn lemma_cut_in_range(s: Seq<char>, n: int)
    requires
        byte_cut(s, n) is Some,
    ensures
        0 <= byte_cut(s, n).unwrap() <= s.len(),
{
}

/// One more character adds its width.
pub proof fn lemma_utf8_step(s: Seq<char>, i: int)
    requires
        0 <= i < s.len(),
    ensures
        utf8_len(s.take(i + 1)) == utf8_len(s.take(i)) + utf8_width(s[i]),
{
    assert(s.take(i + 1).drop_last() =~= s.take(i));
}

/// A longer prefix takes more bytes.
pub proof fn lemma_utf8_grows(s: Seq<char>, i: int, j: int)
    requires
        0 <= i < j <= s.len(),
    ensures
        utf8_len(s.take(i)) < utf8_len(s.take(j)),
    decreases j - i,
{
    lemma_utf8_step(s, j - 1);
    if i < j - 1 {
        lemma_utf8_grows(s, i, j - 1);
    }
}

/// The width in bytes of `c`.
fn width_of(c: char) -> (w: i8)
    ensures
        w == utf8_width(c),
{
    if '\u{80}' > c {
        1
    } else if '\u{800}' > c {
        2
    } else if '\u{10000}' > c {
        3
    } else {
        4
    }
}

/// Whether `s` takes more bytes than `t`, and where in `s` the length of `t` in bytes ends,
/// when that falls between two characters.
pub fn measure_bytes(s: &[char], t: &[char]) -> (r: (bool, Option<usize>))
    ensures
        r.0 == (utf8_len(s@) > utf8_len(t@)),
        match r.1 {
            Some(k) => byte_cut(s@, utf8_len(t@)) == Some(k as int),
            None => byte_cut(s@, utf8_len(t@)) is None,
        },
{
    let mut i: usize = 0;
    let mut k: usize = 0;
    let mut b: i8 = 0;
    proof {
        assert(s@.take(0) =~= Seq::<char>::empty());
        assert(t@.take(0) =~= Seq::<char>::empty());
    }
    loop
        invariant
            i <= t@.len(),
            k <= s@.len(),
            b == utf8_len(t@.take(i as int)) - utf8_len(s@.take(k as int)),
            -4 <= b <= 4,
            k == 0 || utf8_len(s@.take(k - 1)) < utf8_len(t@.take(i as int)),
        decreases (t@.len() - i) + (s@.len() - k),
    {
        if i == t.len() && b <= 0 {
            proof {
                assert(t@.take(i as int) =~= t@);
                assert(s@.take(s@.len() as int) =~= s@);
                if k < s@.len() {
                    lemma_utf8_grows(s@, k as int, s@.len() as int);
                }
                let n = utf8_len(t@);
                if b == 0 {
                    assert(utf8_len(s@.take(k as int)) == n);
                    let c = choose|j: int| 0 <= j <= s@.len() && #[trigger] utf8_len(s@.take(j)) == n;
                    if c < k {
                        lemma_utf8_grows(s@, c, k as int);
                    }
                    if c > k {
                        lemma_utf8_grows(s@, k as int, c);
                    }
                } else {
                    assert forall|j: int| 0 <= j <= s@.len() implies #[trigger] utf8_len(s@.take(j)) != n by {
                        if j < k {
                            if j < k - 1 {
                                lemma_utf8_grows(s@, j, k - 1);
                            }
                        }
                        if j > k {
                            lemma_utf8_grows(s@, k as int, j);
                        }
                    }
                }
            }
            let longer = b < 0 || k < s.len();
            if b == 0 {
                return (longer, Some(k));
            }
            return (longer, None);
        }
        if k == s.len() && b > 0 {
            proof {
                assert(s@.take(k as int) =~= s@);
                if i < t@.len() {
                    lemma_utf8_grows(t@, i as int, t@.len() as int);
                }
                assert(t@.take(t@.len() as int) =~= t@);
                let n = utf8_len(t@);
                assert forall|j: int| 0 <= j <= s@.len() implies #[trigger] utf8_len(s@.take(j)) != n by {
                    if j < k {
                        lemma_utf8_grows(s@, j, k as int);
                    }
                }
            }
            return (false, None);
        }
        if i < t.len() && b <= 0 {
            proof {
                lemma_utf8_step(t@, i as int);
            }
            b = b + width_of(t[i]);
            i = i + 1;
        } else {
            proof {
                lemma_utf8_step(s@, k as int);
            }
            b = b - width_of(s[k]);
            k = k + 1;
        }
    }
}

} // verus!
