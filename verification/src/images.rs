//! Inline thumbnails as the screen tracks them: each picture is asked for once, is loading
//! until it arrives ready to draw or fails, and is forgotten once it leaves the screen.
use crate::text::{copy_string, same_str};
use vstd::prelude::*;

verus! {

/// Widest a thumbnail gets, in cells; its height follows the picture's shape.
pub const MAX_COLS: u16 = 60;

/// Tallest a thumbnail gets, in cells.
pub const MAX_ROWS: u16 = 14;

/// Where one picture stands: asked for, ready to draw with what the terminal needs (`R`), or
/// failed.
pub enum Thumb<R> {
    Loading,
    Ready(R),
    Failed,
}

/// Where a picture stands, without what it is drawn with.
#[derive(Clone, Copy, Debug, PartialEq, Eq, Structural)]
pub enum ThumbState {
    Loading,
    Ready,
    Failed,
}

/// Where `t` stands.
pub open spec fn state_of<R>(t: Thumb<R>) -> ThumbState {
    match t {
        Thumb::Loading => ThumbState::Loading,
        Thumb::Ready(_) => ThumbState::Ready,
        Thumb::Failed => ThumbState::Failed,
    }
}

/// A file of a message as the thumbnails see it: its id, and the address of its thumbnail
/// when it is a picture.
#[derive(Debug, PartialEq, Eq)]
pub struct FileRef {
    pub id: String,
    pub thumb_url: Option<String>,
}

/// A file as texts.
pub open spec fn file_view(f: FileRef) -> (Seq<char>, Option<Seq<char>>) {
    (
        f.id@,
        match f.thumb_url {
            Some(u) => Some(u@),
            None => None,
        },
    )
}

/// Every picture the screen knows, by file id, and whether the terminal can draw pictures.
pub struct Thumbs<R> {
    enabled: bool,
    slots: Vec<(String, Thumb<R>)>,
}

/// Whether some entry of `s` is for `id`.
pub open spec fn has_id(s: Seq<(Seq<char>, ThumbState)>, id: Seq<char>) -> bool {
    exists|i: int| 0 <= i < s.len() && #[trigger] s[i].0 == id
}

/// Whether no id shows twice in `s`.
pub open spec fn distinct(s: Seq<(Seq<char>, ThumbState)>) -> bool {
    forall|i: int, j: int| 0 <= i < j < s.len() ==> #[trigger] s[i].0 != #[trigger] s[j].0
}

/// The entries, and the pictures asked for, once `files` are gone through: a picture not
/// known yet is asked for and marked loading; a file that is no picture, or a picture already
/// known, is passed over.
pub open spec fn asked(s: Seq<(Seq<char>, ThumbState)>, files: Seq<(Seq<char>, Option<Seq<char>>)>) -> (
    Seq<(Seq<char>, ThumbState)>,
    Seq<(Seq<char>, Seq<char>)>,
)
    decreases files.len(),
{
    if files.len() == 0 {
        (s, Seq::empty())
    } else {
        let (known, out) = asked(s, files.drop_last());
        let (id, thumb) = files.last();
        match thumb {
            Some(url) => if has_id(known, id) {
                (known, out)
            } else {
                (known.push((id, ThumbState::Loading)), out.push((id, url)))
            },
            None => (known, out),
        }
    }
}

/// The entries of `s` whose id is among `ids`.
pub open spec fn kept(s: Seq<(Seq<char>, ThumbState)>, ids: Seq<Seq<char>>) -> Seq<(Seq<char>, ThumbState)>
    decreases s.len(),
{
    if s.len() == 0 {
        s
    } else if ids.contains(s.last().0) {
        kept(s.drop_last(), ids).push(s.last())
    } else {
        kept(s.drop_last(), ids)
    }
}

/// The entries once the picture `id` arrived, ready or not: its entry changes in place, or
/// one is added at the end.
pub open spec fn settled(s: Seq<(Seq<char>, ThumbState)>, id: Seq<char>, state: ThumbState) -> Seq<
    (Seq<char>, ThumbState),
> {
    if has_id(s, id) {
        s.map_values(
            |e: (Seq<char>, ThumbState)|
                if e.0 == id {
                    (e.0, state)
                } else {
                    e
                },
        )
    } else {
        s.push((id, state))
    }
}

impl<R> Thumbs<R> {
    /// The entries as ids and states.
    pub closed spec fn entries(&self) -> Seq<(Seq<char>, ThumbState)> {
        self.slots@.map_values(|e: (String, Thumb<R>)| (e.0@, state_of(e.1)))
    }

    /// Whether the terminal can draw pictures.
    pub closed spec fn can_draw(&self) -> bool {
        self.enabled
    }

    /// No picture has two entries.
    pub closed spec fn wf(&self) -> bool {
        distinct(self.entries())
    }

    /// No pictures: the terminal cannot draw them.
    pub fn off() -> (r: Self)
        ensures
            !r.can_draw(),
            r.entries().len() == 0,
            r.wf(),
    {
        let r = Thumbs { enabled: false, slots: Vec::new() };
        assert(r.entries() =~= Seq::<(Seq<char>, ThumbState)>::empty());
        r
    }

    /// Pictures, on a terminal that can draw them.
    pub fn on() -> (r: Self)
        ensures
            r.can_draw(),
            r.entries().len() == 0,
            r.wf(),
    {
        let r = Thumbs { enabled: true, slots: Vec::new() };
        assert(r.entries() =~= Seq::<(Seq<char>, ThumbState)>::empty());
        r
    }

    /// Whether the terminal can draw pictures.
    pub fn enabled(&self) -> (r: bool)
        ensures
            r == self.can_draw(),
    {
        self.enabled
    }

    /// Where the entry of `id` stands, if there is one.
    fn find(&self, id: &str) -> (r: Option<usize>)
        ensures
            match r {
                Some(i) => i < self.entries().len() && self.entries()[i as int].0 == id@,
                None => !has_id(self.entries(), id@),
            },
    {
        let mut i: usize = 0;
        while i < self.slots.len()
            invariant
                i <= self.slots@.len(),
                forall|j: int| 0 <= j < i ==> #[trigger] self.entries()[j].0 != id@,
            decreases self.slots.len() - i,
        {
            if same_str(self.slots[i].0.as_str(), id) {
                return Some(i);
            }
            i += 1;
        }
        None
    }

    /// The picture of `id`, if the screen knows it.
    pub fn get(&self, id: &str) -> (r: Option<&Thumb<R>>)
        ensures
            match r {
                Some(t) => exists|i: int|
                    0 <= i < self.entries().len() && self.entries()[i].0 == id@ && #[trigger] state_of(*t)
                        == self.entries()[i].1,
                None => !has_id(self.entries(), id@),
            },
    {
        match self.find(id) {
            Some(i) => Some(&self.slots[i].1),
            None => None,
        }
    }

    /// Whether some picture is still on its way.
    pub fn loading(&self) -> (r: bool)
        ensures
            r == exists|i: int| 0 <= i < self.entries().len() && #[trigger] self.entries()[i].1 == ThumbState::Loading,
    {
        let mut i: usize = 0;
        while i < self.slots.len()
            invariant
                i <= self.slots@.len(),
                forall|j: int| 0 <= j < i ==> #[trigger] self.entries()[j].1 != ThumbState::Loading,
            decreases self.slots.len() - i,
        {
            match self.slots[i].1 {
                Thumb::Loading => {
                    assert(self.entries()[i as int].1 == ThumbState::Loading);
                    return true;
                },
                _ => {},
            }
            i += 1;
        }
        false
    }

    /// The pictures among `files` not asked for yet, as (id, address), each marked loading so
    /// it is fetched once; nothing when the terminal cannot draw pictures.
    pub fn wanted(&mut self, files: &[FileRef]) -> (r: Vec<(String, String)>)
        requires
            old(self).wf(),
        ensures
            final(self).wf(),
            final(self).can_draw() == old(self).can_draw(),
            old(self).can_draw() ==> ({
                let (entries, out) = asked(old(self).entries(), files@.map_values(|f: FileRef| file_view(f)));
                &&& final(self).entries() == entries
                &&& r@.map_values(|p: (String, String)| (p.0@, p.1@)) == out
            }),
            !old(self).can_draw() ==> r@.len() == 0 && final(self).entries() == old(self).entries(),
    {
        let mut out: Vec<(String, String)> = Vec::new();
        if !self.enabled {
            return out;
        }
        let ghost fs = files@.map_values(|f: FileRef| file_view(f));
        let ghost start = self.entries();
        let mut k: usize = 0;
        assert(fs.take(0) =~= Seq::<(Seq<char>, Option<Seq<char>>)>::empty());
        assert(out@.map_values(|p: (String, String)| (p.0@, p.1@)) =~= Seq::<(Seq<char>, Seq<char>)>::empty());
        while k < files.len()
            invariant
                k <= files@.len(),
                self.enabled,
                self.wf(),
                fs == files@.map_values(|f: FileRef| file_view(f)),
                self.entries() == asked(start, fs.take(k as int)).0,
                out@.map_values(|p: (String, String)| (p.0@, p.1@)) == asked(start, fs.take(k as int)).1,
            decreases files.len() - k,
        {
            proof {
                assert(fs.take(k + 1).drop_last() =~= fs.take(k as int));
                assert(fs.take(k + 1).last() == fs[k as int]);
            }
            let f = &files[k];
            match &f.thumb_url {
                Some(url) => {
                    if self.find(f.id.as_str()).is_none() {
                        let ghost before = self.entries();
                        let ghost out_before = out@;
                        self.slots.push((copy_string(&f.id), Thumb::Loading));
                        out.push((copy_string(&f.id), copy_string(url)));
                        proof {
                            assert(self.entries() =~= before.push((f.id@, ThumbState::Loading)));
                            assert(out@.map_values(|p: (String, String)| (p.0@, p.1@)) =~= out_before.map_values(
                                |p: (String, String)| (p.0@, p.1@),
                            ).push((f.id@, url@)));
                        }
                    }
                },
                None => {},
            }
            k += 1;
        }
        assert(fs.take(files@.len() as int) =~= fs);
        out
    }

    /// The picture `id` arrived: ready to draw when it came with what drawing needs and the
    /// terminal can draw pictures, failed otherwise.
    pub fn arrived(&mut self, id: &str, picture: Option<R>)
        requires
            old(self).wf(),
        ensures
            final(self).wf(),
            final(self).can_draw() == old(self).can_draw(),
            final(self).entries() == settled(
                old(self).entries(),
                id@,
                if picture is Some && old(self).can_draw() {
                    ThumbState::Ready
                } else {
                    ThumbState::Failed
                },
            ),
    {
        let thumb = match picture {
            Some(p) => if self.enabled {
                Thumb::Ready(p)
            } else {
                Thumb::Failed
            },
            None => Thumb::Failed,
        };
        let ghost state = state_of(thumb);
        let ghost before = self.entries();
        match self.find(id) {
            Some(i) => {
                let (key, _) = self.slots.remove(i);
                self.slots.insert(i, (key, thumb));
                proof {
                    assert forall|j: int| 0 <= j < before.len() implies #[trigger] self.entries()[j] == (if before[j].0
                        == id@ {
                        (before[j].0, state)
                    } else {
                        before[j]
                    }) by {
                        if j != i {
                            assert(before[j].0 != id@);
                        }
                    }
                    assert(self.entries() =~= settled(before, id@, state));
                }
            },
            None => {
                self.slots.push((id.to_owned(), thumb));
                proof {
                    assert(self.entries() =~= before.push((id@, state)));
                }
            },
        }
    }

    /// Forgets the pictures whose ids are not among `ids`, so memory follows what is on
    /// screen.
    pub fn keep_only(&mut self, ids: &[String])
        requires
            old(self).wf(),
        ensures
            final(self).wf(),
            final(self).can_draw() == old(self).can_draw(),
            final(self).entries() == kept(old(self).entries(), ids@.map_values(|s: String| s@)),
    {
        let ghost want = ids@.map_values(|s: String| s@);
        let ghost before = self.entries();
        let ghost was = self.enabled;
        let mut rest: Vec<(String, Thumb<R>)> = Vec::new();
        std::mem::swap(&mut rest, &mut self.slots);
        let ghost all = rest@;
        assert(all.map_values(|e: (String, Thumb<R>)| (e.0@, state_of(e.1))) == before);
        let mut k: usize = 0;
        let n = rest.len();
        while rest.len() > 0
            invariant
                k + rest@.len() == n,
                n == before.len(),
                rest@ == all.skip(k as int),
                before == all.map_values(|e: (String, Thumb<R>)| (e.0@, state_of(e.1))),
                want == ids@.map_values(|s: String| s@),
                self.entries() == kept(before.take(k as int), want),
                self.enabled == was,
            decreases rest.len(),
        {
            let e = rest.remove(0);
            proof {
                assert(e == all[k as int]);
                assert(before.take(k + 1).drop_last() =~= before.take(k as int));
                assert(before.take(k + 1).last() == before[k as int]);
                assert(rest@ =~= all.skip(k + 1));
            }
            let mut keep = false;
            let mut j: usize = 0;
            while j < ids.len()
                invariant
                    j <= ids@.len(),
                    want == ids@.map_values(|s: String| s@),
                    keep == want.take(j as int).contains(e.0@),
                decreases ids.len() - j,
            {
                let hit = same_str(ids[j].as_str(), e.0.as_str());
                proof {
                    let t = want.take(j as int);
                    let t1 = want.take(j + 1);
                    assert(t1 =~= t.push(want[j as int]));
                    assert(want[j as int] == ids@[j as int]@);
                    if t.contains(e.0@) {
                        let w = choose|w: int| 0 <= w < t.len() && t[w] == e.0@;
                        assert(t1[w] == t[w]);
                    }
                    if hit {
                        assert(t1[j as int] == e.0@);
                    }
                    if t1.contains(e.0@) {
                        let w = choose|w: int| 0 <= w < t1.len() && t1[w] == e.0@;
                        if w < j {
                            assert(t[w] == t1[w]);
                        }
                    }
                }
                if hit {
                    keep = true;
                }
                j += 1;
            }
            assert(want.take(ids@.len() as int) =~= want);
            if keep {
                let ghost kept_before = self.entries();
                self.slots.push(e);
                assert(self.entries() =~= kept_before.push(before[k as int]));
            }
            k += 1;
        }
        assert(before.take(n as int) =~= before);
        proof {
            lemma_kept_distinct(before, want);
        }
    }
}

/// Keeping some entries keeps them distinct, and keeps only what was there.
proof fn lemma_kept_distinct(s: Seq<(Seq<char>, ThumbState)>, ids: Seq<Seq<char>>)
    requires
        distinct(s),
    ensures
        distinct(kept(s, ids)),
        forall|i: int| 0 <= i < kept(s, ids).len() ==> has_id(s, #[trigger] kept(s, ids)[i].0),
    decreases s.len(),
{
    if s.len() > 0 {
        let d = s.drop_last();
        assert(distinct(d)) by {
            assert forall|i: int, j: int| 0 <= i < j < d.len() implies #[trigger] d[i].0 != #[trigger] d[j].0 by {
                assert(d[i] == s[i] && d[j] == s[j]);
            }
        }
        lemma_kept_distinct(d, ids);
        let k = kept(d, ids);
        assert forall|i: int| 0 <= i < k.len() implies has_id(s, #[trigger] k[i].0) by {
            let w = choose|w: int| 0 <= w < d.len() && #[trigger] d[w].0 == k[i].0;
            assert(s[w] == d[w]);
        }
        if ids.contains(s.last().0) {
            let p = k.push(s.last());
            assert forall|i: int, j: int| 0 <= i < j < p.len() implies #[trigger] p[i].0 != #[trigger] p[j].0 by {
                if j == k.len() {
                    let w = choose|w: int| 0 <= w < d.len() && #[trigger] d[w].0 == k[i].0;
                    assert(s[w] == d[w]);
                    assert(s[w].0 != s[s.len() - 1].0);
                } else {
                    assert(p[i] == k[i] && p[j] == k[j]);
                }
            }
            assert forall|i: int| 0 <= i < p.len() implies has_id(s, #[trigger] p[i].0) by {
                if i == k.len() {
                    assert(s[s.len() - 1].0 == p[i].0);
                } else {
                    assert(p[i] == k[i]);
                }
            }
        }
    }
}

/// Once files are gone through, every picture among them has an entry.
proof fn lemma_asked_covers(s: Seq<(Seq<char>, ThumbState)>, files: Seq<(Seq<char>, Option<Seq<char>>)>, i: int)
    requires
        0 <= i < files.len(),
        files[i].1 is Some,
    ensures
        has_id(asked(s, files).0, files[i].0),
    decreases files.len(),
{
    let d = files.drop_last();
    let known = asked(s, d).0;
    if i < files.len() - 1 {
        lemma_asked_covers(s, d, i);
        assert(d[i] == files[i]);
        if files.last().1 is Some && !has_id(known, files.last().0) {
            let w = choose|w: int| 0 <= w < known.len() && #[trigger] known[w].0 == files[i].0;
            assert(known.push((files.last().0, ThumbState::Loading))[w] == known[w]);
        }
    } else {
        if !has_id(known, files.last().0) {
            let p = known.push((files.last().0, ThumbState::Loading));
            assert(p[known.len() as int].0 == files[i].0);
        }
    }
}

/// Files whose pictures all have entries ask for nothing and change nothing.
proof fn lemma_asked_known(s: Seq<(Seq<char>, ThumbState)>, files: Seq<(Seq<char>, Option<Seq<char>>)>)
    requires
        forall|i: int| 0 <= i < files.len() && (#[trigger] files[i]).1 is Some ==> has_id(s, files[i].0),
    ensures
        asked(s, files) == (s, Seq::<(Seq<char>, Seq<char>)>::empty()),
    decreases files.len(),
{
    if files.len() > 0 {
        let d = files.drop_last();
        assert forall|i: int| 0 <= i < d.len() && (#[trigger] d[i]).1 is Some implies has_id(s, d[i].0) by {
            assert(d[i] == files[i]);
        }
        lemma_asked_known(s, d);
        assert(files.last() == files[files.len() - 1]);
    }
}

/// Each picture is asked for once: going through the same files again asks for nothing and
/// changes nothing.
pub proof fn law_each_picture_is_asked_for_once(
    s: Seq<(Seq<char>, ThumbState)>,
    files: Seq<(Seq<char>, Option<Seq<char>>)>,
)
    ensures
        asked(asked(s, files).0, files) == (asked(s, files).0, Seq::<(Seq<char>, Seq<char>)>::empty()),
{
    let known = asked(s, files).0;
    assert forall|i: int| 0 <= i < files.len() && (#[trigger] files[i]).1 is Some implies has_id(known, files[i].0) by {
        lemma_asked_covers(s, files, i);
    }
    lemma_asked_known(known, files);
}

} // verus!
