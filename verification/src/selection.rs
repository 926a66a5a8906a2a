//! The set of files selected in the explorer, and how clicks change it:
//! plain clicks select one file, Ctrl/Cmd-clicks toggle one, and
//! Shift-clicks add the range from the last clicked file.

use vstd::prelude::*;
use crate::file_tree::views;
use crate::paths::{is_seismic_file, spec_is_seismic_file, opt_chars};
use crate::text::str_eq;

verus! {

/// The position of the first occurrence of `x` in `s` at or after `i`, or
/// -1 when it does not occur there.
pub open spec fn first_index_from(s: Seq<Seq<char>>, x: Seq<char>, i: int) -> int
    decreases s.len() - i,
{
    if i < 0 || i >= s.len() {
        -1
    } else if s[i] == x {
        i
    } else {
        first_index_from(s, x, i + 1)
    }
}

/// The position of the first occurrence of `x` in `s`, or -1.
pub open spec fn first_index(s: Seq<Seq<char>>, x: Seq<char>) -> int {
    first_index_from(s, x, 0)
}

/// The entries of `s` from position `lo` to `hi`, both included.
pub open spec fn range_set(s: Seq<Seq<char>>, lo: int, hi: int) -> Set<Seq<char>> {
    Set::new(|x: Seq<char>| exists|k: int| lo <= k <= hi && 0 <= k < s.len() && #[trigger] s[k] == x)
}

/// The files a Shift-click range between `anchor` and `target` covers
/// among `all`: nothing when either is not listed.
pub open spec fn click_range(all: Seq<Seq<char>>, anchor: Seq<char>, target: Seq<char>) -> Set<Seq<char>> {
    let a = first_index(all, anchor);
    let t = first_index(all, target);
    if a >= 0 && t >= 0 {
        if a <= t { range_set(all, a, t) } else { range_set(all, t, a) }
    } else {
        Set::empty()
    }
}

/// A set of selected file paths, kept as a list without repeats.
pub struct Selection {
    items: Vec<String>,
}

impl Selection {
    /// The selected files, in the order they were selected.
    pub closed spec fn seq(&self) -> Seq<Seq<char>> {
        views(self.items@)
    }

    /// The selected files.
    pub open spec fn set(&self) -> Set<Seq<char>> {
        Set::new(|x: Seq<char>| self.seq().contains(x))
    }

    /// No file is listed twice.
    pub open spec fn wf(&self) -> bool {
        forall|i: int, j: int| 0 <= i < self.seq().len() && 0 <= j < self.seq().len() && i != j
            ==> #[trigger] self.seq()[i] != #[trigger] self.seq()[j]
    }

    /// An empty selection.
    pub fn new() -> (r: Self)
        ensures
            r.wf(),
            r.set() == Set::<Seq<char>>::empty(),
            r.seq().len() == 0,
    {
        let r = Selection { items: Vec::new() };
        assert(r.set() =~= Set::<Seq<char>>::empty());
        r
    }

    fn position(&self, path: &str) -> (r: Option<usize>)
        ensures
            match r {
                Some(i) => i < self.seq().len() && self.seq()[i as int] == path@,
                None => !self.seq().contains(path@),
            },
    {
        let mut i: usize = 0;
        while i < self.items.len()
            invariant
                i <= self.items@.len(),
                forall|j: int| 0 <= j < i ==> #[trigger] self.items@[j]@ != path@,
            decreases self.items.len() - i,
        {
            if str_eq(self.items[i].as_str(), path) {
                return Some(i);
            }
            i = i + 1;
        }
        proof {
            if self.seq().contains(path@) {
                let k = choose|k: int| 0 <= k < self.seq().len() && self.seq()[k] == path@;
                assert(self.items@[k]@ == path@);
            }
        }
        None
    }

    /// Whether `path` is selected.
    pub fn contains(&self, path: &str) -> (r: bool)
        ensures
            r == self.set().contains(path@),
    {
        self.position(path).is_some()
    }

    /// Number of selected files.
    pub fn len(&self) -> (r: usize)
        requires
            self.wf(),
        ensures
            r == self.seq().len(),
    {
        self.items.len()
    }

    /// Whether nothing is selected.
    pub fn is_empty(&self) -> (r: bool)
        ensures
            r == (self.set() == Set::<Seq<char>>::empty()),
    {
        if self.items.len() == 0 {
            assert(self.set() =~= Set::<Seq<char>>::empty());
            true
        } else {
            assert(self.set().contains(self.seq()[0]));
            false
        }
    }

    /// The selected files, in the order they were selected.
    pub fn files(&self) -> (r: Vec<String>)
        ensures
            views(r@) == self.seq(),
    {
        let mut r: Vec<String> = Vec::new();
        let mut i: usize = 0;
        while i < self.items.len()
            invariant
                i <= self.items@.len(),
                views(r@) == self.seq().take(i as int),
            decreases self.items.len() - i,
        {
            let ghost prev = r@;
            let item = self.items[i].clone();
            r.push(item);
            assert(views(r@) =~= views(prev).push(self.seq()[i as int]));
            i = i + 1;
            assert(views(r@) =~= self.seq().take(i as int));
        }
        assert(self.seq().take(self.items@.len() as int) == self.seq());
        r
    }

    /// Add `path` to the selection.
    pub fn insert(&mut self, path: String)
        requires
            old(self).wf(),
        ensures
            final(self).wf(),
            final(self).set() == old(self).set().insert(path@),
    {
        if !self.contains(path.as_str()) {
            let ghost p = path@;
            self.items.push(path);
            assert(self.seq() =~= old(self).seq().push(p));
            assert forall|x: Seq<char>| self.set().contains(x) == old(self).set().insert(p).contains(x) by {
                let s = old(self).seq();
                if self.seq().contains(x) {
                    let k = choose|k: int| 0 <= k < self.seq().len() && self.seq()[k] == x;
                    if k < s.len() {
                        assert(s[k] == x);
                    }
                }
                if s.contains(x) {
                    let k = choose|k: int| 0 <= k < s.len() && s[k] == x;
                    assert(self.seq()[k] == x);
                }
                if x == p {
                    assert(self.seq()[s.len() as int] == x);
                }
            }
            assert(self.set() =~= old(self).set().insert(p));
        } else {
            assert(self.set() =~= old(self).set().insert(path@));
        }
    }

    /// Remove `path` from the selection.
    pub fn remove(&mut self, path: &str)
        requires
            old(self).wf(),
        ensures
            final(self).wf(),
            final(self).set() == old(self).set().remove(path@),
    {
        match self.position(path) {
            Some(i) => {
                self.items.remove(i);
                let ghost s = old(self).seq();
                assert(self.seq() =~= s.remove(i as int));
                assert forall|x: Seq<char>| self.set().contains(x) == old(self).set().remove(path@).contains(x) by {
                    if self.seq().contains(x) {
                        let k = choose|k: int| 0 <= k < self.seq().len() && self.seq()[k] == x;
                        let k2 = if k < i { k } else { k + 1 };
                        assert(s[k2] == x);
                        assert(k2 != i);
                        assert(s.contains(x));
                    }
                    if old(self).set().remove(path@).contains(x) {
                        let k = choose|k: int| 0 <= k < s.len() && s[k] == x;
                        assert(k != i);
                        let k2 = if k < i { k } else { k - 1 };
                        assert(self.seq()[k2] == x);
                    }
                }
                assert(self.set() =~= old(self).set().remove(path@));
            },
            None => {
                assert(self.set() =~= old(self).set().remove(path@));
            },
        }
    }

    /// Deselect everything.
    pub fn clear(&mut self)
        ensures
            final(self).wf(),
            final(self).set() == Set::<Seq<char>>::empty(),
    {
        self.items.clear();
        assert(self.set() =~= Set::<Seq<char>>::empty());
    }

    /// Select all files in the range between `anchor` and `target`
    /// (inclusive), as listed in `all_files`.
    pub fn select_range(&mut self, all_files: &Vec<String>, anchor: &str, target: &str)
        requires
            old(self).wf(),
        ensures
            final(self).wf(),
            final(self).set() == old(self).set().union(click_range(views(all_files@), anchor@, target@)),
    {
        let a = index_in(all_files, anchor);
        let t = index_in(all_files, target);
        let ghost all = views(all_files@);
        match (a, t) {
            (Some(a), Some(t)) => {
                let (lo, hi) = if a <= t { (a, t) } else { (t, a) };
                let n = all_files.len();
                let mut k: usize = lo;
                while k <= hi
                    invariant
                        self.wf(),
                        lo <= k <= hi + 1,
                        hi < n,
                        n == all_files@.len(),
                        all == views(all_files@),
                        self.set() == old(self).set().union(range_set(all, lo as int, k - 1)),
                    decreases hi + 1 - k,
                {
                    let ghost before = self.set();
                    self.insert(all_files[k].clone());
                    assert(self.set() =~= old(self).set().union(range_set(all, lo as int, k as int))) by {
                        assert(all[k as int] == all_files@[k as int]@);
                    }
                    k = k + 1;
                }
                assert(range_set(all, lo as int, hi as int) =~= click_range(all, anchor@, target@));
            },
            _ => {
                assert(click_range(all, anchor@, target@) =~= Set::<Seq<char>>::empty());
                assert(self.set() =~= old(self).set().union(Set::<Seq<char>>::empty()));
            },
        }
    }
}

/// A left click on `path` in the explorer. Only seismic files react:
/// Shift extends the selection with the range from the last clicked file
/// (or selects the file when none was clicked yet), Ctrl/Cmd toggles the
/// file, and a plain click selects it alone. Every click but a Shift range
/// makes the file the last clicked one.
pub fn click_file(
    sel: &mut Selection,
    last_clicked: &mut Option<String>,
    all_files: &Vec<String>,
    path: &str,
    shift: bool,
    command: bool,
)
    requires
        old(sel).wf(),
    ensures
        final(sel).wf(),
        !spec_is_seismic_file(path@) ==> final(sel).set() == old(sel).set()
            && opt_chars(*final(last_clicked)) == opt_chars(*old(last_clicked)),
        spec_is_seismic_file(path@) && shift && old(last_clicked).is_some() ==>
            final(sel).set() == old(sel).set().union(click_range(views(all_files@), old(last_clicked).unwrap()@, path@))
            && opt_chars(*final(last_clicked)) == opt_chars(*old(last_clicked)),
        spec_is_seismic_file(path@) && shift && old(last_clicked).is_none() ==>
            final(sel).set() == old(sel).set().insert(path@)
            && opt_chars(*final(last_clicked)) == Some(path@),
        spec_is_seismic_file(path@) && !shift && command ==>
            final(sel).set() == (if old(sel).set().contains(path@) { old(sel).set().remove(path@) } else { old(sel).set().insert(path@) })
            && opt_chars(*final(last_clicked)) == Some(path@),
        spec_is_seismic_file(path@) && !shift && !command ==>
            final(sel).set() == Set::<Seq<char>>::empty().insert(path@)
            && opt_chars(*final(last_clicked)) == Some(path@),
{
    if !is_seismic_file(path) {
        return;
    }
    if shift {
        match last_clicked {
            Some(anchor) => {
                sel.select_range(all_files, anchor.as_str(), path);
            },
            None => {
                sel.insert(path.to_owned());
                *last_clicked = Some(path.to_owned());
            },
        }
    } else if command {
        if sel.contains(path) {
            sel.remove(path);
        } else {
            sel.insert(path.to_owned());
        }
        *last_clicked = Some(path.to_owned());
    } else {
        sel.clear();
        sel.insert(path.to_owned());
        *last_clicked = Some(path.to_owned());
    }
}

/// Opening the context menu on `path`: an unselected seismic file becomes
/// the only selected file and the last clicked one.
pub fn context_select(sel: &mut Selection, last_clicked: &mut Option<String>, path: &str)
    requires
        old(sel).wf(),
    ensures
        final(sel).wf(),
        spec_is_seismic_file(path@) && !old(sel).set().contains(path@) ==>
            final(sel).set() == Set::<Seq<char>>::empty().insert(path@)
            && opt_chars(*final(last_clicked)) == Some(path@),
        !(spec_is_seismic_file(path@) && !old(sel).set().contains(path@)) ==>
            final(sel).set() == old(sel).set()
            && opt_chars(*final(last_clicked)) == opt_chars(*old(last_clicked)),
{
    if is_seismic_file(path) && !sel.contains(path) {
        sel.clear();
        sel.insert(path.to_owned());
        *last_clicked = Some(path.to_owned());
    }
}

/// The position of the first entry of `v` equal to `x`.
pub fn index_in(v: &Vec<String>, x: &str) -> (r: Option<usize>)
    ensures
        match r {
            Some(i) => i < v@.len() && i as int == first_index(views(v@), x@),
            None => first_index(views(v@), x@) == -1,
        },
{
    let ghost s = views(v@);
    let mut i: usize = 0;
    while i < v.len()
        invariant
            s == views(v@),
            i <= v@.len(),
            first_index(s, x@) == first_index_from(s, x@, i as int),
        decreases v.len() - i,
    {
        if str_eq(v[i].as_str(), x) {
            return Some(i);
        }
        i = i + 1;
    }
    None
}

proof fn lemma_first_index_found(s: Seq<Seq<char>>, x: Seq<char>, i: int)
    requires
        0 <= i,
    ensures
        first_index_from(s, x, i) == -1 || (i <= first_index_from(s, x, i) < s.len() && s[first_index_from(s, x, i)] == x),
    decreases s.len() - i,
{
    if i < s.len() && s[i] != x {
        lemma_first_index_found(s, x, i + 1);
    }
}

/// A Shift-click range does not depend on which end was clicked first, and
/// when both ends are listed it covers both of them.
pub proof fn law_click_range_symmetric(all: Seq<Seq<char>>, anchor: Seq<char>, target: Seq<char>)
    ensures
        click_range(all, anchor, target) == click_range(all, target, anchor),
        first_index(all, anchor) >= 0 && first_index(all, target) >= 0 ==>
            click_range(all, anchor, target).contains(anchor) && click_range(all, anchor, target).contains(target),
{
    let a = first_index(all, anchor);
    let t = first_index(all, target);
    lemma_first_index_found(all, anchor, 0);
    lemma_first_index_found(all, target, 0);
    if a >= 0 && t >= 0 {
        assert(all[a] == anchor);
        assert(all[t] == target);
        if a == t {
            assert(range_set(all, a, t) =~= range_set(all, t, a));
        }
    }
    assert(click_range(all, anchor, target) =~= click_range(all, target, anchor));
}

} // verus!
