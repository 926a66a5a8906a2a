//! Stepping through loaded traces: show the next or previous trace, or the
//! next or previous station's group of traces.

use vstd::prelude::*;
use crate::file_tree::views;

verus! {

/// Whether navigation moves one trace or one station at a time.
#[derive(PartialEq, Eq, Clone, Copy, Debug, Structural)]
pub enum NavigationMode {
    Single,
    Station,
}

/// The last position below `n` whose flag is set, or -1.
pub open spec fn last_set(v: Seq<bool>, n: int) -> int
    decreases n,
{
    if n <= 0 {
        -1
    } else if v[n - 1] {
        n - 1
    } else {
        last_set(v, n - 1)
    }
}

/// The first position at or after `i` whose flag is set, or -1.
pub open spec fn first_set_from(v: Seq<bool>, i: int) -> int
    decreases v.len() - i,
{
    if i < 0 || i >= v.len() {
        -1
    } else if v[i] {
        i
    } else {
        first_set_from(v, i + 1)
    }
}

/// The first trace at or after `i` whose station differs from that of
/// trace `from`, or `from` when there is none.
pub open spec fn next_other_station(st: Seq<Seq<char>>, from: int, i: int) -> int
    decreases st.len() - i,
{
    if i < 0 || i >= st.len() {
        from
    } else if st[i] != st[from] {
        i
    } else {
        next_other_station(st, from, i + 1)
    }
}

/// The last trace at or before `i` whose station differs from that of
/// trace `from`, or `from` when there is none.
pub open spec fn prev_other_station(st: Seq<Seq<char>>, from: int, i: int) -> int
    decreases i + 1,
{
    if i < 0 {
        from
    } else if st[i] != st[from] {
        i
    } else {
        prev_other_station(st, from, i - 1)
    }
}

/// The trace navigation moves to, given which traces are visible.
pub open spec fn nav_target(vis: Seq<bool>, st: Seq<Seq<char>>, mode: NavigationMode, forward: bool) -> int {
    let n = vis.len() as int;
    let last = last_set(vis, n);
    let first = first_set_from(vis, 0);
    if last < 0 {
        if forward { 0 } else { n - 1 }
    } else if forward {
        if mode == NavigationMode::Single {
            if last + 1 < n - 1 { last + 1 } else { n - 1 }
        } else {
            next_other_station(st, last, last + 1)
        }
    } else {
        if mode == NavigationMode::Single {
            if first > 0 { first - 1 } else { 0 }
        } else {
            prev_other_station(st, first, first - 1)
        }
    }
}

proof fn lemma_last_set(v: Seq<bool>, n: int)
    requires
        0 <= n <= v.len(),
    ensures
        -1 <= last_set(v, n) < n,
        last_set(v, n) >= 0 ==> v[last_set(v, n)],
        forall|j: int| last_set(v, n) < j < n ==> !#[trigger] v[j],
    decreases n,
{
    if n > 0 {
        lemma_last_set(v, n - 1);
    }
}

proof fn lemma_first_set(v: Seq<bool>, i: int)
    requires
        0 <= i <= v.len(),
    ensures
        first_set_from(v, i) == -1 || (i <= first_set_from(v, i) < v.len() && v[first_set_from(v, i)]),
        first_set_from(v, i) == -1 ==> forall|j: int| i <= j < v.len() ==> !#[trigger] v[j],
        forall|j: int| i <= j < first_set_from(v, i) ==> !#[trigger] v[j],
    decreases v.len() - i,
{
    if i < v.len() {
        lemma_first_set(v, i + 1);
    }
}

proof fn lemma_next_other(st: Seq<Seq<char>>, from: int, i: int)
    requires
        0 <= from < st.len(),
        0 <= i,
    ensures
        0 <= next_other_station(st, from, i) < st.len(),
    decreases st.len() - i,
{
    if i < st.len() && st[i] == st[from] {
        lemma_next_other(st, from, i + 1);
    }
}

proof fn lemma_prev_other(st: Seq<Seq<char>>, from: int, i: int)
    requires
        0 <= from < st.len(),
        i < st.len(),
    ensures
        0 <= prev_other_station(st, from, i) < st.len(),
    decreases i + 1,
{
    if i >= 0 && st[i] == st[from] {
        lemma_prev_other(st, from, i - 1);
    }
}

/// The navigation target lies among the traces.
pub proof fn lemma_nav_target_in_range(vis: Seq<bool>, st: Seq<Seq<char>>, mode: NavigationMode, forward: bool)
    requires
        vis.len() == st.len(),
        vis.len() > 0,
    ensures
        0 <= nav_target(vis, st, mode, forward) < vis.len(),
{
    let n = vis.len() as int;
    lemma_last_set(vis, n);
    lemma_first_set(vis, 0);
    let last = last_set(vis, n);
    let first = first_set_from(vis, 0);
    if last >= 0 {
        assert(first >= 0) by {
            if first == -1 {
                assert(!vis[last]);
            }
        }
        lemma_next_other(st, last, last + 1);
        lemma_prev_other(st, first, first - 1);
    }
}

/// Which traces are visible after navigating: in single mode only the
/// target, in station mode every trace of the target's station; nothing
/// changes when there are no traces.
pub open spec fn nav_result(vis: Seq<bool>, st: Seq<Seq<char>>, mode: NavigationMode, forward: bool) -> Seq<bool> {
    if vis.len() == 0 {
        vis
    } else {
        let t = nav_target(vis, st, mode, forward);
        Seq::new(vis.len(), |i: int| if mode == NavigationMode::Single { i == t } else { st[i] == st[t] })
    }
}

/// Navigate to the previous or next trace(s): in single mode only the
/// target trace stays visible, in station mode every trace of the target's
/// station does.
pub fn navigate_traces(visible: &mut Vec<bool>, stations: &Vec<String>, mode: NavigationMode, forward: bool)
    requires
        old(visible)@.len() == stations@.len(),
    ensures
        final(visible)@ == nav_result(old(visible)@, views(stations@), mode, forward),
{
    let n = visible.len();
    if n == 0 {
        return;
    }
    let ghost vis = visible@;
    let ghost st = views(stations@);
    proof {
        lemma_last_set(vis, n as int);
        lemma_first_set(vis, 0);
        lemma_nav_target_in_range(vis, st, mode, forward);
    }
    // position of the last and first visible traces
    let mut last: usize = n;
    let mut k: usize = n;
    while k > 0
        invariant
            k <= n,
            last <= n,
            n == vis.len(),
            visible@ == vis,
            last == n ==> last_set(vis, n as int) == last_set(vis, k as int),
            last < n ==> last as int == last_set(vis, n as int),
        decreases k,
    {
        if last == n && visible[k - 1] {
            last = k - 1;
        }
        k = k - 1;
    }
    let mut first: usize = n;
    let mut j: usize = 0;
    while j < n
        invariant
            j <= n,
            first <= n,
            n == vis.len(),
            visible@ == vis,
            first == n ==> first_set_from(vis, 0) == first_set_from(vis, j as int),
            first < n ==> first as int == first_set_from(vis, 0),
        decreases n - j,
    {
        if first == n && visible[j] {
            first = j;
        }
        j = j + 1;
    }
    assert(last == n ==> last_set(vis, n as int) == -1);
    assert(first == n ==> first_set_from(vis, 0) == -1);
    let target: usize = if last == n {
        if forward { 0 } else { n - 1 }
    } else if forward {
        if mode == NavigationMode::Single {
            if last + 1 < n - 1 { last + 1 } else { n - 1 }
        } else {
            let mut next_idx = last;
            let mut i = last + 1;
            let mut found = false;
            while i < n && !found
                invariant
                    last < i <= n,
                    last < n,
                    n == st.len(),
                    st == views(stations@),
                    found ==> next_idx as int == next_other_station(st, last as int, last + 1),
                    !found ==> next_idx == last
                        && next_other_station(st, last as int, last + 1) == next_other_station(st, last as int, i as int),
                decreases n - i + (if found { 0int } else { 1int }),
            {
                if stations[i] != stations[last] {
                    next_idx = i;
                    found = true;
                } else {
                    i = i + 1;
                }
            }
            next_idx
        }
    } else {
        if mode == NavigationMode::Single {
            if first > 0 { first - 1 } else { 0 }
        } else {
            let mut target = first;
            let mut i = first;
            let mut found = false;
            while i > 0 && !found
                invariant
                    i <= first,
                    first < n,
                    n == st.len(),
                    st == views(stations@),
                    found ==> target as int == prev_other_station(st, first as int, first - 1),
                    !found ==> target == first
                        && prev_other_station(st, first as int, first - 1) == prev_other_station(st, first as int, i - 1),
                decreases i + (if found { 0int } else { 1int }),
            {
                if stations[i - 1] != stations[first] {
                    target = i - 1;
                    found = true;
                } else {
                    i = i - 1;
                }
            }
            target
        }
    };
    assert(target as int == nav_target(vis, st, mode, forward));
    let mut i: usize = 0;
    while i < n
        invariant
            i <= n,
            n == vis.len(),
            visible@.len() == n,
            target < n,
            target as int == nav_target(vis, st, mode, forward),
            st == views(stations@),
            stations@.len() == n,
            forall|k: int| 0 <= k < i ==> #[trigger] visible@[k] == (
                if mode == NavigationMode::Single { k == target } else { stations@[k]@ == stations@[target as int]@ }),
        decreases n - i,
    {
        let v = if mode == NavigationMode::Single { i == target } else { stations[i] == stations[target] };
        visible.set(i, v);
        i = i + 1;
    }
    assert(visible@ =~= nav_result(vis, st, mode, forward));
}

/// Navigating over a non-empty list of traces always leaves a trace
/// visible, and in single mode exactly one.
pub proof fn law_navigation_shows_a_trace(vis: Seq<bool>, st: Seq<Seq<char>>, mode: NavigationMode, forward: bool)
    requires
        vis.len() == st.len(),
        vis.len() > 0,
    ensures
        exists|i: int| 0 <= i < vis.len() && #[trigger] nav_result(vis, st, mode, forward)[i],
        mode == NavigationMode::Single ==> forall|i: int, j: int|
            0 <= i < vis.len() && 0 <= j < vis.len() && #[trigger] nav_result(vis, st, mode, forward)[i]
                && #[trigger] nav_result(vis, st, mode, forward)[j] ==> i == j,
{
    lemma_nav_target_in_range(vis, st, mode, forward);
    let t = nav_target(vis, st, mode, forward);
    assert(nav_result(vis, st, mode, forward)[t]);
}

/// When exactly trace `i` is visible, the last and first visible traces
/// are `i`.
proof fn lemma_only_visible(vis: Seq<bool>, i: int)
    requires
        0 <= i < vis.len(),
        forall|j: int| 0 <= j < vis.len() ==> #[trigger] vis[j] == (j == i),
    ensures
        last_set(vis, vis.len() as int) == i,
        first_set_from(vis, 0) == i,
{
    lemma_last_set(vis, vis.len() as int);
    lemma_first_set(vis, 0);
    let l = last_set(vis, vis.len() as int);
    let f = first_set_from(vis, 0);
    if l < i {
        assert(!vis[i]);
    }
    if f == -1 || f > i {
        assert(!vis[i]);
    }
}

/// In single mode, a step forward from the only visible trace undoes a step
/// back, and a step back undoes a step forward, away from the ends.
pub proof fn law_single_steps_undo(vis: Seq<bool>, st: Seq<Seq<char>>, i: int)
    requires
        vis.len() == st.len(),
        0 <= i < vis.len(),
        forall|j: int| 0 <= j < vis.len() ==> #[trigger] vis[j] == (j == i),
    ensures
        i + 1 < vis.len() ==> nav_result(nav_result(vis, st, NavigationMode::Single, true), st, NavigationMode::Single, false) == vis,
        i > 0 ==> nav_result(nav_result(vis, st, NavigationMode::Single, false), st, NavigationMode::Single, true) == vis,
{
    let n = vis.len() as int;
    lemma_only_visible(vis, i);
    if i + 1 < n {
        let w = nav_result(vis, st, NavigationMode::Single, true);
        assert(nav_target(vis, st, NavigationMode::Single, true) == i + 1);
        lemma_only_visible(w, i + 1);
        assert(nav_target(w, st, NavigationMode::Single, false) == i);
        assert(nav_result(w, st, NavigationMode::Single, false) =~= vis);
    }
    if i > 0 {
        let w = nav_result(vis, st, NavigationMode::Single, false);
        assert(nav_target(vis, st, NavigationMode::Single, false) == i - 1);
        lemma_only_visible(w, i - 1);
        assert(nav_target(w, st, NavigationMode::Single, true) == i);
        assert(nav_result(w, st, NavigationMode::Single, true) =~= vis);
    }
}

/// In single mode, with only trace `i` visible, a step back shows only the
/// trace before it and a step forward only the trace after it.
pub proof fn law_single_step_moves_one(vis: Seq<bool>, st: Seq<Seq<char>>, i: int)
    requires
        vis.len() == st.len(),
        0 <= i < vis.len(),
        forall|j: int| 0 <= j < vis.len() ==> #[trigger] vis[j] == (j == i),
    ensures
        i > 0 ==> forall|j: int| 0 <= j < vis.len() ==>
            #[trigger] nav_result(vis, st, NavigationMode::Single, false)[j] == (j == i - 1),
        i + 1 < vis.len() ==> forall|j: int| 0 <= j < vis.len() ==>
            #[trigger] nav_result(vis, st, NavigationMode::Single, true)[j] == (j == i + 1),
        nav_result(vis, st, NavigationMode::Single, false).len() == vis.len(),
        nav_result(vis, st, NavigationMode::Single, true).len() == vis.len(),
{
    lemma_only_visible(vis, i);
    if i > 0 {
        assert(nav_target(vis, st, NavigationMode::Single, false) == i - 1);
    }
    if i + 1 < vis.len() {
        assert(nav_target(vis, st, NavigationMode::Single, true) == i + 1);
    }
}

/// How many traces are shown when files are loaded.
pub open spec fn shown_on_load() -> int {
    3
}

/// Which of `n` freshly loaded traces are shown: the first three.
pub fn initial_visibility(n: usize) -> (r: Vec<bool>)
    ensures
        r@.len() == n,
        forall|i: int| 0 <= i < n ==> #[trigger] r@[i] == (i < shown_on_load()),
{
    let mut r: Vec<bool> = Vec::new();
    let mut i: usize = 0;
    while i < n
        invariant
            i <= n,
            r@.len() == i,
            forall|k: int| 0 <= k < i ==> #[trigger] r@[k] == (k < shown_on_load()),
        decreases n - i,
    {
        r.push(i < 3);
        i = i + 1;
    }
    r
}

} // verus!
