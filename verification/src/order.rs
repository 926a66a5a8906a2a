//! Ordering of the explorer tree: names compare character by character (the
//! byte order of their UTF-8 text), and directories with content come
//! before files.

use vstd::prelude::*;

verus! {

/// `a[i..]` sorts before or equal to `b[i..]`, character by character.
pub open spec fn le_from(a: Seq<char>, b: Seq<char>, i: int) -> bool
    decreases a.len() - i,
{
    if i < 0 || i >= a.len() {
        true
    } else if i >= b.len() {
        false
    } else if a[i] < b[i] {
        true
    } else if a[i] == b[i] {
        le_from(a, b, i + 1)
    } else {
        false
    }
}

/// Name `a` sorts before or equal to name `b`.
pub open spec fn name_le(a: Seq<char>, b: Seq<char>) -> bool {
    le_from(a, b, 0)
}

/// From any position on, one of two names sorts before or equal to the
/// other.
pub proof fn lemma_le_from_total(a: Seq<char>, b: Seq<char>, i: int)
    requires
        0 <= i,
    ensures
        le_from(a, b, i) || le_from(b, a, i),
    decreases a.len() - i,
{
    if i < a.len() && i < b.len() {
        if a[i] == b[i] {
            lemma_le_from_total(a, b, i + 1);
        }
    }
}

/// The order from a position on is transitive.
pub proof fn lemma_le_from_trans(a: Seq<char>, b: Seq<char>, c: Seq<char>, i: int)
    requires
        0 <= i,
        le_from(a, b, i),
        le_from(b, c, i),
    ensures
        le_from(a, c, i),
    decreases a.len() - i,
{
    if i < a.len() && i < b.len() && i < c.len() && a[i] == b[i] && b[i] == c[i] {
        lemma_le_from_trans(a, b, c, i + 1);
    }
}

/// Every name sorts before or equal to itself.
pub proof fn lemma_name_le_refl(a: Seq<char>)
    ensures
        name_le(a, a),
{
    lemma_name_le_total(a, a);
}

/// Names order totally: any two compare one way or the other.
pub proof fn lemma_name_le_total(a: Seq<char>, b: Seq<char>)
    ensures
        name_le(a, b) || name_le(b, a),
{
    lemma_le_from_total(a, b, 0);
}

/// The name order is transitive.
pub proof fn lemma_name_le_trans(a: Seq<char>, b: Seq<char>, c: Seq<char>)
    requires
        name_le(a, b),
        name_le(b, c),
    ensures
        name_le(a, c),
{
    lemma_le_from_trans(a, b, c, 0);
}

/// Two names equal before position `i` that sort before or equal to each
/// other from `i` on are the same name.
pub proof fn lemma_le_from_antisym(a: Seq<char>, b: Seq<char>, i: int)
    requires
        0 <= i <= a.len(),
        i <= b.len(),
        a.subrange(0, i) == b.subrange(0, i),
        le_from(a, b, i),
        le_from(b, a, i),
    ensures
        a == b,
    decreases a.len() - i,
{
    if i == a.len() || i == b.len() {
        assert(a.len() == b.len());
        assert(a =~= a.subrange(0, i));
        assert(b =~= b.subrange(0, i));
    } else {
        assert(a[i] == b[i]);
        assert(a.subrange(0, i + 1) =~= a.subrange(0, i).push(a[i]));
        assert(b.subrange(0, i + 1) =~= b.subrange(0, i).push(b[i]));
        lemma_le_from_antisym(a, b, i + 1);
    }
}

/// Two names that sort before or equal to each other are the same name.
pub proof fn lemma_name_le_antisym(a: Seq<char>, b: Seq<char>)
    requires
        name_le(a, b),
        name_le(b, a),
    ensures
        a == b,
{
    assert(a.subrange(0, 0) =~= b.subrange(0, 0));
    lemma_le_from_antisym(a, b, 0);
}

/// Whether name `a` sorts strictly before name `b`.
pub fn name_lt(a: &Vec<char>, b: &Vec<char>) -> (r: bool)
    ensures
        r == !name_le(b@, a@),
{
    let mut i: usize = 0;
    while i < a.len() && i < b.len() && a[i] == b[i]
        invariant
            i <= a@.len(),
            i <= b@.len(),
            le_from(b@, a@, 0) == le_from(b@, a@, i as int),
        decreases a.len() - i,
    {
        i = i + 1;
    }
    if i >= b.len() {
        false
    } else if i >= a.len() {
        true
    } else {
        a[i] < b[i]
    }
}

/// The key order is total.
pub proof fn lemma_key_le_total(ga: bool, na: Seq<char>, gb: bool, nb: Seq<char>)
    ensures
        key_le(ga, na, gb, nb) || key_le(gb, nb, ga, na),
{
    lemma_name_le_total(na, nb);
}

/// The key order is transitive.
pub proof fn lemma_key_le_trans(ga: bool, na: Seq<char>, gb: bool, nb: Seq<char>, gc: bool, nc: Seq<char>)
    requires
        key_le(ga, na, gb, nb),
        key_le(gb, nb, gc, nc),
    ensures
        key_le(ga, na, gc, nc),
{
    if ga == gb && gb == gc {
        lemma_name_le_trans(na, nb, nc);
    }
}

/// The sort key of a tree node: directories with content first, then by name.
pub open spec fn key_le(a_group: bool, a_name: Seq<char>, b_group: bool, b_name: Seq<char>) -> bool {
    (a_group && !b_group) || (a_group == b_group && name_le(a_name, b_name))
}

/// Whether the key of entry `k` sorts strictly after that of entry `q`.
fn key_gt(groups: &Vec<bool>, names: &Vec<Vec<char>>, k: usize, q: usize) -> (r: bool)
    requires
        groups@.len() == names@.len(),
        k < names@.len(),
        q < names@.len(),
    ensures
        r == !key_le(groups@[q as int], names@[q as int]@, groups@[k as int], names@[k as int]@),
{
    let gk = groups[k];
    let gq = groups[q];
    (gk && !gq) || (gk == gq && name_lt(&names[k], &names[q]))
}

/// Positions `0..n` ordered by the keys `(groups[i], names[i])`: entries of
/// the first group come first, each group is sorted by name, and entries
/// with equal keys keep their order.
pub fn order_by_key(groups: &Vec<bool>, names: &Vec<Vec<char>>) -> (r: Vec<usize>)
    requires
        groups@.len() == names@.len(),
    ensures
        r@.len() == names@.len(),
        forall|i: int| 0 <= i < r@.len() ==> #[trigger] r@[i] < names@.len(),
        forall|i: int, j: int| 0 <= i < j < r@.len() ==> #[trigger] r@[i] != #[trigger] r@[j],
        forall|i: int, j: int| 0 <= i < j < r@.len() ==>
            key_le(groups@[r@[i] as int], names@[r@[i] as int]@, groups@[r@[j] as int], names@[r@[j] as int]@),
        forall|i: int, j: int| 0 <= i < j < r@.len()
            && key_le(groups@[r@[j] as int], names@[r@[j] as int]@, groups@[r@[i] as int], names@[r@[i] as int]@)
            ==> r@[i] < r@[j],
{
    let n = names.len();
    let mut r: Vec<usize> = Vec::new();
    let mut k: usize = 0;
    while k < n
        invariant
            n == names@.len(),
            groups@.len() == n,
            k <= n,
            r@.len() == k,
            forall|i: int| 0 <= i < r@.len() ==> #[trigger] r@[i] < k,
            forall|i: int, j: int| 0 <= i < j < r@.len() ==> #[trigger] r@[i] != #[trigger] r@[j],
            forall|i: int, j: int| 0 <= i < j < r@.len() ==>
                key_le(groups@[r@[i] as int], names@[r@[i] as int]@, groups@[r@[j] as int], names@[r@[j] as int]@),
            forall|i: int, j: int| 0 <= i < j < r@.len()
                && key_le(groups@[r@[j] as int], names@[r@[j] as int]@, groups@[r@[i] as int], names@[r@[i] as int]@)
                ==> r@[i] < r@[j],
        decreases n - k,
    {
        // first position whose key is strictly greater than that of k
        let mut p: usize = 0;
        while p < r.len() && !key_gt(groups, names, k, r[p])
            invariant
                n == names@.len(),
                groups@.len() == n,
                k < n,
                p <= r@.len(),
                forall|i: int| 0 <= i < r@.len() ==> #[trigger] r@[i] < k,
                forall|i: int| 0 <= i < p ==>
                    key_le(groups@[#[trigger] r@[i] as int], names@[r@[i] as int]@, groups@[k as int], names@[k as int]@),
            decreases r.len() - p,
        {
            proof {
                let q = r@[p as int];
                lemma_name_le_total(names@[q as int]@, names@[k as int]@);
            }
            p = p + 1;
        }
        let ghost old_r = r@;
        proof {
            if p < old_r.len() {
                let q = old_r[p as int];
                lemma_name_le_total(names@[q as int]@, names@[k as int]@);
            }
        }
        r.insert(p, k);
        proof {
            if p < old_r.len() {
                let q = old_r[p as int];
                lemma_key_le_total(groups@[q as int], names@[q as int]@, groups@[k as int], names@[k as int]@);
            }
            assert forall|i: int, j: int| 0 <= i < j < r@.len() implies
                key_le(groups@[r@[i] as int], names@[r@[i] as int]@, groups@[r@[j] as int], names@[r@[j] as int]@) by {
                if i < p && j > p {
                    let a = r@[i];
                    let c = r@[j];
                    assert(a == old_r[i]);
                    assert(c == old_r[j - 1]);
                    let q = old_r[p as int];
                    if j - 1 > p {
                        lemma_key_le_trans(groups@[k as int], names@[k as int]@, groups@[q as int], names@[q as int]@, groups@[c as int], names@[c as int]@);
                    }
                    lemma_key_le_trans(groups@[a as int], names@[a as int]@, groups@[k as int], names@[k as int]@, groups@[c as int], names@[c as int]@);
                } else if i == p && j > p {
                    let c = r@[j];
                    assert(c == old_r[j - 1]);
                    let q = old_r[p as int];
                    if j - 1 > p {
                        lemma_key_le_trans(groups@[k as int], names@[k as int]@, groups@[q as int], names@[q as int]@, groups@[c as int], names@[c as int]@);
                    }
                } else if i < p && j == p {
                    assert(r@[i] == old_r[i]);
                } else if i < p && j < p {
                    assert(r@[i] == old_r[i] && r@[j] == old_r[j]);
                } else {
                    assert(r@[i] == old_r[i - 1] && r@[j] == old_r[j - 1]);
                }
            }
            assert forall|i: int, j: int| 0 <= i < j < r@.len()
                && key_le(groups@[r@[j] as int], names@[r@[j] as int]@, groups@[r@[i] as int], names@[r@[i] as int]@)
                implies r@[i] < r@[j] by {
                if i < p && j > p {
                    assert(r@[i] == old_r[i] && r@[j] == old_r[j - 1]);
                } else if i == p && j > p {
                    let c = r@[j];
                    assert(c == old_r[j - 1]);
                    let q = old_r[p as int];
                    if j - 1 > p {
                        assert(key_le(groups@[q as int], names@[q as int]@, groups@[c as int], names@[c as int]@));
                    }
                    lemma_key_le_trans(groups@[q as int], names@[q as int]@, groups@[c as int], names@[c as int]@, groups@[k as int], names@[k as int]@);
                } else if i < p && j == p {
                    assert(r@[i] == old_r[i]);
                } else if i < p && j < p {
                    assert(r@[i] == old_r[i] && r@[j] == old_r[j]);
                } else if i > p {
                    assert(r@[i] == old_r[i - 1] && r@[j] == old_r[j - 1]);
                }
            }
        }
        k = k + 1;
    }
    r
}

} // verus!
