//! Coulomb stress runs: which calculation a request asks for, and the files
//! that optimized results are written to.

use vstd::prelude::*;
use crate::text::{chars_of, push_char};

verus! {

/// What a stress run computes.
#[derive(Debug, Clone, Copy, PartialEq, Eq, Structural)]
pub enum CfsMode {
    /// Displacement and strain on the grid.
    Deformation,
    /// Coulomb stress change on the grid.
    CoulombGrid,
    /// Coulomb stress change on each receiver of a table.
    BatchReceiver,
}

/// Which stress component to maximize during optimization.
#[derive(Debug, Clone, Copy, PartialEq, Eq, Structural)]
pub enum OptTarget {
    Shear,
    Normal,
    Coulomb,
}

/// Suffix added to a file name for the results of a target.
pub open spec fn spec_suffix(t: OptTarget) -> Seq<char> {
    match t {
        OptTarget::Shear => seq!['_', 'm', 'a', 'x', '_', 's', 'h', 'e', 'a', 'r'],
        OptTarget::Normal => seq!['_', 'm', 'a', 'x', '_', 'n', 'o', 'r', 'm', 'a', 'l'],
        OptTarget::Coulomb => seq!['_', 'm', 'a', 'x', '_', 'c', 'o', 'u', 'l', 'o', 'm', 'b'],
    }
}

impl OptTarget {
    /// Suffix added to a file name for the results of this target.
    pub fn suffix(&self) -> (r: &'static str)
        ensures
            r@ == spec_suffix(*self),
    {
        match self {
            OptTarget::Shear => {
                proof { reveal_strlit("_max_shear"); }
                "_max_shear"
            },
            OptTarget::Normal => {
                proof { reveal_strlit("_max_normal"); }
                "_max_normal"
            },
            OptTarget::Coulomb => {
                proof { reveal_strlit("_max_coulomb"); }
                "_max_coulomb"
            },
        }
    }
}

/// The receiver optimization asked for: whether it is on, which receiver
/// angles it searches, and which components it maximizes.
#[derive(Debug, Clone, Copy)]
pub struct OptimizationRequest {
    pub enabled: bool,
    pub strike: bool,
    pub dip: bool,
    pub rake: bool,
    pub shear: bool,
    pub normal: bool,
    pub coulomb: bool,
}

/// The calculation a run performs.
#[derive(Debug, Clone)]
pub enum CfsJob {
    Deformation,
    CoulombGrid,
    /// Coulomb stress with the receiver optimized for each target in turn.
    Optimized(Vec<OptTarget>),
    BatchReceiver,
}

/// Whether the optimization searches anything.
pub open spec fn spec_optimizes(req: OptimizationRequest) -> bool {
    req.enabled && (req.strike || req.dip || req.rake)
}

/// An enabled optimization that searches any one of the receiver's strike,
/// dip or rake is an optimization run; one that is off, or searches none of
/// the three angles, is not.
pub proof fn law_any_angle_optimizes(req: OptimizationRequest)
    ensures
        req.enabled && req.strike ==> spec_optimizes(req),
        req.enabled && req.dip ==> spec_optimizes(req),
        req.enabled && req.rake ==> spec_optimizes(req),
        !req.enabled ==> !spec_optimizes(req),
        !req.strike && !req.dip && !req.rake ==> !spec_optimizes(req),
{
}

/// The targets asked for, in the order shear, normal, Coulomb.
pub open spec fn spec_targets(req: OptimizationRequest) -> Seq<OptTarget> {
    (if req.shear { seq![OptTarget::Shear] } else { Seq::empty() })
        + (if req.normal { seq![OptTarget::Normal] } else { Seq::empty() })
        + (if req.coulomb { seq![OptTarget::Coulomb] } else { Seq::empty() })
}

/// The calculation that a run in `mode` with optimization request `req`
/// performs: on the grid, an optimization over the targets asked for when
/// it searches any receiver angle, else a plain Coulomb calculation.
pub fn cfs_job(mode: CfsMode, req: &OptimizationRequest) -> (r: CfsJob)
    ensures
        (r is Deformation) == (mode == CfsMode::Deformation),
        (r is BatchReceiver) == (mode == CfsMode::BatchReceiver),
        (r is CoulombGrid) == (mode == CfsMode::CoulombGrid && !spec_optimizes(*req)),
        (r is Optimized) == (mode == CfsMode::CoulombGrid && spec_optimizes(*req)),
        r is Optimized ==> r->0@ == spec_targets(*req),
{
    match mode {
        CfsMode::Deformation => CfsJob::Deformation,
        CfsMode::BatchReceiver => CfsJob::BatchReceiver,
        CfsMode::CoulombGrid => {
            if req.enabled && (req.strike || req.dip || req.rake) {
                let mut targets: Vec<OptTarget> = Vec::new();
                if req.shear {
                    targets.push(OptTarget::Shear);
                }
                if req.normal {
                    targets.push(OptTarget::Normal);
                }
                if req.coulomb {
                    targets.push(OptTarget::Coulomb);
                }
                assert(targets@ == spec_targets(*req));
                CfsJob::Optimized(targets)
            } else {
                CfsJob::CoulombGrid
            }
        },
    }
}

/// The position of the last `c` in `s`, or -1.
pub open spec fn last_index_of(s: Seq<char>, c: char) -> int
    decreases s.len(),
{
    if s.len() == 0 {
        -1
    } else if s.last() == c {
        s.len() - 1
    } else {
        last_index_of(s.drop_last(), c)
    }
}

/// A path split before its last dot into stem and extension; a path with
/// no dot is all stem, with the extension `.csv`.
pub open spec fn split_extension(p: Seq<char>) -> (Seq<char>, Seq<char>) {
    let i = last_index_of(p, '.');
    if i < 0 {
        (p, seq!['.', 'c', 's', 'v'])
    } else {
        (p.subrange(0, i), p.subrange(i, p.len() as int))
    }
}

/// The files that optimized results for `targets` are written to, given
/// the chosen path: the path itself for a single target, else one file per
/// target, its suffix put between stem and extension.
pub open spec fn spec_output_paths(p: Seq<char>, targets: Seq<OptTarget>) -> Seq<Seq<char>> {
    if targets.len() == 1 {
        seq![p]
    } else {
        let (stem, ext) = split_extension(p);
        targets.map_values(|t: OptTarget| stem + spec_suffix(t) + ext)
    }
}

proof fn lemma_last_index_bounds(s: Seq<char>, c: char)
    ensures
        -1 <= last_index_of(s, c) < s.len(),
        last_index_of(s, c) >= 0 ==> s[last_index_of(s, c)] == c,
        forall|j: int| last_index_of(s, c) < j < s.len() ==> s[j] != c,
    decreases s.len(),
{
    if s.len() > 0 && s.last() != c {
        lemma_last_index_bounds(s.drop_last(), c);
        assert forall|j: int| last_index_of(s, c) < j < s.len() implies s[j] != c by {
            if j < s.len() - 1 {
                assert(s.drop_last()[j] == s[j]);
            }
        }
    }
}

/// The position of the last `.` in `v`, found from the end.
fn last_dot(v: &Vec<char>) -> (r: Option<usize>)
    ensures
        match r {
            Some(i) => i as int == last_index_of(v@, '.'),
            None => last_index_of(v@, '.') == -1,
        },
{
    let mut i: usize = v.len();
    while i > 0
        invariant
            i <= v.len(),
            forall|j: int| i <= j < v.len() ==> v@[j] != '.',
        decreases i,
    {
        if v[i - 1] == '.' {
            proof { lemma_last_from_end(v@, (i - 1) as int); }
            return Some(i - 1);
        }
        i = i - 1;
    }
    proof { lemma_no_dot(v@); }
    None
}

proof fn lemma_last_from_end(s: Seq<char>, k: int)
    requires
        0 <= k < s.len(),
        s[k] == '.',
        forall|j: int| k < j < s.len() ==> s[j] != '.',
    ensures
        last_index_of(s, '.') == k,
    decreases s.len(),
{
    if k < s.len() - 1 {
        assert(s.last() != '.');
        lemma_last_from_end(s.drop_last(), k);
    }
}

proof fn lemma_no_dot(s: Seq<char>)
    requires
        forall|j: int| 0 <= j < s.len() ==> s[j] != '.',
    ensures
        last_index_of(s, '.') == -1,
    decreases s.len(),
{
    if s.len() > 0 {
        lemma_no_dot(s.drop_last());
    }
}

/// Appends the characters of `src` to `s`.
fn push_all(s: &mut String, src: &Vec<char>, from: usize, to: usize)
    requires
        from <= to <= src.len(),
    ensures
        final(s)@ == old(s)@ + src@.subrange(from as int, to as int),
{
    let mut i = from;
    while i < to
        invariant
            from <= i <= to <= src.len(),
            s@ == old(s)@ + src@.subrange(from as int, i as int),
        decreases to - i,
    {
        push_char(s, src[i]);
        i = i + 1;
        assert(s@ == old(s)@ + src@.subrange(from as int, i as int));
    }
}

/// The files that optimized results for `targets` are written to when the
/// user chose `path`.
pub fn optimized_output_paths(path: &str, targets: &Vec<OptTarget>) -> (r: Vec<String>)
    ensures
        r@.map_values(|s: String| s@) == spec_output_paths(path@, targets@),
{
    if targets.len() == 1 {
        let one = String::from_str(path);
        let mut r: Vec<String> = Vec::new();
        r.push(one);
        assert(r@.map_values(|s: String| s@) =~= seq![path@]);
        return r;
    }
    let chars = chars_of(path);
    let dot = last_dot(&chars);
    let n = chars.len();
    let ghost (stem, ext) = split_extension(path@);
    let (stem_end, default_ext) = match dot {
        Some(i) => (i, false),
        None => (n, true),
    };
    proof {
        lemma_last_index_bounds(path@, '.');
        assert(chars@.subrange(0, n as int) == chars@);
    }
    let mut r: Vec<String> = Vec::new();
    let mut k: usize = 0;
    while k < targets.len()
        invariant
            k <= targets.len(),
            chars@ == path@,
            n == chars.len(),
            targets.len() != 1,
            stem_end <= n,
            (stem, ext) == split_extension(path@),
            stem == chars@.subrange(0, stem_end as int),
            default_ext ==> ext == seq!['.', 'c', 's', 'v'],
            !default_ext ==> ext == chars@.subrange(stem_end as int, n as int),
            r.len() == k,
            forall|j: int| 0 <= j < k ==> #[trigger] r@[j]@ == stem + spec_suffix(targets@[j]) + ext,
        decreases targets.len() - k,
    {
        let mut name = String::new();
        push_all(&mut name, &chars, 0, stem_end);
        name.append(targets[k].suffix());
        if default_ext {
            proof { reveal_strlit(".csv"); }
            name.append(".csv");
        } else {
            push_all(&mut name, &chars, stem_end, n);
        }
        assert(name@ == stem + spec_suffix(targets@[k as int]) + ext);
        r.push(name);
        k = k + 1;
    }
    assert(r@.map_values(|s: String| s@) =~= targets@.map_values(|t: OptTarget| stem + spec_suffix(t) + ext));
    r
}

/// Each target asked for appears once, in the order shear, normal, Coulomb.
proof fn lemma_targets_distinct(req: OptimizationRequest)
    ensures
        forall|i: int, j: int| 0 <= i < j < spec_targets(req).len()
            ==> spec_targets(req)[i] != spec_targets(req)[j],
        spec_targets(req).len() <= 3,
{
    let a: Seq<OptTarget> = if req.shear { seq![OptTarget::Shear] } else { Seq::empty() };
    let b: Seq<OptTarget> = if req.normal { seq![OptTarget::Normal] } else { Seq::empty() };
    let c: Seq<OptTarget> = if req.coulomb { seq![OptTarget::Coulomb] } else { Seq::empty() };
    let t = spec_targets(req);
    assert(t == a + b + c);
    assert forall|i: int, j: int| 0 <= i < j < t.len() implies t[i] != t[j] by {
        if req.shear && req.normal && req.coulomb {
            assert(t =~= seq![OptTarget::Shear, OptTarget::Normal, OptTarget::Coulomb]);
        } else if req.shear && req.normal {
            assert(t =~= seq![OptTarget::Shear, OptTarget::Normal]);
        } else if req.shear && req.coulomb {
            assert(t =~= seq![OptTarget::Shear, OptTarget::Coulomb]);
        } else if req.normal && req.coulomb {
            assert(t =~= seq![OptTarget::Normal, OptTarget::Coulomb]);
        }
    }
}

/// Optimized results are written to one file per target, and no two
/// targets of a run share a file.
pub proof fn law_optimized_files_distinct(p: Seq<char>, req: OptimizationRequest)
    ensures
        spec_output_paths(p, spec_targets(req)).len() == spec_targets(req).len(),
        forall|i: int, j: int| 0 <= i < j < spec_targets(req).len()
            ==> spec_output_paths(p, spec_targets(req))[i] != spec_output_paths(p, spec_targets(req))[j],
{
    lemma_targets_distinct(req);
    let t = spec_targets(req);
    let out = spec_output_paths(p, t);
    if t.len() != 1 {
        let (stem, ext) = split_extension(p);
        assert forall|i: int, j: int| 0 <= i < j < t.len() implies out[i] != out[j] by {
            assert(out[i] == stem + spec_suffix(t[i]) + ext);
            assert(out[j] == stem + spec_suffix(t[j]) + ext);
            assert(out[i].len() != out[j].len());
        }
    }
}

} // verus!
