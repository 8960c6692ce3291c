//! Keep only the largest connected component of the mask.
//!
//! Segmentation models occasionally emit small islands of confidence outside
//! the subject.  The subject is by far the largest contiguous region, so
//! keeping the largest component removes the noise without touching it.
//!
//! Each row is split into horizontal runs of foreground pixels; a run is joined
//! (union-find) with every run of the previous row that it overlaps.  The whole
//! analysis is linear in the number of runs rather than pixels.  Pixels of the
//! largest component keep their confidence, all others become zero.  Of two
//! components of one size the one that scan order meets first is kept.
//!
//! Values are compared by [`float_bits::ge`], which compares as the values do; a
//! NaN compares with nothing, so it is never foreground.

use vstd::prelude::*;
use vstd::set_lib;
use crate::context::{EffectState, FrameContext, ProcessingContext};
use crate::error::EffectError;
use crate::float_bits;
use crate::mask_effects;
use crate::metadata::{
    CommitStrategy, EffectMetadata, ParamDescriptor, ParamKind, Scale, DEBOUNCE_FAST_MS,
};
use crate::params::RawEffectParams;
use crate::plane::{EffectRules, MaskCall, MaskEffect, MaskPlane};

verus! {

/// Bit pattern of the default level, `0.5`.
pub const DEFAULT_LEVEL: u32 = 0x3F00_0000;

/// Parameters of [`LargestBlobMaskEffect`].
#[derive(Debug, Clone, Copy, PartialEq, Eq, Structural)]
pub struct LargestBlobConfig {
    /// Pixels of at least this confidence take part in the labelling.
    pub level: u32,
}

impl Default for LargestBlobConfig {
    fn default() -> (r: Self)
        ensures
            r.level == DEFAULT_LEVEL,
    {
        LargestBlobConfig { level: DEFAULT_LEVEL }
    }
}

/// One horizontal run of foreground pixels: row `y`, columns `x0..=x1`, plus
/// its union-find parent (an index into the run vector).  Runs are appended in
/// row-major scan order, so a run's index also orders the first pixel of every
/// component.
#[derive(Clone, Copy)]
pub struct Run {
    /// Row.
    pub y: usize,
    /// First column.
    pub x0: usize,
    /// Last column.
    pub x1: usize,
    /// Index of a run of the same component, at most its own.
    pub parent: usize,
}

// ---------------------------------------------------------------------------
// Connectivity of pixels
// ---------------------------------------------------------------------------

/// Foreground of a mask: the pixels whose confidence is at least `level`.
pub open spec fn foreground(mask: Seq<u32>, level: u32) -> Seq<bool> {
    Seq::new(mask.len(), |i: int| float_bits::ge(mask[i], level))
}

/// Whether the pixels with row-major indices `p` and `q` share an edge in an
/// image `w` pixels wide.
pub open spec fn adjacent(w: int, p: int, q: int) -> bool {
    ||| q == p + 1 && q % w != 0
    ||| p == q + 1 && p % w != 0
    ||| q == p + w
    ||| p == q + w
}

/// Whether `path` walks over foreground pixels only, each sharing an edge with
/// the one before.
pub open spec fn is_path(fg: Seq<bool>, w: int, path: Seq<int>) -> bool {
    &&& path.len() > 0
    &&& forall|k: int| 0 <= k < path.len() ==> 0 <= #[trigger] path[k] < fg.len() && fg[path[k]]
    &&& forall|k: int, l: int|
        0 <= k && l == k + 1 && l < path.len() ==> adjacent(w, #[trigger] path[k], #[trigger] path[l])
}

/// Whether `path` leads from `p` to `q`.
pub open spec fn leads(fg: Seq<bool>, w: int, path: Seq<int>, p: int, q: int) -> bool {
    is_path(fg, w, path) && path[0] == p && path.last() == q
}

/// Whether foreground pixels `p` and `q` lie in one 4-connected component.
pub open spec fn connected(fg: Seq<bool>, w: int, p: int, q: int) -> bool {
    exists|path: Seq<int>| leads(fg, w, path, p, q)
}

/// The 4-connected component of `p`.
pub open spec fn component(fg: Seq<bool>, w: int, p: int) -> Set<int> {
    Set::new(|q: int| connected(fg, w, p, q))
}

/// Whether `seed` is the first pixel, in scan order, of the component to keep:
/// no component is larger, and no component of the same size starts earlier.
pub open spec fn is_winner(fg: Seq<bool>, w: int, seed: int) -> bool {
    &&& 0 <= seed < fg.len()
    &&& fg[seed]
    &&& forall|q: int|
        0 <= q < fg.len() && #[trigger] fg[q] ==> {
            ||| component(fg, w, q).len() < component(fg, w, seed).len()
            ||| component(fg, w, q).len() == component(fg, w, seed).len() && seed <= q
        }
}

/// Whether pixel `p` belongs to the largest component.
pub open spec fn in_largest(fg: Seq<bool>, w: int, p: int) -> bool {
    exists|seed: int| #[trigger] is_winner(fg, w, seed) && connected(fg, w, seed, p)
}

proof fn lemma_connected_refl(fg: Seq<bool>, w: int, p: int)
    requires
        0 <= p < fg.len(),
        fg[p],
    ensures
        connected(fg, w, p, p),
{
    assert(leads(fg, w, seq![p], p, p));
}

proof fn lemma_connected_step(fg: Seq<bool>, w: int, p: int, q: int)
    requires
        0 <= p < fg.len(),
        0 <= q < fg.len(),
        fg[p],
        fg[q],
        adjacent(w, p, q),
    ensures
        connected(fg, w, p, q),
{
    assert(leads(fg, w, seq![p, q], p, q));
}

proof fn lemma_connected_sym(fg: Seq<bool>, w: int, p: int, q: int)
    requires
        connected(fg, w, p, q),
    ensures
        connected(fg, w, q, p),
{
    let path = choose|path: Seq<int>| leads(fg, w, path, p, q);
    let back = path.reverse();
    assert forall|k: int, l: int| 0 <= k && l == k + 1 && l < back.len() implies adjacent(
        w,
        #[trigger] back[k],
        #[trigger] back[l],
    ) by {
        assert(back[k] == path[path.len() - 1 - k]);
        assert(back[l] == path[path.len() - 1 - l]);
    }
    assert(leads(fg, w, back, q, p));
}

proof fn lemma_connected_trans(fg: Seq<bool>, w: int, p: int, q: int, r: int)
    requires
        connected(fg, w, p, q),
        connected(fg, w, q, r),
    ensures
        connected(fg, w, p, r),
{
    let a = choose|path: Seq<int>| leads(fg, w, path, p, q);
    let b = choose|path: Seq<int>| leads(fg, w, path, q, r);
    let c = a + b.drop_first();
    assert forall|k: int, l: int| 0 <= k && l == k + 1 && l < c.len() implies adjacent(
        w,
        #[trigger] c[k],
        #[trigger] c[l],
    ) by {
        if l < a.len() {
            assert(c[k] == a[k] && c[l] == a[l]);
        } else {
            assert(c[l] == b[l - a.len() + 1]);
            assert(c[k] == b[k - a.len() + 1]);
        }
    }
    assert forall|k: int| 0 <= k < c.len() implies 0 <= #[trigger] c[k] < fg.len() && fg[c[k]] by {
        if k < a.len() {
            assert(c[k] == a[k]);
        } else {
            assert(c[k] == b[k - a.len() + 1]);
        }
    }
    assert(c.last() == r) by {
        if b.len() > 1 {
            assert(c.last() == b.last());
        } else {
            assert(c.last() == a.last());
        }
    }
    assert(leads(fg, w, c, p, r));
}

/// A path's ends are foreground pixels of the image.
proof fn lemma_connected_ends(fg: Seq<bool>, w: int, p: int, q: int)
    requires
        connected(fg, w, p, q),
    ensures
        0 <= p < fg.len(),
        0 <= q < fg.len(),
        fg[p],
        fg[q],
{
    let path = choose|path: Seq<int>| leads(fg, w, path, p, q);
    assert(path[0] == p);
    assert(path[path.len() - 1] == q);
}

// ---------------------------------------------------------------------------
// Union-find over runs
// ---------------------------------------------------------------------------

/// Every parent link points at the run itself or at an earlier one.
pub open spec fn links_ok(runs: Seq<Run>) -> bool {
    forall|i: int| 0 <= i < runs.len() ==> (#[trigger] runs[i]).parent <= i
}

/// The run that the parent links of run `i` end at.
pub open spec fn root(runs: Seq<Run>, i: int) -> int
    decreases i,
{
    if 0 <= i < runs.len() && runs[i].parent < i {
        root(runs, runs[i].parent as int)
    } else {
        i
    }
}

/// Same pixels, parents aside.
pub open spec fn same_shape(a: Seq<Run>, b: Seq<Run>) -> bool {
    &&& a.len() == b.len()
    &&& forall|i: int|
        0 <= i < a.len() ==> (#[trigger] a[i]).y == b[i].y && a[i].x0 == b[i].x0 && a[i].x1
            == b[i].x1
}

proof fn lemma_root_bounds(runs: Seq<Run>, i: int)
    requires
        links_ok(runs),
        0 <= i < runs.len(),
    ensures
        0 <= root(runs, i) <= i,
        runs[root(runs, i)].parent == root(runs, i),
        root(runs, root(runs, i)) == root(runs, i),
    decreases i,
{
    if runs[i].parent < i {
        lemma_root_bounds(runs, runs[i].parent as int);
    }
}

/// Replacing the parent of run `i` by its grandparent changes no root.
proof fn lemma_halving_keeps_roots(old_runs: Seq<Run>, new_runs: Seq<Run>, i: int, j: int)
    requires
        links_ok(old_runs),
        0 <= i < old_runs.len(),
        0 <= j < old_runs.len(),
        new_runs.len() == old_runs.len(),
        forall|k: int| 0 <= k < old_runs.len() && k != i ==> new_runs[k] == old_runs[k],
        new_runs[i].parent == old_runs[old_runs[i].parent as int].parent,
    ensures
        root(new_runs, j) == root(old_runs, j),
    decreases j,
{
    let p = old_runs[j].parent as int;
    if j == i {
        let g = old_runs[p].parent as int;
        assert(p <= i && g <= p);
        if g < i {
            lemma_halving_keeps_roots(old_runs, new_runs, i, g);
            assert(root(old_runs, i) == root(old_runs, g)) by {
                if p < i {
                    assert(root(old_runs, i) == root(old_runs, p));
                    if g < p {
                        assert(root(old_runs, p) == root(old_runs, g));
                    }
                }
            }
        } else {
            assert(p == i);
        }
    } else if p < j {
        assert(new_runs[j] == old_runs[j]);
        lemma_halving_keeps_roots(old_runs, new_runs, i, p);
    } else {
        assert(new_runs[j] == old_runs[j]);
    }
}

/// Hanging root `hi` under the earlier root `lo` sends the runs of `hi` to
/// `lo` and leaves every other root alone.
proof fn lemma_union_roots(old_runs: Seq<Run>, new_runs: Seq<Run>, lo: int, hi: int, j: int)
    requires
        links_ok(old_runs),
        0 <= lo < hi < old_runs.len(),
        old_runs[lo].parent == lo,
        old_runs[hi].parent == hi,
        0 <= j < old_runs.len(),
        new_runs.len() == old_runs.len(),
        forall|k: int| 0 <= k < old_runs.len() && k != hi ==> new_runs[k] == old_runs[k],
        new_runs[hi].parent == lo,
    ensures
        root(new_runs, j) == (if root(old_runs, j) == hi {
            lo
        } else {
            root(old_runs, j)
        }),
    decreases j,
{
    let p = old_runs[j].parent as int;
    if j == hi {
        assert(root(old_runs, hi) == hi);
        assert(new_runs[lo] == old_runs[lo]);
        assert(root(new_runs, lo) == lo);
        assert(root(new_runs, hi) == root(new_runs, lo));
    } else {
        assert(new_runs[j] == old_runs[j]);
        if p < j {
            lemma_union_roots(old_runs, new_runs, lo, hi, p);
            assert(root(old_runs, j) == root(old_runs, p));
            assert(root(new_runs, j) == root(new_runs, p));
        } else {
            assert(root(old_runs, j) == j);
            assert(root(new_runs, j) == j);
        }
    }
}

/// Union-find root of run `start` with path halving.
pub fn find_root(runs: &mut Vec<Run>, start: usize) -> (r: usize)
    requires
        links_ok(old(runs)@),
        start < old(runs)@.len(),
    ensures
        links_ok(final(runs)@),
        same_shape(final(runs)@, old(runs)@),
        forall|j: int|
            0 <= j < old(runs)@.len() ==> #[trigger] root(final(runs)@, j) == root(old(runs)@, j),
        r == root(old(runs)@, start as int),
{
    let mut i: usize = start;
    while runs[i].parent != i
        invariant
            links_ok(runs@),
            same_shape(runs@, old(runs)@),
            i < runs@.len(),
            start < runs@.len(),
            forall|j: int|
                0 <= j < runs@.len() ==> #[trigger] root(runs@, j) == root(old(runs)@, j),
            root(runs@, i as int) == root(old(runs)@, start as int),
        decreases i,
    {
        let parent: usize = runs[i].parent;
        let grand: usize = runs[parent].parent;
        let ghost before = runs@;
        let run = runs[i];
        runs[i] = Run { y: run.y, x0: run.x0, x1: run.x1, parent: grand };
        proof {
            assert forall|j: int| 0 <= j < runs@.len() implies #[trigger] root(runs@, j) == root(
                old(runs)@,
                j,
            ) by {
                lemma_halving_keeps_roots(before, runs@, i as int, j);
                assert(root(before, j) == root(old(runs)@, j));
            }
            assert(root(before, i as int) == root(before, parent as int));
            assert(root(before, parent as int) == root(before, grand as int));
            assert(root(runs@, grand as int) == root(old(runs)@, grand as int));
            assert(root(before, grand as int) == root(old(runs)@, grand as int));
        }
        i = grand;
    }
    i
}

/// Join the components of runs `a` and `b`.  The smaller root index stays the
/// root, so a component's root is always its earliest run in scan order.
pub fn union_runs(runs: &mut Vec<Run>, a: usize, b: usize)
    requires
        links_ok(old(runs)@),
        a < old(runs)@.len(),
        b < old(runs)@.len(),
    ensures
        links_ok(final(runs)@),
        same_shape(final(runs)@, old(runs)@),
        forall|j: int|
            0 <= j < old(runs)@.len() ==> #[trigger] root(final(runs)@, j) == joined(
                old(runs)@,
                a as int,
                b as int,
                j,
            ),
{
    let ra: usize = find_root(runs, a);
    let rb: usize = find_root(runs, b);
    proof {
        lemma_root_bounds(old(runs)@, a as int);
        lemma_root_bounds(old(runs)@, b as int);
        lemma_root_bounds(runs@, a as int);
        lemma_root_bounds(runs@, b as int);
        assert(root(runs@, a as int) == ra);
        assert(root(runs@, b as int) == rb);
    }
    if ra != rb {
        let (lo, hi) = if ra < rb {
            (ra, rb)
        } else {
            (rb, ra)
        };
        let ghost before = runs@;
        let run = runs[hi];
        runs[hi] = Run { y: run.y, x0: run.x0, x1: run.x1, parent: lo };
        proof {
            assert forall|j: int| 0 <= j < old(runs)@.len() implies #[trigger] root(runs@, j)
                == joined(old(runs)@, a as int, b as int, j) by {
                assert(root(before, j) == root(old(runs)@, j));
                lemma_union_roots(before, runs@, lo as int, hi as int, j);
            }
        }
    }
}

/// Root of run `j` after the components of `a` and `b` were joined.
pub open spec fn joined(runs: Seq<Run>, a: int, b: int, j: int) -> int {
    let ra = root(runs, a);
    let rb = root(runs, b);
    let lo = if ra < rb {
        ra
    } else {
        rb
    };
    if root(runs, j) == ra || root(runs, j) == rb {
        lo
    } else {
        root(runs, j)
    }
}

// ---------------------------------------------------------------------------
// Runs of a mask
// ---------------------------------------------------------------------------

/// Row-major index of the first pixel of `run`.
spec fn lo(w: int, run: Run) -> int {
    run.y * w + run.x0
}

/// Row-major index of the last pixel of `run`.
spec fn hi(w: int, run: Run) -> int {
    run.y * w + run.x1
}

/// Whether pixel `p` lies in run `i`.
spec fn covers(runs: Seq<Run>, w: int, i: int, p: int) -> bool {
    0 <= i < runs.len() && lo(w, runs[i]) <= p <= hi(w, runs[i])
}

/// Whether `run` is a maximal row segment of foreground pixels that ends
/// before pixel `end`.
spec fn run_ok(run: Run, fg: Seq<bool>, w: int, end: int) -> bool {
    &&& run.x0 <= run.x1 < w
    &&& 0 <= lo(w, run)
    &&& hi(w, run) < end
    &&& forall|p: int| lo(w, run) <= p <= hi(w, run) ==> #[trigger] fg[p]
    &&& run.x0 > 0 ==> !fg[lo(w, run) - 1]
    &&& run.x1 + 1 < w ==> !fg[hi(w, run) + 1]
}

/// Whether `runs` are the foreground runs of the pixels before `end`, in scan
/// order.
#[verifier::opaque]
spec fn runs_ok(runs: Seq<Run>, fg: Seq<bool>, w: int, end: int) -> bool {
    &&& forall|i: int| 0 <= i < runs.len() ==> run_ok(#[trigger] runs[i], fg, w, end)
    &&& forall|i: int, j: int|
        0 <= i < j < runs.len() ==> hi(w, #[trigger] runs[i]) < lo(w, #[trigger] runs[j])
    &&& forall|p: int|
        0 <= p < end && #[trigger] fg[p] ==> exists|i: int| covers(runs, w, i, p)
}

/// Whether two runs have a column in common.
spec fn overlap(a: Run, b: Run) -> bool {
    a.x0 <= b.x1 && b.x0 <= a.x1
}

/// Whether each of the first `upto` runs has the root of every run of the row
/// above that it overlaps.
#[verifier::opaque]
spec fn linked(runs: Seq<Run>, upto: int) -> bool {
    forall|i: int, j: int|
        0 <= i < runs.len() && 0 <= j < upto && j < runs.len() && (#[trigger] runs[j]).y == (
        #[trigger] runs[i]).y + 1 && overlap(runs[i], runs[j]) ==> root(runs, i) == root(runs, j)
}

/// Whether every run lies in the component of its root.
#[verifier::opaque]
spec fn sound(runs: Seq<Run>, fg: Seq<bool>, w: int) -> bool {
    forall|i: int|
        0 <= i < runs.len() ==> connected(
            fg,
            w,
            lo(w, #[trigger] runs[i]),
            lo(w, runs[root(runs, i)]),
        )
}

/// Column and row of a pixel.
proof fn lemma_pixel(w: int, y: int, x: int)
    requires
        0 <= x < w,
    ensures
        (y * w + x) % w == x,
        (y * w + x) / w == y,
{
    assert((y * w + x) % w == x && (y * w + x) / w == y) by (nonlinear_arith)
        requires
            0 <= x < w,
    ;
}

/// A later row starts at or after the end of an earlier one.
proof fn lemma_rows(w: int, a: int, b: int)
    requires
        a < b,
        0 <= w,
    ensures
        a * w + w <= b * w,
{
    assert(a * w + w <= b * w) by (nonlinear_arith)
        requires
            a < b,
            0 <= w,
    ;
}

/// The first pixel of a run reaches every pixel of it.
proof fn lemma_run_connected(run: Run, fg: Seq<bool>, w: int, end: int, p: int)
    requires
        run_ok(run, fg, w, end),
        end <= fg.len(),
        lo(w, run) <= p <= hi(w, run),
    ensures
        connected(fg, w, lo(w, run), p),
    decreases p - lo(w, run),
{
    assert(fg[lo(w, run)]);
    assert(fg[p]);
    if p == lo(w, run) {
        lemma_connected_refl(fg, w, p);
    } else {
        lemma_run_connected(run, fg, w, end, p - 1);
        assert(fg[p - 1]);
        lemma_pixel(w, run.y as int, p - run.y * w);
        lemma_connected_step(fg, w, p - 1, p);
        lemma_connected_trans(fg, w, lo(w, run), p - 1, p);
    }
}

/// Runs of adjacent rows that overlap belong to one component.
proof fn lemma_overlap_connected(a: Run, b: Run, fg: Seq<bool>, w: int, end: int)
    requires
        run_ok(a, fg, w, end),
        run_ok(b, fg, w, end),
        end <= fg.len(),
        b.y == a.y + 1,
        overlap(a, b),
    ensures
        connected(fg, w, lo(w, a), lo(w, b)),
{
    let x: int = if a.x0 < b.x0 {
        b.x0 as int
    } else {
        a.x0 as int
    };
    let p = a.y * w + x;
    let q = b.y * w + x;
    assert(q == p + w) by (nonlinear_arith)
        requires
            p == a.y * w + x,
            q == b.y * w + x,
            b.y == a.y + 1,
    ;
    assert(fg[p] && fg[q]);
    lemma_run_connected(a, fg, w, end, p);
    lemma_run_connected(b, fg, w, end, q);
    lemma_connected_step(fg, w, p, q);
    lemma_connected_trans(fg, w, lo(w, a), p, q);
    lemma_connected_sym(fg, w, lo(w, b), q);
    lemma_connected_trans(fg, w, lo(w, a), q, lo(w, b));
}

/// Parents aside, equal runs describe the same pixels.
proof fn lemma_shape_keeps_runs_ok(a: Seq<Run>, b: Seq<Run>, fg: Seq<bool>, w: int, end: int)
    requires
        same_shape(b, a),
        runs_ok(a, fg, w, end),
    ensures
        runs_ok(b, fg, w, end),
{
    reveal(runs_ok);
    assert forall|i: int| 0 <= i < b.len() implies run_ok(#[trigger] b[i], fg, w, end) by {
        assert(run_ok(a[i], fg, w, end));
    }
    assert forall|p: int| 0 <= p < end && #[trigger] fg[p] implies exists|i: int|
        covers(b, w, i, p) by {
        let i = choose|i: int| covers(a, w, i, p);
        assert(covers(b, w, i, p));
    }
    assert forall|i: int, j: int| 0 <= i < j < b.len() implies hi(w, #[trigger] b[i]) < lo(
        w,
        #[trigger] b[j],
    ) by {
        assert(hi(w, a[i]) < lo(w, a[j]));
    }
}

/// Append the foreground runs of row `y`, whose first pixel is `base`.
fn collect_row(mask: &[u32], level: u32, width: usize, y: usize, base: usize, runs: &mut Vec<Run>)
    requires
        width > 0,
        base == y * width,
        base + width <= mask.len(),
        links_ok(old(runs)@),
        runs_ok(old(runs)@, foreground(mask@, level), width as int, base as int),
    ensures
        links_ok(final(runs)@),
        runs_ok(final(runs)@, foreground(mask@, level), width as int, base + width),
        old(runs)@.len() <= final(runs)@.len(),
        forall|i: int| 0 <= i < old(runs)@.len() ==> final(runs)@[i] == old(runs)@[i],
        forall|i: int|
            old(runs)@.len() <= i < final(runs)@.len() ==> (#[trigger] final(runs)@[i]).y == y
                && final(runs)@[i].parent == i,
{
    let ghost fg = foreground(mask@, level);
    let ghost w = width as int;
    let mut x: usize = 0;
    proof {
        reveal(runs_ok);
    }
    while x < width
        invariant
            width > 0,
            w == width,
            base == y * width,
            base + width <= mask.len(),
            fg == foreground(mask@, level),
            x <= width,
            links_ok(runs@),
            runs_ok(runs@, fg, w, base + x),
            old(runs)@.len() <= runs@.len(),
            forall|i: int| 0 <= i < old(runs)@.len() ==> runs@[i] == old(runs)@[i],
            forall|i: int|
                old(runs)@.len() <= i < runs@.len() ==> (#[trigger] runs@[i]).y == y
                    && runs@[i].parent == i,
            0 < x < width && fg[base + x] ==> !fg[base + x - 1],
        decreases width - x,
    {
        proof {
            reveal(runs_ok);
        }
        if !float_bits::at_least(mask[base + x], level) {
            proof {
                assert(!fg[base + x]);
                assert forall|i: int| 0 <= i < runs@.len() implies run_ok(
                    #[trigger] runs@[i],
                    fg,
                    w,
                    base + x + 1,
                ) by {
                    assert(run_ok(runs@[i], fg, w, base + x));
                }
            }
            x = x + 1;
            continue ;
        }
        let x0: usize = x;
        assert(fg[base + x0]);
        x = x + 1;
        while x < width && float_bits::at_least(mask[base + x], level)
            invariant
                base + width <= mask.len(),
                fg == foreground(mask@, level),
                x0 < x <= width,
                forall|p: int| base + x0 <= p < base + x ==> #[trigger] fg[p],
            decreases width - x,
        {
            assert(fg[base + x]);
            x = x + 1;
        }
        let ghost before = runs@;
        let run = Run { y, x0, x1: x - 1, parent: runs.len() };
        runs.push(run);
        proof {
            assert(lo(w, run) == base + x0 && hi(w, run) == base + x - 1);
            if x < width {
                assert(!fg[base + x]);
            }
            assert(run_ok(run, fg, w, base + x));
            assert forall|i: int| 0 <= i < runs@.len() implies run_ok(
                #[trigger] runs@[i],
                fg,
                w,
                base + x,
            ) by {
                if i < before.len() {
                    assert(run_ok(before[i], fg, w, base + x0));
                }
            }
            assert forall|i: int, j: int| 0 <= i < j < runs@.len() implies hi(
                w,
                #[trigger] runs@[i],
            ) < lo(w, #[trigger] runs@[j]) by {
                assert(run_ok(before[i], fg, w, base + x0));
            }
            assert forall|p: int| 0 <= p < base + x && #[trigger] fg[p] implies exists|i: int|
                covers(runs@, w, i, p) by {
                if p < base + x0 {
                    let i = choose|i: int| covers(before, w, i, p);
                    assert(covers(runs@, w, i, p));
                } else {
                    assert(covers(runs@, w, before.len() as int, p));
                }
            }
        }
    }
}

/// Joining two runs of one component keeps every run in the component of its
/// root, and keeps equal roots equal.
proof fn lemma_union_keeps(
    before: Seq<Run>,
    after: Seq<Run>,
    a: int,
    b: int,
    fg: Seq<bool>,
    w: int,
    upto: int,
)
    requires
        links_ok(before),
        0 <= a < before.len(),
        0 <= b < before.len(),
        same_shape(after, before),
        forall|j: int|
            0 <= j < before.len() ==> #[trigger] root(after, j) == joined(before, a, b, j),
        connected(fg, w, lo(w, before[a]), lo(w, before[b])),
        sound(before, fg, w),
        linked(before, upto),
    ensures
        sound(after, fg, w),
        linked(after, upto),
        root(after, a) == root(after, b),
{
    reveal(sound);
    reveal(linked);
    let ra = root(before, a);
    let rb = root(before, b);
    lemma_root_bounds(before, a);
    lemma_root_bounds(before, b);
    assert(connected(fg, w, lo(w, before[a]), lo(w, before[ra])));
    assert(connected(fg, w, lo(w, before[b]), lo(w, before[rb])));
    lemma_connected_sym(fg, w, lo(w, before[a]), lo(w, before[ra]));
    lemma_connected_trans(fg, w, lo(w, before[ra]), lo(w, before[a]), lo(w, before[b]));
    lemma_connected_trans(fg, w, lo(w, before[ra]), lo(w, before[b]), lo(w, before[rb]));
    lemma_connected_sym(fg, w, lo(w, before[ra]), lo(w, before[rb]));
    assert forall|i: int| 0 <= i < after.len() implies connected(
        fg,
        w,
        lo(w, #[trigger] after[i]),
        lo(w, after[root(after, i)]),
    ) by {
        let r = root(before, i);
        let s = root(after, i);
        lemma_root_bounds(before, i);
        assert(connected(fg, w, lo(w, before[i]), lo(w, before[r])));
        if s != r {
            lemma_connected_trans(fg, w, lo(w, before[i]), lo(w, before[r]), lo(w, before[s]));
        }
        assert(lo(w, after[s]) == lo(w, before[s]));
        assert(lo(w, after[i]) == lo(w, before[i]));
    }
    assert forall|i: int, j: int|
        0 <= i < after.len() && 0 <= j < upto && j < after.len() && (#[trigger] after[j]).y == (
        #[trigger] after[i]).y + 1 && overlap(after[i], after[j]) implies root(after, i) == root(
        after,
        j,
    ) by {
        assert(before[j].y == before[i].y + 1);
        assert(root(before, i) == root(before, j));
    }
}

/// Within one row a later run lies further right.
proof fn lemma_row_order(runs: Seq<Run>, fg: Seq<bool>, w: int, end: int, i: int, j: int)
    requires
        runs_ok(runs, fg, w, end),
        0 <= i < j < runs.len(),
        runs[i].y == runs[j].y,
    ensures
        runs[i].x1 < runs[j].x0,
        runs[i].x0 <= runs[i].x1,
        runs[j].x0 <= runs[j].x1,
{
    reveal(runs_ok);
    assert(hi(w, runs[i]) < lo(w, runs[j]));
    assert(run_ok(runs[i], fg, w, end));
    assert(run_ok(runs[j], fg, w, end));
}

proof fn lemma_run_ok(runs: Seq<Run>, fg: Seq<bool>, w: int, end: int, i: int)
    requires
        runs_ok(runs, fg, w, end),
        0 <= i < runs.len(),
    ensures
        run_ok(runs[i], fg, w, end),
{
    reveal(runs_ok);
}

/// Once run `ri` has the root of the runs `p..q` above it, and the rest of that
/// row ends before it or starts after it, the first `ri + 1` runs are linked.
proof fn lemma_linked_next(
    runs: Seq<Run>,
    prev_start: int,
    row_start: int,
    p: int,
    q: int,
    ri: int,
    fg: Seq<bool>,
    w: int,
    end: int,
)
    requires
        runs_ok(runs, fg, w, end),
        linked(runs, ri),
        0 <= prev_start <= p <= q <= row_start <= ri < runs.len(),
        forall|i: int| row_start <= i < runs.len() ==> (#[trigger] runs[i]).y == runs[ri].y,
        forall|i: int| prev_start <= i < row_start ==> (#[trigger] runs[i]).y + 1 == runs[ri].y,
        forall|i: int| 0 <= i < prev_start ==> (#[trigger] runs[i]).y + 1 < runs[ri].y,
        forall|i: int| prev_start <= i < p ==> (#[trigger] runs[i]).x1 < runs[ri].x0,
        forall|i: int| p <= i < q ==> #[trigger] root(runs, i) == root(runs, ri),
        q < row_start ==> runs[q].x0 > runs[ri].x1,
    ensures
        linked(runs, ri + 1),
{
    reveal(linked);
    assert forall|i: int, j: int|
        0 <= i < runs.len() && 0 <= j < ri + 1 && j < runs.len() && (#[trigger] runs[j]).y == (
        #[trigger] runs[i]).y + 1 && overlap(runs[i], runs[j]) implies root(runs, i) == root(
        runs,
        j,
    ) by {
        if j == ri {
            assert(prev_start <= i < row_start);
            if i >= p && i < q {
                assert(root(runs, i) == root(runs, ri));
            } else if q < i {
                lemma_row_order(runs, fg, w, end, q, i);
            }
        }
    }
}

/// Link each run from `row_start` on, all of row `y`, with the runs of the
/// previous row (`prev_start..row_start`) that it overlaps.  Both rows are
/// ordered by column, so one walk over the two suffices.
fn link_row(
    runs: &mut Vec<Run>,
    prev_start: usize,
    row_start: usize,
    Ghost(y): Ghost<int>,
    Ghost(fg): Ghost<Seq<bool>>,
    Ghost(w): Ghost<int>,
    Ghost(end): Ghost<int>,
)
    requires
        links_ok(old(runs)@),
        runs_ok(old(runs)@, fg, w, end),
        end <= fg.len(),
        prev_start <= row_start <= old(runs)@.len(),
        forall|i: int| row_start <= i < old(runs)@.len() ==> (#[trigger] old(runs)@[i]).y == y,
        forall|i: int| prev_start <= i < row_start ==> (#[trigger] old(runs)@[i]).y + 1 == y,
        forall|i: int| 0 <= i < prev_start ==> (#[trigger] old(runs)@[i]).y + 1 < y,
        linked(old(runs)@, row_start as int),
        sound(old(runs)@, fg, w),
    ensures
        links_ok(final(runs)@),
        same_shape(final(runs)@, old(runs)@),
        linked(final(runs)@, final(runs)@.len() as int),
        sound(final(runs)@, fg, w),
{
    let count: usize = runs.len();
    let mut p: usize = prev_start;
    let mut ri: usize = row_start;
    while ri < count
        invariant
            count == runs@.len(),
            links_ok(runs@),
            same_shape(runs@, old(runs)@),
            runs_ok(old(runs)@, fg, w, end),
            runs_ok(runs@, fg, w, end),
            end <= fg.len(),
            prev_start <= p <= row_start <= ri <= count,
            forall|i: int| row_start <= i < runs@.len() ==> (#[trigger] runs@[i]).y == y,
            forall|i: int| prev_start <= i < row_start ==> (#[trigger] runs@[i]).y + 1 == y,
            forall|i: int| 0 <= i < prev_start ==> (#[trigger] runs@[i]).y + 1 < y,
            linked(runs@, ri as int),
            sound(runs@, fg, w),
            forall|i: int, j: int|
                prev_start <= i < p && ri <= j < count ==> (#[trigger] runs@[i]).x1 < (
                #[trigger] runs@[j]).x0,
        decreases count - ri,
    {
        let x0: usize = runs[ri].x0;
        let x1: usize = runs[ri].x1;
        // Skip previous-row runs that end before this one starts.
        while p < row_start && runs[p].x1 < x0
            invariant
                count == runs@.len(),
                runs_ok(runs@, fg, w, end),
                prev_start <= p <= row_start <= ri < count,
                x0 == runs@[ri as int].x0,
                forall|i: int| row_start <= i < runs@.len() ==> (#[trigger] runs@[i]).y == y,
                forall|i: int, j: int|
                    prev_start <= i < p && ri <= j < count ==> (#[trigger] runs@[i]).x1 < (
                    #[trigger] runs@[j]).x0,
            decreases row_start - p,
        {
            proof {
                assert forall|j: int| ri <= j < count implies runs@[p as int].x1 < (
                #[trigger] runs@[j]).x0 by {
                    if j != ri {
                        lemma_row_order(runs@, fg, w, end, ri as int, j);
                    }
                }
            }
            p = p + 1;
        }
        // Every previous-row run that starts before this one ends overlaps
        // it.  `p` stays: the last of them may also overlap the next run.
        let mut q: usize = p;
        while q < row_start && runs[q].x0 <= x1
            invariant
                count == runs@.len(),
                links_ok(runs@),
                same_shape(runs@, old(runs)@),
                runs_ok(old(runs)@, fg, w, end),
                runs_ok(runs@, fg, w, end),
                end <= fg.len(),
                prev_start <= p <= q <= row_start <= ri < count,
                x0 == runs@[ri as int].x0,
                x1 == runs@[ri as int].x1,
                p < row_start ==> runs@[p as int].x1 >= x0,
                forall|i: int| row_start <= i < runs@.len() ==> (#[trigger] runs@[i]).y == y,
                forall|i: int| prev_start <= i < row_start ==> (#[trigger] runs@[i]).y + 1 == y,
                forall|i: int| 0 <= i < prev_start ==> (#[trigger] runs@[i]).y + 1 < y,
                linked(runs@, ri as int),
                sound(runs@, fg, w),
                forall|i: int, j: int|
                    prev_start <= i < p && ri <= j < count ==> (#[trigger] runs@[i]).x1 < (
                    #[trigger] runs@[j]).x0,
                forall|i: int|
                    p <= i < q ==> #[trigger] root(runs@, i) == root(runs@, ri as int),
            decreases row_start - q,
        {
            let ghost before = runs@;
            proof {
                if p < q {
                    lemma_row_order(before, fg, w, end, p as int, q as int);
                }
                lemma_run_ok(before, fg, w, end, q as int);
                lemma_run_ok(before, fg, w, end, ri as int);
                assert(overlap(before[q as int], before[ri as int]));
                lemma_overlap_connected(before[q as int], before[ri as int], fg, w, end);
                lemma_connected_sym(
                    fg,
                    w,
                    lo(w, before[q as int]),
                    lo(w, before[ri as int]),
                );
            }
            union_runs(runs, ri, q);
            proof {
                lemma_union_keeps(before, runs@, ri as int, q as int, fg, w, ri as int);
                lemma_shape_keeps_runs_ok(before, runs@, fg, w, end);
                assert forall|i: int| p <= i < q + 1 implies #[trigger] root(runs@, i) == root(
                    runs@,
                    ri as int,
                ) by {
                    if i < q {
                        assert(root(before, i) == root(before, ri as int));
                    }
                }
            }
            q = q + 1;
        }
        proof {
            lemma_linked_next(
                runs@,
                prev_start as int,
                row_start as int,
                p as int,
                q as int,
                ri as int,
                fg,
                w,
                end,
            );
        }
        ri = ri + 1;
    }
}

/// Appending runs that are their own parents changes no earlier root.
proof fn lemma_root_prefix(before: Seq<Run>, after: Seq<Run>, i: int)
    requires
        links_ok(before),
        before.len() <= after.len(),
        forall|k: int| 0 <= k < before.len() ==> after[k] == before[k],
        0 <= i < before.len(),
    ensures
        root(after, i) == root(before, i),
    decreases i,
{
    assert(after[i] == before[i]);
    if before[i].parent < i {
        lemma_root_prefix(before, after, before[i].parent as int);
    }
}

/// Appending the runs of row `y` keeps the earlier rows linked and sound.
proof fn lemma_append_keeps(
    before: Seq<Run>,
    after: Seq<Run>,
    fg: Seq<bool>,
    w: int,
    end: int,
    y: int,
)
    requires
        links_ok(before),
        links_ok(after),
        before.len() <= after.len(),
        forall|i: int| 0 <= i < before.len() ==> after[i] == before[i],
        forall|i: int| 0 <= i < before.len() ==> (#[trigger] before[i]).y < y,
        forall|i: int|
            before.len() <= i < after.len() ==> (#[trigger] after[i]).y == y && after[i].parent
                == i,
        runs_ok(after, fg, w, end),
        end <= fg.len(),
        linked(before, before.len() as int),
        sound(before, fg, w),
    ensures
        linked(after, before.len() as int),
        sound(after, fg, w),
{
    reveal(linked);
    reveal(sound);
    assert forall|i: int| 0 <= i < after.len() implies connected(
        fg,
        w,
        lo(w, #[trigger] after[i]),
        lo(w, after[root(after, i)]),
    ) by {
        if i < before.len() {
            lemma_root_prefix(before, after, i);
            lemma_root_bounds(before, i);
            assert(connected(fg, w, lo(w, before[i]), lo(w, before[root(before, i)])));
        } else {
            lemma_run_ok(after, fg, w, end, i);
            assert(fg[lo(w, after[i])]);
            lemma_connected_refl(fg, w, lo(w, after[i]));
        }
    }
    assert forall|i: int, j: int|
        0 <= i < after.len() && 0 <= j < before.len() && j < after.len() && (
        #[trigger] after[j]).y == (#[trigger] after[i]).y + 1 && overlap(
            after[i],
            after[j],
        ) implies root(after, i) == root(after, j) by {
        assert(before[j].y < y);
        if i < before.len() {
            lemma_root_prefix(before, after, i);
            lemma_root_prefix(before, after, j);
            assert(root(before, i) == root(before, j));
        }
    }
}

/// Whether `runs` are the foreground runs of the whole mask, with two runs
/// under one root exactly when their pixels are connected.
spec fn labelled(runs: Seq<Run>, fg: Seq<bool>, w: int) -> bool {
    &&& links_ok(runs)
    &&& runs_ok(runs, fg, w, fg.len() as int)
    &&& linked(runs, runs.len() as int)
    &&& sound(runs, fg, w)
}

/// Split every row into foreground runs and link each run with the runs of the
/// previous row it overlaps.
fn label(mask: &[u32], level: u32, width: usize, height: usize, runs: &mut Vec<Run>)
    requires
        width > 0,
        mask@.len() == width * height,
    ensures
        labelled(final(runs)@, foreground(mask@, level), width as int),
{
    let ghost fg = foreground(mask@, level);
    let ghost w = width as int;
    runs.clear();
    let mut prev_start: usize = 0;
    let mut y: usize = 0;
    let mut base: usize = 0;
    proof {
        reveal(runs_ok);
        reveal(linked);
        reveal(sound);
    }
    while y < height
        invariant
            width > 0,
            w == width,
            mask.len() == width * height,
            fg == foreground(mask@, level),
            y <= height,
            base == y * width,
            links_ok(runs@),
            runs_ok(runs@, fg, w, base as int),
            linked(runs@, runs@.len() as int),
            sound(runs@, fg, w),
            prev_start <= runs@.len(),
            forall|i: int| prev_start <= i < runs@.len() ==> (#[trigger] runs@[i]).y + 1 == y,
            forall|i: int| 0 <= i < prev_start ==> (#[trigger] runs@[i]).y + 1 < y,
        decreases height - y,
    {
        proof {
            lemma_rows(w, y as int, height as int);
            assert(height * width == width * height) by (nonlinear_arith);
        }
        let row_start: usize = runs.len();
        let ghost before = runs@;
        collect_row(mask, level, width, y, base, runs);
        proof {
            lemma_append_keeps(before, runs@, fg, w, base + width, y as int);
            assert forall|i: int| prev_start <= i < row_start implies (#[trigger] runs@[i]).y + 1
                == y by {
                assert(runs@[i] == before[i]);
            }
            assert forall|i: int| 0 <= i < prev_start implies (#[trigger] runs@[i]).y + 1
                < y by {
                assert(runs@[i] == before[i]);
            }
        }
        let ghost collected = runs@;
        link_row(
            runs,
            prev_start,
            row_start,
            Ghost(y as int),
            Ghost(fg),
            Ghost(w),
            Ghost(base + width),
        );
        proof {
            lemma_shape_keeps_runs_ok(collected, runs@, fg, w, base + width);
            assert((y + 1) * width == y * width + width) by (nonlinear_arith);
        }
        prev_start = row_start;
        y = y + 1;
        base = base + width;
    }
    assert(base == fg.len()) by (nonlinear_arith)
        requires
            base == y * width,
            y == height,
            fg.len() == width * height,
    ;
}

// ---------------------------------------------------------------------------
// Runs and components
// ---------------------------------------------------------------------------

/// The run that holds foreground pixel `p`.
spec fn run_of(runs: Seq<Run>, w: int, p: int) -> int {
    choose|i: int| covers(runs, w, i, p)
}

proof fn lemma_run_of(runs: Seq<Run>, fg: Seq<bool>, w: int, p: int)
    requires
        runs_ok(runs, fg, w, fg.len() as int),
        0 <= p < fg.len(),
        fg[p],
    ensures
        covers(runs, w, run_of(runs, w, p), p),
{
    reveal(runs_ok);
}

/// A pixel lies in one run only.
proof fn lemma_run_unique(runs: Seq<Run>, fg: Seq<bool>, w: int, i: int, j: int, p: int)
    requires
        runs_ok(runs, fg, w, fg.len() as int),
        covers(runs, w, i, p),
        covers(runs, w, j, p),
    ensures
        i == j,
{
    reveal(runs_ok);
    if i < j {
        assert(hi(w, runs[i]) < lo(w, runs[j]));
    } else if j < i {
        assert(hi(w, runs[j]) < lo(w, runs[i]));
    }
}

/// Adjacent foreground pixels lie in runs of one root.
proof fn lemma_adjacent_same_root(
    runs: Seq<Run>,
    fg: Seq<bool>,
    w: int,
    p: int,
    q: int,
    i: int,
    j: int,
)
    requires
        labelled(runs, fg, w),
        0 < w,
        covers(runs, w, i, p),
        covers(runs, w, j, q),
        adjacent(w, p, q),
        q == p + 1 || q == p + w,
    ensures
        root(runs, i) == root(runs, j),
{
    let end = fg.len() as int;
    let a = runs[i];
    let b = runs[j];
    lemma_run_ok(runs, fg, w, end, i);
    lemma_run_ok(runs, fg, w, end, j);
    let x = p - a.y * w;
    let z = q - b.y * w;
    lemma_pixel(w, a.y as int, x);
    lemma_pixel(w, b.y as int, z);
    if q == p + w {
        assert(q == (a.y + 1) * w + x) by (nonlinear_arith)
            requires
                q == p + w,
                x == p - a.y * w,
        ;
        lemma_pixel(w, a.y + 1, x);
        assert(b.y == a.y + 1 && z == x);
        assert(overlap(a, b));
        reveal(linked);
        assert(runs[j].y == runs[i].y + 1);
    } else {
        if p < hi(w, a) {
            assert(covers(runs, w, i, q));
            lemma_run_unique(runs, fg, w, i, j, q);
        } else {
            if a.x1 + 1 < w {
                assert(!fg[hi(w, a) + 1]);
                assert(fg[q]);
            } else {
                assert(q == (a.y + 1) * w + 0) by (nonlinear_arith)
                    requires
                        q == p + 1,
                        p == a.y * w + a.x1,
                        a.x1 + 1 == w,
                ;
                lemma_pixel(w, a.y + 1, 0);
                assert(w == 1 || q % w == 0);
            }
        }
    }
}

/// Connected pixels lie in runs of one root.
proof fn lemma_path_same_root(
    runs: Seq<Run>,
    fg: Seq<bool>,
    w: int,
    path: Seq<int>,
    i: int,
    j: int,
)
    requires
        labelled(runs, fg, w),
        0 < w,
        is_path(fg, w, path),
        covers(runs, w, i, path[0]),
        covers(runs, w, j, path.last()),
    ensures
        root(runs, i) == root(runs, j),
    decreases path.len(),
{
    if path.len() == 1 {
        lemma_run_unique(runs, fg, w, i, j, path[0]);
    } else {
        let init = path.drop_last();
        let p = init.last();
        let q = path.last();
        assert(is_path(fg, w, init)) by {
            assert forall|k: int| 0 <= k < init.len() implies 0 <= #[trigger] init[k] < fg.len()
                && fg[init[k]] by {
                assert(init[k] == path[k]);
            }
            assert forall|k: int, l: int| 0 <= k && l == k + 1 && l < init.len() implies adjacent(
                w,
                #[trigger] init[k],
                #[trigger] init[l],
            ) by {
                assert(init[k] == path[k] && init[l] == path[l]);
            }
        }
        assert(p == path[path.len() - 2] && q == path[path.len() - 1]);
        assert(adjacent(w, p, q));
        assert(fg[p]);
        lemma_run_of(runs, fg, w, p);
        let m = run_of(runs, w, p);
        lemma_path_same_root(runs, fg, w, init, i, m);
        if q == p + 1 || q == p + w {
            lemma_adjacent_same_root(runs, fg, w, p, q, m, j);
        } else {
            lemma_adjacent_same_root(runs, fg, w, q, p, j, m);
        }
    }
}

/// Two pixels are connected exactly when their runs have one root.
proof fn lemma_connected_iff_root(
    runs: Seq<Run>,
    fg: Seq<bool>,
    w: int,
    p: int,
    q: int,
    i: int,
    j: int,
)
    requires
        labelled(runs, fg, w),
        0 < w,
        covers(runs, w, i, p),
        covers(runs, w, j, q),
    ensures
        connected(fg, w, p, q) <==> root(runs, i) == root(runs, j),
{
    if connected(fg, w, p, q) {
        let path = choose|path: Seq<int>| leads(fg, w, path, p, q);
        lemma_path_same_root(runs, fg, w, path, i, j);
    }
    if root(runs, i) == root(runs, j) {
        let end = fg.len() as int;
        let r = root(runs, i);
        reveal(sound);
        lemma_run_ok(runs, fg, w, end, i);
        lemma_run_ok(runs, fg, w, end, j);
        lemma_run_connected(runs[i], fg, w, end, p);
        lemma_run_connected(runs[j], fg, w, end, q);
        let a = lo(w, runs[i]);
        let b = lo(w, runs[j]);
        let c = lo(w, runs[r]);
        assert(connected(fg, w, a, c));
        assert(connected(fg, w, b, c));
        lemma_connected_sym(fg, w, a, p);
        lemma_connected_sym(fg, w, b, c);
        lemma_connected_trans(fg, w, p, a, c);
        lemma_connected_trans(fg, w, p, c, b);
        lemma_connected_trans(fg, w, p, b, q);
    }
}

// ---------------------------------------------------------------------------
// Component sizes
// ---------------------------------------------------------------------------

/// Pixels of the first `k` runs whose root is `r`.
spec fn pixels_of(runs: Seq<Run>, w: int, k: int, r: int) -> Set<int> {
    Set::new(|p: int| exists|i: int| i < k && root(runs, i) == r && covers(runs, w, i, p))
}

/// Number of pixels of the first `k` runs whose root is `r`.
spec fn size_upto(runs: Seq<Run>, k: int, r: int) -> int
    decreases k,
{
    if k <= 0 {
        0
    } else {
        size_upto(runs, k - 1, r) + (if root(runs, k - 1) == r {
            runs[k - 1].x1 - runs[k - 1].x0 + 1
        } else {
            0
        })
    }
}

/// The count of pixels of a root is the cardinality of their set.
proof fn lemma_pixels_counted(runs: Seq<Run>, fg: Seq<bool>, w: int, k: int, r: int)
    requires
        runs_ok(runs, fg, w, fg.len() as int),
        0 <= k <= runs.len(),
    ensures
        pixels_of(runs, w, k, r).finite(),
        pixels_of(runs, w, k, r).len() == size_upto(runs, k, r),
    decreases k,
{
    let all = pixels_of(runs, w, k, r);
    if k == 0 {
        assert(all =~= Set::<int>::empty());
    } else {
        let run = runs[k - 1];
        let rest = pixels_of(runs, w, k - 1, r);
        lemma_pixels_counted(runs, fg, w, k - 1, r);
        lemma_run_ok(runs, fg, w, fg.len() as int, k - 1);
        if root(runs, k - 1) == r {
            let here = set_lib::set_int_range(lo(w, run), hi(w, run) + 1);
            set_lib::lemma_int_range(lo(w, run), hi(w, run) + 1);
            assert(all =~= rest.union(here)) by {
                assert forall|p: int| #[trigger] all.contains(p) implies rest.union(here).contains(
                    p,
                ) by {
                    let i = choose|i: int|
                        i < k && root(runs, i) == r && covers(runs, w, i, p);
                    if i < k - 1 {
                        assert(i < k - 1 && root(runs, i) == r && covers(runs, w, i, p));
                    }
                }
                assert forall|p: int| #[trigger] rest.union(here).contains(p) implies all.contains(
                    p,
                ) by {
                    if here.contains(p) {
                        assert(k - 1 < k && root(runs, k - 1) == r && covers(runs, w, k - 1, p));
                    } else {
                        let i = choose|i: int|
                            i < k - 1 && root(runs, i) == r && covers(runs, w, i, p);
                        assert(i < k && root(runs, i) == r && covers(runs, w, i, p));
                    }
                }
            }
            assert(rest.disjoint(here)) by {
                assert forall|p: int| #[trigger] rest.contains(p) implies !here.contains(p) by {
                    let i = choose|i: int|
                        i < k - 1 && root(runs, i) == r && covers(runs, w, i, p);
                    if here.contains(p) {
                        assert(covers(runs, w, k - 1, p));
                        lemma_run_unique(runs, fg, w, i, k - 1, p);
                    }
                }
            }
            set_lib::lemma_set_disjoint_lens(rest, here);
        } else {
            assert(all =~= rest) by {
                assert forall|p: int| #[trigger] all.contains(p) implies rest.contains(p) by {
                    let i = choose|i: int|
                        i < k && root(runs, i) == r && covers(runs, w, i, p);
                    assert(i < k - 1 && root(runs, i) == r && covers(runs, w, i, p));
                }
                assert forall|p: int| #[trigger] rest.contains(p) implies all.contains(p) by {
                    let i = choose|i: int|
                        i < k - 1 && root(runs, i) == r && covers(runs, w, i, p);
                    assert(i < k && root(runs, i) == r && covers(runs, w, i, p));
                }
            }
        }
    }
}

/// A component consists of the pixels of the runs that share its root.
proof fn lemma_component_pixels(runs: Seq<Run>, fg: Seq<bool>, w: int, p: int, i: int)
    requires
        labelled(runs, fg, w),
        0 < w,
        covers(runs, w, i, p),
    ensures
        component(fg, w, p).len() == size_upto(runs, runs.len() as int, root(runs, i)),
        component(fg, w, p).finite(),
{
    let n = runs.len() as int;
    let c = component(fg, w, p);
    let d = pixels_of(runs, w, n, root(runs, i));
    assert(c =~= d) by {
        assert forall|q: int| #[trigger] c.contains(q) implies d.contains(q) by {
            lemma_connected_ends(fg, w, p, q);
            lemma_run_of(runs, fg, w, q);
            let j = run_of(runs, w, q);
            lemma_connected_iff_root(runs, fg, w, p, q, i, j);
            assert(j < n && root(runs, j) == root(runs, i) && covers(runs, w, j, q));
        }
        assert forall|q: int| #[trigger] d.contains(q) implies c.contains(q) by {
            let j = choose|j: int|
                j < n && root(runs, j) == root(runs, i) && covers(runs, w, j, q);
            lemma_connected_iff_root(runs, fg, w, p, q, i, j);
        }
    }
    lemma_pixels_counted(runs, fg, w, n, root(runs, i));
}

/// The counts of the first `k` runs stay below the end of the last of them.
proof fn lemma_size_bound(runs: Seq<Run>, fg: Seq<bool>, w: int, k: int, r: int)
    requires
        runs_ok(runs, fg, w, fg.len() as int),
        0 <= k <= runs.len(),
    ensures
        0 <= size_upto(runs, k, r),
        k > 0 ==> size_upto(runs, k, r) <= hi(w, runs[k - 1]) + 1,
    decreases k,
{
    if k > 0 {
        lemma_size_bound(runs, fg, w, k - 1, r);
        lemma_run_ok(runs, fg, w, fg.len() as int, k - 1);
        if k > 1 {
            reveal(runs_ok);
            assert(hi(w, runs[k - 2]) < lo(w, runs[k - 1]));
        }
    }
}

/// The count of a root that holds run `i` is at least the length of the run.
proof fn lemma_size_positive(runs: Seq<Run>, fg: Seq<bool>, w: int, k: int, i: int)
    requires
        runs_ok(runs, fg, w, fg.len() as int),
        0 <= i < k <= runs.len(),
    ensures
        size_upto(runs, k, root(runs, i)) > 0,
    decreases k,
{
    lemma_size_bound(runs, fg, w, k - 1, root(runs, i));
    lemma_run_ok(runs, fg, w, fg.len() as int, k - 1);
    if i < k - 1 {
        lemma_size_positive(runs, fg, w, k - 1, i);
    }
}

/// Counts depend on the shapes and roots of the runs only.
proof fn lemma_size_shape(a: Seq<Run>, b: Seq<Run>, k: int, r: int)
    requires
        same_shape(b, a),
        0 <= k <= a.len(),
        forall|j: int| 0 <= j < a.len() ==> #[trigger] root(b, j) == root(a, j),
    ensures
        size_upto(b, k, r) == size_upto(a, k, r),
    decreases k,
{
    if k > 0 {
        lemma_size_shape(a, b, k - 1, r);
        assert(root(b, k - 1) == root(a, k - 1));
        assert(b[k - 1].x0 == a[k - 1].x0 && b[k - 1].x1 == a[k - 1].x1);
    }
}

/// A root with a positive count is the root of one of the counted runs.
proof fn lemma_counted_root(runs: Seq<Run>, k: int, r: int) -> (i: int)
    requires
        0 <= k <= runs.len(),
        size_upto(runs, k, r) > 0,
    ensures
        0 <= i < k,
        root(runs, i) == r,
    decreases k,
{
    if root(runs, k - 1) == r {
        k - 1
    } else {
        lemma_counted_root(runs, k - 1, r)
    }
}

/// Labelling survives a change of parents that keeps every root.
proof fn lemma_labelled_shape(a: Seq<Run>, b: Seq<Run>, fg: Seq<bool>, w: int)
    requires
        labelled(a, fg, w),
        links_ok(b),
        same_shape(b, a),
        forall|j: int| 0 <= j < a.len() ==> #[trigger] root(b, j) == root(a, j),
    ensures
        labelled(b, fg, w),
{
    lemma_shape_keeps_runs_ok(a, b, fg, w, fg.len() as int);
    reveal(linked);
    reveal(sound);
    assert forall|i: int, j: int|
        0 <= i < b.len() && 0 <= j < b.len() && (#[trigger] b[j]).y == (#[trigger] b[i]).y + 1
            && overlap(b[i], b[j]) implies root(b, i) == root(b, j) by {
        assert(a[j].y == a[i].y + 1);
        assert(root(b, i) == root(a, i) && root(b, j) == root(a, j));
    }
    assert forall|i: int| 0 <= i < b.len() implies connected(
        fg,
        w,
        lo(w, #[trigger] b[i]),
        lo(w, b[root(b, i)]),
    ) by {
        lemma_root_bounds(a, i);
        assert(connected(fg, w, lo(w, a[i]), lo(w, a[root(a, i)])));
        assert(root(b, i) == root(a, i));
        assert(lo(w, b[root(a, i)]) == lo(w, a[root(a, i)]));
    }
}

/// Count the pixels of every component, by root.
fn component_sizes(
    runs: &mut Vec<Run>,
    sizes: &mut Vec<usize>,
    Ghost(fg): Ghost<Seq<bool>>,
    Ghost(w): Ghost<int>,
)
    requires
        labelled(old(runs)@, fg, w),
        fg.len() <= usize::MAX,
    ensures
        labelled(final(runs)@, fg, w),
        same_shape(final(runs)@, old(runs)@),
        forall|j: int|
            0 <= j < old(runs)@.len() ==> #[trigger] root(final(runs)@, j) == root(old(runs)@, j),
        final(sizes)@.len() == final(runs)@.len(),
        forall|r: int|
            0 <= r < final(sizes)@.len() ==> #[trigger] final(sizes)@[r] == size_upto(
                final(runs)@,
                final(runs)@.len() as int,
                r,
            ),
{
    sizes.clear();
    sizes.resize(runs.len(), 0);
    let ghost n = runs@.len() as int;
    let mut ri: usize = 0;
    while ri < runs.len()
        invariant
            n == runs@.len(),
            n == old(runs)@.len(),
            ri <= n,
            labelled(old(runs)@, fg, w),
            labelled(runs@, fg, w),
            fg.len() <= usize::MAX,
            same_shape(runs@, old(runs)@),
            forall|j: int|
                0 <= j < old(runs)@.len() ==> #[trigger] root(runs@, j) == root(old(runs)@, j),
            sizes@.len() == n,
            forall|r: int|
                0 <= r < n ==> #[trigger] sizes@[r] == size_upto(old(runs)@, ri as int, r),
        decreases n - ri,
    {
        let ghost before = runs@;
        let root_index: usize = find_root(runs, ri);
        proof {
            assert forall|j: int| 0 <= j < old(runs)@.len() implies #[trigger] root(runs@, j)
                == root(old(runs)@, j) by {
                assert(root(before, j) == root(old(runs)@, j));
            }
            lemma_labelled_shape(before, runs@, fg, w);
            lemma_root_bounds(old(runs)@, ri as int);
            assert(root_index == root(old(runs)@, ri as int)) by {
                assert(root(before, ri as int) == root(old(runs)@, ri as int));
            }
            lemma_size_bound(old(runs)@, fg, w, ri + 1, root_index as int);
            lemma_size_bound(old(runs)@, fg, w, ri as int, root_index as int);
            lemma_run_ok(old(runs)@, fg, w, fg.len() as int, ri as int);
            assert(runs@[ri as int].x0 == old(runs)@[ri as int].x0);
            assert(runs@[ri as int].x1 == old(runs)@[ri as int].x1);
        }
        let length: usize = runs[ri].x1 - runs[ri].x0 + 1;
        sizes[root_index] = sizes[root_index] + length;
        ri = ri + 1;
    }
    proof {
        assert forall|r: int| 0 <= r < sizes@.len() implies #[trigger] sizes@[r] == size_upto(
            runs@,
            runs@.len() as int,
            r,
        ) by {
            lemma_size_shape(old(runs)@, runs@, n, r);
        }
    }
}

/// Index of the first largest entry, if any entry is positive.
fn largest_index(sizes: &Vec<usize>) -> (r: Option<usize>)
    ensures
        match r {
            None => forall|i: int| 0 <= i < sizes@.len() ==> sizes@[i] == 0,
            Some(r) => {
                &&& r < sizes@.len()
                &&& sizes@[r as int] > 0
                &&& forall|i: int|
                    0 <= i < sizes@.len() ==> {
                        ||| #[trigger] sizes@[i] < sizes@[r as int]
                        ||| sizes@[i] == sizes@[r as int] && r <= i
                    }
            },
        },
{
    let mut winner: Option<usize> = None;
    let mut largest: usize = 0;
    let mut i: usize = 0;
    while i < sizes.len()
        invariant
            i <= sizes@.len(),
            match winner {
                None => largest == 0 && forall|k: int| 0 <= k < i ==> sizes@[k] == 0,
                Some(r) => {
                    &&& r < i
                    &&& sizes@[r as int] == largest
                    &&& largest > 0
                    &&& forall|k: int|
                        0 <= k < i ==> {
                            ||| #[trigger] sizes@[k] < largest
                            ||| sizes@[k] == largest && r <= k
                        }
                },
            },
        decreases sizes@.len() - i,
    {
        if sizes[i] > largest {
            largest = sizes[i];
            winner = Some(i);
        }
        i = i + 1;
    }
    winner
}

// ---------------------------------------------------------------------------
// Rewriting the mask
// ---------------------------------------------------------------------------

/// No foreground run means no largest component; otherwise the first pixel of
/// the root with the first largest count is the winner.
proof fn lemma_winner(
    runs: Seq<Run>,
    sizes: Seq<usize>,
    winner: Option<usize>,
    fg: Seq<bool>,
    w: int,
)
    requires
        labelled(runs, fg, w),
        0 < w,
        sizes.len() == runs.len(),
        forall|r: int|
            0 <= r < sizes.len() ==> #[trigger] sizes[r] == size_upto(runs, runs.len() as int, r),
        match winner {
            None => forall|i: int| 0 <= i < sizes.len() ==> sizes[i] == 0,
            Some(r) => {
                &&& r < sizes.len()
                &&& sizes[r as int] > 0
                &&& forall|i: int|
                    0 <= i < sizes.len() ==> {
                        ||| #[trigger] sizes[i] < sizes[r as int]
                        ||| sizes[i] == sizes[r as int] && r <= i
                    }
            },
        },
    ensures
        winner is None ==> runs.len() == 0,
        winner matches Some(r) ==> is_winner(fg, w, lo(w, runs[r as int])) && root(
            runs,
            r as int,
        ) == r,
{
    let n = runs.len() as int;
    match winner {
        None => {
            if n > 0 {
                lemma_size_positive(runs, fg, w, n, 0);
                lemma_root_bounds(runs, 0);
                assert(sizes[root(runs, 0)] == 0);
            }
        },
        Some(r) => {
            let r = r as int;
            let member = lemma_counted_root(runs, n, r);
            lemma_root_bounds(runs, member);
            lemma_run_ok(runs, fg, w, fg.len() as int, r);
            let seed = lo(w, runs[r]);
            assert(fg[seed]);
            assert(covers(runs, w, r, seed));
            lemma_component_pixels(runs, fg, w, seed, r);
            assert forall|q: int| 0 <= q < fg.len() && #[trigger] fg[q] implies {
                ||| component(fg, w, q).len() < component(fg, w, seed).len()
                ||| component(fg, w, q).len() == component(fg, w, seed).len() && seed <= q
            } by {
                lemma_run_of(runs, fg, w, q);
                let j = run_of(runs, w, q);
                lemma_root_bounds(runs, j);
                let s = root(runs, j);
                lemma_component_pixels(runs, fg, w, q, j);
                assert(sizes[s] < sizes[r] || sizes[s] == sizes[r] && r <= s);
                if r <= s {
                    reveal(runs_ok);
                    lemma_run_ok(runs, fg, w, fg.len() as int, s);
                    if r < s {
                        assert(hi(w, runs[r]) < lo(w, runs[s]));
                    }
                    if s < j {
                        assert(hi(w, runs[s]) < lo(w, runs[j]));
                    }
                }
            }
        },
    }
}

/// At most one pixel is the first of the largest component.
proof fn lemma_winner_unique(fg: Seq<bool>, w: int, a: int, b: int)
    requires
        is_winner(fg, w, a),
        is_winner(fg, w, b),
    ensures
        a == b,
{
    assert(fg[a] && fg[b]);
}

/// A pixel of run `i` is kept exactly when the root of the run has won.
proof fn lemma_in_largest(
    runs: Seq<Run>,
    winner: Option<usize>,
    fg: Seq<bool>,
    w: int,
    p: int,
    i: int,
)
    requires
        labelled(runs, fg, w),
        0 < w,
        covers(runs, w, i, p),
        winner is None ==> runs.len() == 0,
        winner matches Some(r) ==> r < runs.len() && is_winner(fg, w, lo(w, runs[r as int]))
            && root(runs, r as int) == r,
    ensures
        in_largest(fg, w, p) <==> winner == Some(root(runs, i) as usize) && root(runs, i)
            <= usize::MAX,
{
    let r = winner->0 as int;
    let seed = lo(w, runs[r]);
    lemma_run_ok(runs, fg, w, fg.len() as int, r);
    assert(covers(runs, w, r, seed));
    lemma_connected_iff_root(runs, fg, w, seed, p, r, i);
    lemma_root_bounds(runs, i);
    if in_largest(fg, w, p) {
        let other = choose|s: int| #[trigger] is_winner(fg, w, s) && connected(fg, w, s, p);
        lemma_winner_unique(fg, w, seed, other);
    }
}

/// Set the pixels `from..to` to zero.
fn clear_span(mask: &mut [u32], from: usize, to: usize)
    requires
        from <= to <= old(mask)@.len(),
    ensures
        final(mask)@.len() == old(mask)@.len(),
        forall|p: int| from <= p < to ==> final(mask)@[p] == float_bits::ZERO,
        forall|p: int|
            0 <= p < old(mask)@.len() && !(from <= p < to) ==> final(mask)@[p] == old(mask)@[p],
{
    let mut p: usize = from;
    while p < to
        invariant
            from <= p <= to <= mask@.len(),
            mask@.len() == old(mask)@.len(),
            forall|q: int| from <= q < p ==> mask@[q] == float_bits::ZERO,
            forall|q: int|
                0 <= q < mask@.len() && !(from <= q < p) ==> mask@[q] == old(mask)@[q],
        decreases to - p,
    {
        mask[p] = float_bits::ZERO;
        p = p + 1;
    }
}

/// Set every pixel outside the winner's runs to zero.
fn keep_winner(
    mask: &mut [u32],
    width: usize,
    runs: &mut Vec<Run>,
    winner: Option<usize>,
    Ghost(fg): Ghost<Seq<bool>>,
)
    requires
        labelled(old(runs)@, fg, width as int),
        0 < width,
        fg.len() == old(mask)@.len(),
        winner is None ==> old(runs)@.len() == 0,
        winner matches Some(r) ==> r < old(runs)@.len() && is_winner(
            fg,
            width as int,
            lo(width as int, old(runs)@[r as int]),
        ) && root(old(runs)@, r as int) == r,
    ensures
        final(mask)@.len() == old(mask)@.len(),
        forall|p: int|
            0 <= p < old(mask)@.len() ==> #[trigger] final(mask)@[p] == (if in_largest(
                fg,
                width as int,
                p,
            ) {
                old(mask)@[p]
            } else {
                float_bits::ZERO
            }),
{
    let ghost w = width as int;
    let ghost start = runs@;
    let total: usize = mask.len();
    let count: usize = runs.len();
    let mut cursor: usize = 0;
    let mut ri: usize = 0;
    while ri < count
        invariant
            w == width,
            0 < width,
            start == old(runs)@,
            count == runs@.len(),
            count == start.len(),
            ri <= count,
            total == mask@.len(),
            total == old(mask)@.len(),
            fg.len() == total,
            cursor <= total,
            labelled(start, fg, w),
            links_ok(runs@),
            same_shape(runs@, start),
            forall|j: int| 0 <= j < start.len() ==> #[trigger] root(runs@, j) == root(start, j),
            winner is None ==> start.len() == 0,
            winner matches Some(r) ==> r < start.len() && is_winner(
                fg,
                w,
                lo(w, start[r as int]),
            ) && root(start, r as int) == r,
            cursor == (if ri == 0 {
                0
            } else {
                hi(w, start[ri - 1]) + 1
            }),
            forall|p: int| cursor <= p < total ==> mask@[p] == old(mask)@[p],
            forall|p: int|
                0 <= p < cursor ==> #[trigger] mask@[p] == (if in_largest(fg, w, p) {
                    old(mask)@[p]
                } else {
                    float_bits::ZERO
                }),
        decreases count - ri,
    {
        proof {
            lemma_run_ok(start, fg, w, fg.len() as int, ri as int);
            assert(runs@[ri as int].y == start[ri as int].y);
            assert(runs@[ri as int].x0 == start[ri as int].x0);
            assert(runs@[ri as int].x1 == start[ri as int].x1);
            reveal(runs_ok);
            if ri > 0 {
                assert(hi(w, start[ri - 1]) < lo(w, start[ri as int]));
            }
            assert(start[ri as int].y * w <= total) by {
                assert(0 <= start[ri as int].x0);
            }
            assert(start[ri as int].y * width == start[ri as int].y * w);
            assert(0 <= start[ri as int].y * width) by (nonlinear_arith);
        }
        let base: usize = runs[ri].y * width;
        let first: usize = base + runs[ri].x0;
        let last: usize = base + runs[ri].x1;
        let root_index: usize = find_root(runs, ri);
        let kept: bool = match winner {
            Some(r) => r == root_index,
            None => false,
        };
        clear_span(mask, cursor, first);
        if !kept {
            clear_span(mask, first, last + 1);
        }
        proof {
            assert forall|j: int| 0 <= j < start.len() implies #[trigger] root(runs@, j) == root(
                start,
                j,
            ) by {}
            assert forall|p: int| 0 <= p < last + 1 implies #[trigger] mask@[p] == (if in_largest(
                fg,
                w,
                p,
            ) {
                old(mask)@[p]
            } else {
                float_bits::ZERO
            }) by {
                if first <= p {
                    assert(covers(start, w, ri as int, p));
                    lemma_in_largest(start, winner, fg, w, p, ri as int);
                    lemma_root_bounds(start, ri as int);
                } else if cursor <= p {
                    lemma_gap_background(start, fg, w, p, ri as int);
                }
            }
        }
        cursor = last + 1;
        ri = ri + 1;
    }
    clear_span(mask, cursor, total);
    proof {
        assert forall|p: int| cursor <= p < total implies !in_largest(fg, w, p) by {
            lemma_gap_background(start, fg, w, p, count as int);
        }
    }
}

/// A pixel between run `i - 1` and run `i` belongs to no component.
proof fn lemma_gap_background(runs: Seq<Run>, fg: Seq<bool>, w: int, p: int, i: int)
    requires
        labelled(runs, fg, w),
        0 <= p < fg.len(),
        0 <= i <= runs.len(),
        i > 0 ==> hi(w, runs[i - 1]) < p,
        i < runs.len() ==> p < lo(w, runs[i]),
    ensures
        !in_largest(fg, w, p),
{
    if in_largest(fg, w, p) {
        let seed = choose|s: int| #[trigger] is_winner(fg, w, s) && connected(fg, w, s, p);
        lemma_connected_ends(fg, w, seed, p);
        lemma_run_of(runs, fg, w, p);
        let j = run_of(runs, w, p);
        reveal(runs_ok);
        lemma_run_ok(runs, fg, w, fg.len() as int, j);
        if j < i - 1 {
            assert(hi(w, runs[j]) < lo(w, runs[i - 1]));
            lemma_run_ok(runs, fg, w, fg.len() as int, i - 1);
        } else if j > i {
            assert(hi(w, runs[i]) < lo(w, runs[j]));
            lemma_run_ok(runs, fg, w, fg.len() as int, i);
        }
    }
}

// ---------------------------------------------------------------------------
// The effect
// ---------------------------------------------------------------------------

/// The mask with everything but the largest component set to zero.
pub open spec fn keep_largest(mask: Seq<u32>, w: int, level: u32) -> Seq<u32> {
    Seq::new(
        mask.len(),
        |p: int|
            if in_largest(foreground(mask, level), w, p) {
                mask[p]
            } else {
                float_bits::ZERO
            },
    )
}

/// Mask effect that retains only the largest connected component.
pub struct LargestBlobMaskEffect {
    level: u32,
    /// Runs of the current frame with their union-find links.
    runs: Vec<Run>,
    /// Component size per run; only the entries of roots count.
    sizes: Vec<usize>,
}

impl LargestBlobMaskEffect {
    /// Effect name as registered in the mask registry.
    pub const NAME: &'static str = "largest_blob";

    /// Bit pattern of the level in use.
    pub closed spec fn level(&self) -> u32 {
        self.level
    }

    /// Self-describing metadata for the registry.
    pub fn metadata() -> (r: EffectMetadata)
        ensures
            r.name@ == Self::NAME@,
            r.help@ == "Keep only the largest connected mask component above a threshold."@,
            r.params@.len() == 1,
            r.params@[0].name@ == "level"@,
            r.params@[0].kind == (ParamKind::Float {
                default: DEFAULT_LEVEL,
                min: float_bits::ZERO,
                max: float_bits::ONE,
                step: 0x3C23_D70A,
                scale: Scale::Linear,
            }),
            r.params@[0].help@ == "Pixels with value >= level are eligible for blob labeling."@,
            r.params@[0].commit == (CommitStrategy::Live { debounce_ms: DEBOUNCE_FAST_MS }),
    {
        EffectMetadata {
            name: Self::NAME,
            help: "Keep only the largest connected mask component above a threshold.",
            params: &[
                ParamDescriptor {
                    name: "level",
                    kind: ParamKind::Float {
                        default: DEFAULT_LEVEL,
                        min: float_bits::ZERO,
                        max: float_bits::ONE,
                        step: 0x3C23_D70A,
                        scale: Scale::Linear,
                    },
                    help: "Pixels with value >= level are eligible for blob labeling.",
                    commit: CommitStrategy::Live { debounce_ms: DEBOUNCE_FAST_MS },
                },
            ],
        }
    }

    /// Construct with the default level.
    #[must_use]
    pub fn new() -> (r: Self)
        ensures
            r.level() == DEFAULT_LEVEL,
    {
        LargestBlobMaskEffect { level: DEFAULT_LEVEL, runs: Vec::new(), sizes: Vec::new() }
    }

    /// Bit pattern of the level in use.
    #[must_use]
    pub fn current_level(&self) -> (r: u32)
        ensures
            r == self.level(),
    {
        self.level
    }
}

impl Default for LargestBlobMaskEffect {
    fn default() -> (r: Self)
        ensures
            r.level() == DEFAULT_LEVEL,
    {
        LargestBlobMaskEffect::new()
    }
}

/// Whether the effect may process a mask: it keeps the largest component of the
/// pixels at its level.
pub open spec fn ran(
    s: EffectState,
    c: MaskCall,
    t: EffectState,
    r: Result<(), EffectError>,
) -> bool {
    &&& r is Ok
    &&& t == s
    &&& c.context_after == c.context
    &&& c.mask_after == keep_largest(c.mask, c.width as int, s.settings[0])
}

impl MaskEffect for LargestBlobMaskEffect {
    open spec fn state(&self) -> EffectState {
        EffectState { settings: seq![self.level()], memory: Seq::empty() }
    }

    open spec fn rules(&self) -> EffectRules<MaskCall> {
        EffectRules {
            id: Self::NAME@,
            configure: |
                s: EffectState,
                p: RawEffectParams,
                t: EffectState,
                r: Result<(), EffectError>,
            | mask_effects::takes_unit(Self::NAME@, "level"@, DEFAULT_LEVEL, s, p, t, r),
            prepare: |
                s: EffectState,
                c: ProcessingContext,
                t: EffectState,
                r: Result<(), EffectError>,
            | mask_effects::unchanged(s, t, r),
            process: |s: EffectState, c: MaskCall, t: EffectState, r: Result<(), EffectError>|
                ran(s, c, t, r),
            reset: |s: EffectState, t: EffectState| t == s,
            shut_down: |s: EffectState, t: EffectState, r: Result<(), EffectError>|
                mask_effects::unchanged(s, t, r),
        }
    }

    fn name(&self) -> (r: &'static str) {
        Self::NAME
    }

    fn configure(&mut self, params: RawEffectParams) -> (r: Result<(), EffectError>)
        ensures
            match mask_effects::unit_field(params, "level"@, DEFAULT_LEVEL) {
                Ok(level) => final(self).level() == level,
                Err(_) => *final(self) == *old(self),
            },
    {
        match mask_effects::read_unit(params, "level", DEFAULT_LEVEL) {
            Ok(level) => {
                self.level = level;
                Ok(())
            },
            Err(reason) => Err(mask_effects::invalid_config(Self::NAME, reason)),
        }
    }

    fn prepare(&mut self, _context: &ProcessingContext) -> (r: Result<(), EffectError>)
        ensures
            *final(self) == *old(self),
    {
        Ok(())
    }

    fn process(&mut self, mask: &mut MaskPlane<'_>, _context: &mut FrameContext) -> (r: Result<
        (),
        EffectError,
    >)
        ensures
            final(self).level() == old(self).level(),
    {
        let width: usize = mask.width as usize;
        let height: usize = mask.height as usize;
        if width == 0 || height == 0 {
            proof {
                assert(mask.width * mask.height == 0) by (nonlinear_arith)
                    requires
                        mask.width == 0 || mask.height == 0,
                ;
                assert(mask.data@ =~= keep_largest(mask.data@, width as int, self.level));
            }
            return Ok(());
        }
        let level: u32 = self.level;
        let ghost before = mask.data@;
        let ghost fg = foreground(before, level);
        let total: usize = mask.data.len();
        label(mask.data, level, width, height, &mut self.runs);
        component_sizes(&mut self.runs, &mut self.sizes, Ghost(fg), Ghost(width as int));
        let winner: Option<usize> = largest_index(&self.sizes);
        proof {
            lemma_winner(self.runs@, self.sizes@, winner, fg, width as int);
        }
        keep_winner(mask.data, width, &mut self.runs, winner, Ghost(fg));
        proof {
            assert(mask.data@ =~= keep_largest(before, width as int, level));
        }
        Ok(())
    }

    fn reset_state(&mut self)
        ensures
            *final(self) == *old(self),
    {
    }

    fn shutdown(&mut self) -> (r: Result<(), EffectError>)
        ensures
            *final(self) == *old(self),
    {
        Ok(())
    }
}

// ---------------------------------------------------------------------------
// Laws
// ---------------------------------------------------------------------------

/// Every pixel on a path from the winner belongs to the largest component.
proof fn lemma_path_in_largest(fg: Seq<bool>, w: int, seed: int, path: Seq<int>, k: int)
    requires
        is_winner(fg, w, seed),
        is_path(fg, w, path),
        path[0] == seed,
        0 <= k < path.len(),
    ensures
        connected(fg, w, seed, path[k]),
        in_largest(fg, w, path[k]),
{
    let part = path.take(k + 1);
    assert forall|a: int, b: int| 0 <= a && b == a + 1 && b < part.len() implies adjacent(
        w,
        #[trigger] part[a],
        #[trigger] part[b],
    ) by {
        assert(part[a] == path[a] && part[b] == path[b]);
    }
    assert(leads(fg, w, part, seed, path[k]));
}

/// Keeping the largest component of a mask that holds nothing else changes
/// nothing: the effect is idempotent for every level above zero, and for every
/// level where the mask holds numbers of the unit interval.
pub proof fn law_keep_largest_idempotent(mask: Seq<u32>, w: int, level: u32)
    requires
        float_bits::rank(level) > 0 || forall|i: int|
            0 <= i < mask.len() ==> float_bits::in_unit(#[trigger] mask[i]),
    ensures
        keep_largest(keep_largest(mask, w, level), w, level) == keep_largest(mask, w, level),
{
    let once = keep_largest(mask, w, level);
    let fg = foreground(mask, level);
    let kept = foreground(once, level);
    if float_bits::rank(level) <= 0 {
        assert(kept =~= fg);
        assert(keep_largest(once, w, level) =~= once);
    } else {
        lemma_keep_largest_idempotent(mask, w, level);
    }
}

/// The effect is idempotent for every level above zero.
proof fn lemma_keep_largest_idempotent(mask: Seq<u32>, w: int, level: u32)
    requires
        float_bits::rank(level) > 0,
    ensures
        keep_largest(keep_largest(mask, w, level), w, level) == keep_largest(mask, w, level),
{
    let once = keep_largest(mask, w, level);
    let fg = foreground(mask, level);
    let kept = foreground(once, level);
    assert forall|p: int| 0 <= p < mask.len() implies (#[trigger] kept[p] <==> in_largest(fg, w, p))
        by {
        if in_largest(fg, w, p) {
            let seed = choose|s: int| #[trigger] is_winner(fg, w, s) && connected(fg, w, s, p);
            lemma_connected_ends(fg, w, seed, p);
        }
    }
    assert forall|p: int| 0 <= p < mask.len() && in_largest(fg, w, p) implies in_largest(
        kept,
        w,
        p,
    ) by {
        let seed = choose|s: int| #[trigger] is_winner(fg, w, s) && connected(fg, w, s, p);
        lemma_same_winner(fg, kept, w, seed);
        lemma_still_connected(fg, kept, w, seed, p);
    }
    assert(keep_largest(once, w, level) =~= once);
}

/// A path from the winner survives when exactly its component is kept.
proof fn lemma_still_connected(fg: Seq<bool>, kept: Seq<bool>, w: int, seed: int, p: int)
    requires
        is_winner(fg, w, seed),
        kept.len() == fg.len(),
        forall|q: int| 0 <= q < fg.len() ==> (#[trigger] kept[q] <==> in_largest(fg, w, q)),
        connected(fg, w, seed, p),
    ensures
        connected(kept, w, seed, p),
{
    let path = choose|path: Seq<int>| leads(fg, w, path, seed, p);
    assert forall|k: int| 0 <= k < path.len() implies 0 <= #[trigger] path[k] < kept.len()
        && kept[path[k]] by {
        lemma_path_in_largest(fg, w, seed, path, k);
    }
    assert(leads(kept, w, path, seed, p));
}

/// The winner of a mask is the winner of the mask reduced to its component.
proof fn lemma_same_winner(fg: Seq<bool>, kept: Seq<bool>, w: int, seed: int)
    requires
        is_winner(fg, w, seed),
        kept.len() == fg.len(),
        forall|q: int| 0 <= q < fg.len() ==> (#[trigger] kept[q] <==> in_largest(fg, w, q)),
    ensures
        is_winner(kept, w, seed),
{
    lemma_connected_refl(fg, w, seed);
    assert(in_largest(fg, w, seed));
    assert forall|q: int| 0 <= q < kept.len() && #[trigger] kept[q] implies {
        ||| component(kept, w, q).len() < component(kept, w, seed).len()
        ||| component(kept, w, q).len() == component(kept, w, seed).len() && seed <= q
    } by {
        let other = choose|s: int| #[trigger] is_winner(fg, w, s) && connected(fg, w, s, q);
        lemma_winner_unique(fg, w, seed, other);
        lemma_connected_ends(fg, w, seed, q);
        lemma_still_connected(fg, kept, w, seed, q);
        lemma_same_component(kept, w, seed, q);
        lemma_same_component(fg, w, seed, q);
        assert(fg[q]);
    }
}

/// Connected pixels have one component.
proof fn lemma_same_component(fg: Seq<bool>, w: int, p: int, q: int)
    requires
        connected(fg, w, p, q),
    ensures
        component(fg, w, p) == component(fg, w, q),
{
    lemma_connected_sym(fg, w, p, q);
    assert forall|r: int| connected(fg, w, p, r) <==> connected(fg, w, q, r) by {
        if connected(fg, w, p, r) {
            lemma_connected_trans(fg, w, q, p, r);
        }
        if connected(fg, w, q, r) {
            lemma_connected_trans(fg, w, p, q, r);
        }
    }
    assert(component(fg, w, p) =~= component(fg, w, q));
}

/// Whether two pixels stand side by side in a row or one above the other.
pub open spec fn touch(w: int, p: int, q: int) -> bool {
    ||| p / w == q / w && (p % w == q % w + 1 || q % w == p % w + 1)
    ||| p % w == q % w && (p / w == q / w + 1 || q / w == p / w + 1)
}

/// Adjacent pixels are those that stand side by side or one above the other: neither
/// a corner nor the end of one row and the start of the next joins two pixels.
pub proof fn law_adjacent_pixels_touch(w: int, p: int, q: int)
    requires
        w > 0,
        p >= 0,
        q >= 0,
    ensures
        adjacent(w, p, q) <==> touch(w, p, q),
{
    lemma_adjacent_one_way(w, p, q);
    lemma_adjacent_one_way(w, q, p);
}

/// One direction of adjacency.
proof fn lemma_adjacent_one_way(w: int, p: int, q: int)
    requires
        w > 0,
        p >= 0,
        q >= 0,
    ensures
        (q == p + 1 && q % w != 0) <==> (p / w == q / w && q % w == p % w + 1),
        q == p + w <==> (p % w == q % w && q / w == p / w + 1),
{
    vstd::arithmetic::div_mod::lemma_fundamental_div_mod(p, w);
    vstd::arithmetic::div_mod::lemma_fundamental_div_mod(q, w);
    let (a, b) = (p / w, q / w);
    let (c, d) = (p % w, q % w);
    assert(0 <= c < w && 0 <= d < w) by {
        vstd::arithmetic::div_mod::lemma_mod_bound(p, w);
        vstd::arithmetic::div_mod::lemma_mod_bound(q, w);
    }
    if q == p + 1 {
        assert(d != 0 ==> a == b && d == c + 1) by (nonlinear_arith)
            requires
                w > 0,
                0 <= c < w,
                0 <= d < w,
                w * b + d == w * a + c + 1,
        ;
    }
    if a == b && d == c + 1 {
        assert(q == p + 1);
    }
    if q == p + w {
        assert(c == d && b == a + 1) by (nonlinear_arith)
            requires
                w > 0,
                0 <= c < w,
                0 <= d < w,
                w * b + d == w * a + c + w,
        ;
    }
    if c == d && b == a + 1 {
        assert(w * (a + 1) == w * a + w) by (nonlinear_arith);
    }
}

/// The pixels whose value is at least `level`.
pub open spec fn at_level(mask: Seq<u32>, level: u32) -> Seq<bool> {
    Seq::new(mask.len(), |i: int| float_bits::value_at_least(mask[i], level))
}

/// Whether the component of `s` is the largest of those of the first `n` pixels, and
/// the first of its size.
spec fn leads_prefix(fg: Seq<bool>, w: int, n: int, s: int) -> bool {
    &&& 0 <= s < n
    &&& fg[s]
    &&& forall|q: int|
        0 <= q < n && #[trigger] fg[q] ==> {
            ||| component(fg, w, q).len() < component(fg, w, s).len()
            ||| component(fg, w, q).len() == component(fg, w, s).len() && s <= q
        }
}

/// Where there is foreground, there is a component to keep.
proof fn lemma_some_winner(fg: Seq<bool>, w: int, n: int) -> (s: int)
    requires
        0 <= n <= fg.len(),
        exists|p: int| 0 <= p < n && #[trigger] fg[p],
    ensures
        leads_prefix(fg, w, n, s),
    decreases n,
{
    let t = n - 1;
    if exists|o: int| 0 <= o < t && #[trigger] fg[o] {
        let s = lemma_some_winner(fg, w, t);
        if fg[t] && component(fg, w, t).len() > component(fg, w, s).len() {
            assert(leads_prefix(fg, w, n, t));
            t
        } else {
            assert(leads_prefix(fg, w, n, s));
            s
        }
    } else {
        assert(leads_prefix(fg, w, n, t));
        t
    }
}

/// What becomes of two foreground pixels.
proof fn lemma_pieces(fg: Seq<bool>, w: int, p: int, q: int)
    requires
        w > 0,
        0 <= p < fg.len(),
        0 <= q < fg.len(),
        fg[p],
        fg[q],
    ensures
        in_largest(fg, w, p) && touch(w, p, q) ==> in_largest(fg, w, q),
        in_largest(fg, w, p) && in_largest(fg, w, q) ==> connected(fg, w, p, q),
        in_largest(fg, w, p) ==> component(fg, w, q).len() <= component(fg, w, p).len(),
        in_largest(fg, w, p) && !in_largest(fg, w, q) ==> {
            ||| component(fg, w, q).len() < component(fg, w, p).len()
            ||| exists|first: int| first < q && #[trigger] connected(fg, w, p, first)
        },
{
    if in_largest(fg, w, p) {
        let seed = choose|s: int| #[trigger] is_winner(fg, w, s) && connected(fg, w, s, p);
        lemma_same_component(fg, w, seed, p);
        lemma_connected_sym(fg, w, seed, p);
        if in_largest(fg, w, q) {
            let other = choose|s: int| #[trigger] is_winner(fg, w, s) && connected(fg, w, s, q);
            lemma_winner_unique(fg, w, seed, other);
            lemma_connected_trans(fg, w, p, seed, q);
        } else if seed == q {
            lemma_connected_refl(fg, w, q);
            assert(in_largest(fg, w, q));
        }
        if touch(w, p, q) {
            law_adjacent_pixels_touch(w, p, q);
            lemma_connected_step(fg, w, p, q);
            lemma_connected_trans(fg, w, seed, p, q);
            assert(in_largest(fg, w, q));
        }
    }
}

/// The effect sets to zero what is below its level and, of the rest, everything but
/// one piece: pixels that touch share their fate, what is kept hangs together, no
/// piece is larger than the one that is kept, and where there is foreground one is.
pub proof fn law_largest_piece_stays(
    e: &mut LargestBlobMaskEffect,
    mask: &mut MaskPlane<'_>,
    context: &mut FrameContext,
    r: Result<(), EffectError>,
    p: int,
    q: int,
)
    requires
        call_ensures(<LargestBlobMaskEffect as MaskEffect>::process, (e, mask, context), r),
        old(mask).width > 0,
        0 <= p < old(mask).data@.len(),
        0 <= q < old(mask).data@.len(),
    ensures
        r is Ok,
        *final(context) == *old(context),
        final(e).level() == old(e).level(),
        final(mask).data@.len() == old(mask).data@.len(),
        final(mask).data@[p] == old(mask).data@[p] || final(mask).data@[p] == 0u32,
        !float_bits::value_at_least(old(mask).data@[p], old(e).level()) ==> final(mask).data@[p] == 0u32,
        ({
            let (before, after) = (old(mask).data@, final(mask).data@);
            let w = old(mask).width as int;
            let fg = at_level(before, old(e).level());
            let (kept_p, kept_q) = (after[p] == before[p], after[q] == before[q]);
            fg[p] && fg[q] && before[p] != 0 && before[q] != 0 ==> {
                &&& touch(w, p, q) ==> (kept_p <==> kept_q)
                &&& kept_p && kept_q ==> connected(fg, w, p, q)
                &&& kept_p ==> component(fg, w, q).len() <= component(fg, w, p).len()
                &&& kept_p && !kept_q ==> {
                    ||| component(fg, w, q).len() < component(fg, w, p).len()
                    ||| exists|first: int|
                        first < q && #[trigger] connected(fg, w, p, first)
                }
            }
        }),
        exists|k: int|
            0 <= k < old(mask).data@.len() && float_bits::value_at_least(
                old(mask).data@[k],
                old(e).level(),
            ) && #[trigger] old(mask).data@[k] != 0 ==> exists|k: int|
            0 <= k < old(mask).data@.len() && #[trigger] final(mask).data@[k] == old(mask).data@[k],
{
    let (before, after) = (old(mask).data@, final(mask).data@);
    let w = old(mask).width as int;
    let level = old(e).level();
    let fg = at_level(before, level);
    assert(old(e).state().settings[0] == level);
    assert forall|i: int| 0 <= i < before.len() implies float_bits::ge(before[i], level)
        == float_bits::value_at_least(#[trigger] before[i], level) by {
        float_bits::law_order(before[i], level, 0);
    }
    assert(fg =~= foreground(before, level));
    assert(after == keep_largest(before, w, level));
    if fg[p] && fg[q] {
        lemma_pieces(fg, w, p, q);
        lemma_pieces(fg, w, q, p);
        assert(touch(w, p, q) == touch(w, q, p));
    }
    if in_largest(fg, w, p) {
        let seed = choose|s: int| #[trigger] is_winner(fg, w, s) && connected(fg, w, s, p);
        lemma_connected_ends(fg, w, seed, p);
    }
    if exists|k: int| 0 <= k < before.len() && float_bits::value_at_least(before[k], level)
        && #[trigger] before[k] != 0 {
        let k = choose|k: int|
            0 <= k < before.len() && float_bits::value_at_least(before[k], level)
                && #[trigger] before[k] != 0;
        assert(fg[k]);
        let s = lemma_some_winner(fg, w, fg.len() as int);
        assert(is_winner(fg, w, s));
        lemma_connected_refl(fg, w, s);
        assert(in_largest(fg, w, s));
        assert(after[s] == before[s]);
    }
}

} // verus!
