//! Dilation with a 3×3 maximum kernel and a configurable number of passes.

use vstd::prelude::*;
use crate::context::{EffectState, FrameContext, ProcessingContext};
use crate::error::EffectError;
use crate::float_bits;
use crate::mask_effects;
use crate::metadata::{
    CommitStrategy, EffectMetadata, ParamDescriptor, ParamKind, Scale, DEBOUNCE_STANDARD_MS,
};
use crate::text;
use crate::params::RawEffectParams;
use crate::plane::{EffectRules, MaskCall, MaskEffect, MaskPlane};

verus! {

/// Largest number of passes.
pub const MAX_ITERATIONS: u32 = 32;

/// Default number of passes.
pub const DEFAULT_ITERATIONS: u32 = 1;

/// Parameters of [`DilateMaskEffect`].
#[derive(Debug, Clone, Copy, PartialEq, Eq, Structural)]
pub struct DilateConfig {
    /// Number of passes; one pass expands the foreground by one pixel.
    pub iterations: u32,
}

impl Default for DilateConfig {
    fn default() -> (r: Self)
        ensures
            r.iterations == DEFAULT_ITERATIONS,
    {
        DilateConfig { iterations: DEFAULT_ITERATIONS }
    }
}

// ---------------------------------------------------------------------------
// One pass
// ---------------------------------------------------------------------------

/// Whether `(x, y)` is a pixel of the image.
pub open spec fn inside(w: int, h: int, x: int, y: int) -> bool {
    0 <= x < w && 0 <= y < h
}

/// Whether `v` is the greatest value of the 3×3 window around `(x, y)`, cut off
/// at the border.
pub open spec fn window_max(mask: Seq<u32>, w: int, h: int, x: int, y: int, v: u32) -> bool {
    &&& exists|i: int, j: int|
        x - 1 <= i <= x + 1 && y - 1 <= j <= y + 1 && inside(w, h, i, j) && v == #[trigger] mask[j * w
            + i]
    &&& forall|i: int, j: int|
        x - 1 <= i <= x + 1 && y - 1 <= j <= y + 1 && inside(w, h, i, j) ==> float_bits::no_less(
            v,
            #[trigger] mask[j * w + i],
        )
}

/// Whether `after` is `mask` dilated once.
pub open spec fn dilated_once(mask: Seq<u32>, after: Seq<u32>, w: int, h: int) -> bool {
    &&& after.len() == mask.len()
    &&& forall|x: int, y: int|
        inside(w, h, x, y) ==> window_max(mask, w, h, x, y, #[trigger] after[y * w + x])
}

/// Whether `after` is `mask` dilated `n` times.
pub open spec fn dilated(mask: Seq<u32>, after: Seq<u32>, w: int, h: int, n: nat) -> bool
    decreases n,
{
    if n == 0 {
        after == mask
    } else {
        exists|between: Seq<u32>|
            dilated(mask, between, w, h, (n - 1) as nat) && #[trigger] dilated_once(
                between,
                after,
                w,
                h,
            )
    }
}

proof fn lemma_index(w: int, h: int, x: int, y: int)
    requires
        inside(w, h, x, y),
    ensures
        0 <= y * w + x < w * h,
        0 <= y * w <= w * h,
{
    assert(0 <= y * w + x < w * h && 0 <= y * w <= w * h) by (nonlinear_arith)
        requires
            0 <= x < w,
            0 <= y < h,
    ;
}

/// Greatest value of the window around `(x, y)`.
fn window(mask: &[u32], w: usize, h: usize, x: usize, y: usize) -> (r: u32)
    requires
        mask@.len() == w * h,
        x < w,
        y < h,
    ensures
        window_max(mask@, w as int, h as int, x as int, y as int, r),
{
    let x0: usize = if x > 0 {
        x - 1
    } else {
        0
    };
    let y0: usize = if y > 0 {
        y - 1
    } else {
        0
    };
    let x1: usize = if x + 1 < w {
        x + 1
    } else {
        x
    };
    let y1: usize = if y + 1 < h {
        y + 1
    } else {
        y
    };
    let total: usize = mask.len();
    proof {
        lemma_index(w as int, h as int, x as int, y as int);
    }
    let mut best: u32 = mask[y * w + x];
    let ghost mut bi: int = x as int;
    let ghost mut bj: int = y as int;
    let mut j: usize = y0;
    while j <= y1
        invariant
            total == mask@.len(),
            mask@.len() == w * h,
            x < w,
            y < h,
            x0 <= x <= x1 < w,
            y0 <= y <= y1 < h,
            x0 == x || x0 == x - 1,
            x1 == x || x1 == x + 1,
            y0 == y || y0 == y - 1,
            y1 == y || y1 == y + 1,
            y0 <= j <= y1 + 1,
            x - 1 <= bi <= x + 1,
            y - 1 <= bj <= y + 1,
            inside(w as int, h as int, bi, bj),
            best == mask@[bj * w + bi],
            forall|a: int, b: int|
                x0 <= a <= x1 && y0 <= b < j ==> float_bits::no_less(best, #[trigger] mask@[b * w + a]),
        decreases y1 + 1 - j,
    {
        let mut i: usize = x0;
        while i <= x1
            invariant
                total == mask@.len(),
                mask@.len() == w * h,
                x < w,
                y < h,
                x0 <= x <= x1 < w,
                y0 <= y <= y1 < h,
                x0 == x || x0 == x - 1,
                x1 == x || x1 == x + 1,
                y0 == y || y0 == y - 1,
                y1 == y || y1 == y + 1,
                y0 <= j <= y1,
                x0 <= i <= x1 + 1,
                x - 1 <= bi <= x + 1,
                y - 1 <= bj <= y + 1,
                inside(w as int, h as int, bi, bj),
                best == mask@[bj * w + bi],
                forall|a: int, b: int|
                    x0 <= a <= x1 && y0 <= b < j ==> float_bits::no_less(
                        best,
                        #[trigger] mask@[b * w + a],
                    ),
                forall|a: int|
                    x0 <= a < i ==> float_bits::no_less(best, #[trigger] mask@[j * w + a]),
            decreases x1 + 1 - i,
        {
            proof {
                lemma_index(w as int, h as int, i as int, j as int);
            }
            let v: u32 = mask[j * w + i];
            if !float_bits::is_no_less(best, v) {
                best = v;
                proof {
                    bi = i as int;
                    bj = j as int;
                }
            }
            i = i + 1;
        }
        j = j + 1;
    }
    proof {
        assert(best == mask@[bj * w + bi]);
        assert forall|a: int, b: int|
            x - 1 <= a <= x + 1 && y - 1 <= b <= y + 1 && inside(
                w as int,
                h as int,
                a,
                b,
            ) implies float_bits::no_less(best, #[trigger] mask@[b * (w as int) + a]) by {
            assert(x0 <= a <= x1 && y0 <= b <= y1);
        }
    }
    best
}

/// Dilate `mask` into `out`.
fn dilate_once(mask: &[u32], out: &mut Vec<u32>, w: usize, h: usize)
    requires
        mask@.len() == w * h,
    ensures
        dilated_once(mask@, final(out)@, w as int, h as int),
{
    out.clear();
    let mut y: usize = 0;
    while y < h
        invariant
            mask@.len() == w * h,
            y <= h,
            out@.len() == y * w,
            forall|a: int, b: int|
                inside(w as int, y as int, a, b) ==> window_max(
                    mask@,
                    w as int,
                    h as int,
                    a,
                    b,
                    #[trigger] out@[b * w + a],
                ),
        decreases h - y,
    {
        let mut x: usize = 0;
        while x < w
            invariant
                mask@.len() == w * h,
                y < h,
                x <= w,
                out@.len() == y * w + x,
                forall|a: int, b: int|
                    inside(w as int, y as int, a, b) ==> window_max(
                        mask@,
                        w as int,
                        h as int,
                        a,
                        b,
                        #[trigger] out@[b * w + a],
                    ),
                forall|a: int|
                    0 <= a < x ==> window_max(
                        mask@,
                        w as int,
                        h as int,
                        a,
                        y as int,
                        #[trigger] out@[y * w + a],
                    ),
            decreases w - x,
        {
            let v: u32 = window(mask, w, h, x, y);
            let ghost before = out@;
            out.push(v);
            proof {
                assert forall|a: int, b: int| inside(w as int, y as int, a, b) implies window_max(
                    mask@,
                    w as int,
                    h as int,
                    a,
                    b,
                    #[trigger] out@[b * (w as int) + a],
                ) by {
                    lemma_index(w as int, y as int, a, b);
                    assert(w * y == y * w) by (nonlinear_arith);
                    assert(out@[b * (w as int) + a] == before[b * (w as int) + a]);
                }
                assert(0 <= y * w) by (nonlinear_arith);
                assert forall|a: int| 0 <= a < x + 1 implies window_max(
                    mask@,
                    w as int,
                    h as int,
                    a,
                    y as int,
                    #[trigger] out@[y * w + a],
                ) by {
                    if a < x {
                        assert(out@[y * w + a] == before[y * w + a]);
                    }
                }
            }
            x = x + 1;
        }
        proof {
            assert((y + 1) * w == y * w + w) by (nonlinear_arith);
            assert forall|a: int, b: int| inside(w as int, y + 1, a, b) implies window_max(
                mask@,
                w as int,
                h as int,
                a,
                b,
                #[trigger] out@[b * (w as int) + a],
            ) by {
                if b == y {
                    assert(out@[y * w + a] == out@[b * (w as int) + a]);
                }
            }
        }
        y = y + 1;
    }
    proof {
        assert(h * w == w * h) by (nonlinear_arith);
    }
}

/// Dilate `mask` in place `iterations` times, with `scratch` as work space.
pub fn dilate(mask: &mut [u32], scratch: &mut Vec<u32>, width: u32, height: u32, iterations: u32)
    requires
        old(mask)@.len() == width * height,
    ensures
        dilated(old(mask)@, final(mask)@, width as int, height as int, iterations as nat),
        final(mask)@.len() == old(mask)@.len(),
{
    let w: usize = width as usize;
    let h: usize = height as usize;
    let mut n: u32 = 0;
    while n < iterations
        invariant
            n <= iterations,
            w == width,
            h == height,
            mask@.len() == w * h,
            mask@.len() == old(mask)@.len(),
            dilated(old(mask)@, mask@, width as int, height as int, n as nat),
        decreases iterations - n,
    {
        let ghost before = mask@;
        dilate_once(mask, scratch, w, h);
        let mut i: usize = 0;
        while i < mask.len()
            invariant
                i <= mask@.len(),
                mask@.len() == old(mask)@.len(),
                scratch@.len() == mask@.len(),
                dilated_once(before, scratch@, w as int, h as int),
                forall|k: int| 0 <= k < i ==> mask@[k] == scratch@[k],
            decreases mask@.len() - i,
        {
            mask[i] = scratch[i];
            i = i + 1;
        }
        proof {
            assert(mask@ =~= scratch@);
            let wi = width as int;
            let hi = height as int;
            let next = (n + 1) as nat;
            assert(dilated(old(mask)@, before, wi, hi, (next - 1) as nat));
            assert(dilated_once(before, mask@, wi, hi));
            assert(dilated(old(mask)@, mask@, wi, hi, next));
        }
        n = n + 1;
    }
}

// ---------------------------------------------------------------------------
// The effect
// ---------------------------------------------------------------------------

/// Why `params` are refused, if they are.
pub open spec fn refusal(params: RawEffectParams) -> Option<Seq<char>> {
    match mask_effects::integer_field(params, "iterations"@, DEFAULT_ITERATIONS) {
        Err(reason) => Some(reason),
        Ok(n) => if n > MAX_ITERATIONS {
            Some("iterations must be <= 32, got "@ + text::decimal(n as nat))
        } else {
            None
        },
    }
}

/// Mask effect around [`dilate`].
pub struct DilateMaskEffect {
    iterations: u32,
    scratch: Vec<u32>,
}

impl DilateMaskEffect {
    /// Effect name as registered in the mask registry.
    pub const NAME: &'static str = "dilate";

    /// Number of passes in use.
    pub closed spec fn iterations(&self) -> u32 {
        self.iterations
    }

    /// Self-describing metadata for the registry.
    pub fn metadata() -> (r: EffectMetadata)
        ensures
            r.name@ == Self::NAME@,
            r.help@ == "Expand the foreground with a 3x3 maximum kernel."@,
            r.params@.len() == 1,
            r.params@[0].name@ == "iterations"@,
            r.params@[0].kind == (ParamKind::Integer {
                default: DEFAULT_ITERATIONS as i64,
                min: 0,
                max: MAX_ITERATIONS as i64,
                step: 1,
                scale: Scale::Linear,
            }),
            r.params@[0].help@ == "Number of dilation passes."@,
            r.params@[0].commit == (CommitStrategy::Live { debounce_ms: DEBOUNCE_STANDARD_MS }),
    {
        EffectMetadata {
            name: Self::NAME,
            help: "Expand the foreground with a 3x3 maximum kernel.",
            params: &[
                ParamDescriptor {
                    name: "iterations",
                    kind: ParamKind::Integer {
                        default: DEFAULT_ITERATIONS as i64,
                        min: 0,
                        max: MAX_ITERATIONS as i64,
                        step: 1,
                        scale: Scale::Linear,
                    },
                    help: "Number of dilation passes.",
                    commit: CommitStrategy::Live { debounce_ms: DEBOUNCE_STANDARD_MS },
                },
            ],
        }
    }

    /// Construct with the default number of passes.
    #[must_use]
    pub fn new() -> (r: Self)
        ensures
            r.iterations() == DEFAULT_ITERATIONS,
    {
        DilateMaskEffect { iterations: DEFAULT_ITERATIONS, scratch: Vec::new() }
    }

    /// Number of passes in use.
    #[must_use]
    pub fn current_iterations(&self) -> (r: u32)
        ensures
            r == self.iterations(),
    {
        self.iterations
    }
}

/// Whether the effect may process a mask: it dilates the mask so many times.
pub open spec fn ran(
    s: EffectState,
    c: MaskCall,
    t: EffectState,
    r: Result<(), EffectError>,
) -> bool {
    &&& r is Ok
    &&& t == s
    &&& c.context_after == c.context
    &&& dilated(c.mask, c.mask_after, c.width as int, c.height as int, s.settings[0] as nat)
}

impl MaskEffect for DilateMaskEffect {
    open spec fn state(&self) -> EffectState {
        EffectState { settings: seq![self.iterations()], memory: Seq::empty() }
    }

    open spec fn rules(&self) -> EffectRules<MaskCall> {
        EffectRules {
            id: Self::NAME@,
            configure: |
                s: EffectState,
                p: RawEffectParams,
                t: EffectState,
                r: Result<(), EffectError>,
            | mask_effects::takes_integer(
                Self::NAME@,
                "iterations"@,
                DEFAULT_ITERATIONS,
                refusal(p),
                s,
                p,
                t,
                r,
            ),
            prepare: |
                s: EffectState,
                c: ProcessingContext,
                t: EffectState,
                r: Result<(), EffectError>,
            | mask_effects::unchanged(s, t, r),
            process: |s: EffectState, c: MaskCall, t: EffectState, r: Result<(), EffectError>|
                ran(s, c, t, r),
            reset: |s: EffectState, t: EffectState| t == s,
            shut_down: |s: EffectState, t: EffectState, r: Result<(), EffectError>|
                mask_effects::unchanged(s, t, r),
        }
    }

    fn name(&self) -> (r: &'static str) {
        Self::NAME
    }

    fn configure(&mut self, params: RawEffectParams) -> (r: Result<(), EffectError>)
        ensures
            r is Ok ==> mask_effects::integer_field(params, "iterations"@, DEFAULT_ITERATIONS)
                == Ok::<u32, Seq<char>>(final(self).iterations()),
            r is Err ==> *final(self) == *old(self),
    {
        match mask_effects::read_integer(params, "iterations", DEFAULT_ITERATIONS) {
            Ok(n) => {
                if n > MAX_ITERATIONS {
                    let mut reason = "iterations must be <= 32, got ".to_owned();
                    text::push_decimal(&mut reason, n as u64);
                    return Err(mask_effects::invalid_config(Self::NAME, reason));
                }
                self.iterations = n;
                Ok(())
            },
            Err(reason) => Err(mask_effects::invalid_config(Self::NAME, reason)),
        }
    }

    fn prepare(&mut self, _context: &ProcessingContext) -> (r: Result<(), EffectError>)
        ensures
            *final(self) == *old(self),
    {
        Ok(())
    }

    fn process(&mut self, mask: &mut MaskPlane<'_>, _context: &mut FrameContext) -> (r: Result<
        (),
        EffectError,
    >)
        ensures
            final(self).iterations() == old(self).iterations(),
    {
        if self.iterations == 0 {
            return Ok(());
        }
        dilate(mask.data, &mut self.scratch, mask.width, mask.height, self.iterations);
        Ok(())
    }

    fn reset_state(&mut self)
        ensures
            *final(self) == *old(self),
    {
    }

    fn shutdown(&mut self) -> (r: Result<(), EffectError>)
        ensures
            *final(self) == *old(self),
    {
        Ok(())
    }
}

/// Dilation never lowers a value.
pub proof fn law_dilation_extends(mask: Seq<u32>, after: Seq<u32>, w: int, h: int, x: int, y: int)
    requires
        dilated_once(mask, after, w, h),
        inside(w, h, x, y),
    ensures
        float_bits::no_less(after[y * w + x], mask[y * w + x]),
{
    assert(window_max(mask, w, h, x, y, after[y * w + x]));
}

/// Whether `(i, j)` is a pixel of the image at most `n` columns and rows from
/// `(x, y)`.
pub open spec fn near(w: int, h: int, x: int, y: int, n: int, i: int, j: int) -> bool {
    0 <= i < w && 0 <= j < h && x - n <= i <= x + n && y - n <= j <= y + n
}

/// Whether `v` is the greatest value of the mask at most `n` columns and rows from
/// `(x, y)`.
pub open spec fn greatest_near(
    mask: Seq<u32>,
    w: int,
    h: int,
    x: int,
    y: int,
    n: int,
    v: u32,
) -> bool {
    &&& exists|i: int, j: int| #[trigger] near(w, h, x, y, n, i, j) && v == mask[j * w + i]
    &&& forall|i: int, j: int| #[trigger]
        near(w, h, x, y, n, i, j) ==> float_bits::no_less(v, mask[j * w + i])
}

/// Whether `after` has at every pixel the greatest value of `mask` at most `n` columns
/// and rows away.
pub open spec fn spread(mask: Seq<u32>, after: Seq<u32>, w: int, h: int, n: int) -> bool {
    &&& after.len() == mask.len()
    &&& forall|x: int, y: int|
        0 <= x < w && 0 <= y < h ==> #[trigger] greatest_near(
            mask,
            w,
            h,
            x,
            y,
            n,
            after[y * w + x],
        )
}

/// Dilating `n` times spreads every value by `n` pixels in every direction, and no
/// further.
pub proof fn law_dilation_spreads(mask: Seq<u32>, after: Seq<u32>, w: int, h: int, n: nat)
    requires
        dilated(mask, after, w, h, n),
    ensures
        spread(mask, after, w, h, n as int),
    decreases n,
{
    if n == 0 {
        assert forall|x: int, y: int| 0 <= x < w && 0 <= y < h implies #[trigger] greatest_near(
            mask,
            w,
            h,
            x,
            y,
            0,
            after[y * w + x],
        ) by {
            assert(near(w, h, x, y, 0, x, y));
        }
    } else {
        let m = (n - 1) as nat;
        let between = choose|between: Seq<u32>|
            dilated(mask, between, w, h, m) && #[trigger] dilated_once(between, after, w, h);
        law_dilation_spreads(mask, between, w, h, m);
        assert forall|x: int, y: int| 0 <= x < w && 0 <= y < h implies #[trigger] greatest_near(
            mask,
            w,
            h,
            x,
            y,
            n as int,
            after[y * w + x],
        ) by {
            let v = after[y * w + x];
            assert(inside(w, h, x, y));
            assert(window_max(between, w, h, x, y, v));
            let (i, j) = choose|i: int, j: int|
                x - 1 <= i <= x + 1 && y - 1 <= j <= y + 1 && inside(w, h, i, j) && v
                    == #[trigger] between[j * w + i];
            assert(greatest_near(mask, w, h, i, j, m as int, between[j * w + i]));
            let (a, b) = choose|a: int, b: int| #[trigger]
                near(w, h, i, j, m as int, a, b) && between[j * w + i] == mask[b * w + a];
            assert(near(w, h, x, y, n as int, a, b));
            assert forall|p: int, q: int| #[trigger] near(w, h, x, y, n as int, p, q) implies
                float_bits::no_less(v, mask[q * w + p]) by {
                let k = if p < x {
                    x - 1
                } else if p > x {
                    x + 1
                } else {
                    x
                };
                let l = if q < y {
                    y - 1
                } else if q > y {
                    y + 1
                } else {
                    y
                };
                assert(inside(w, h, k, l));
                assert(greatest_near(mask, w, h, k, l, m as int, between[l * w + k]));
                assert(near(w, h, k, l, m as int, p, q));
                assert(float_bits::no_less(v, between[l * w + k]));
            }
        }
    }
}

/// The effect spreads every value by as many pixels as it has passes, at the mask's
/// own width and height; the number of passes stays.
pub proof fn law_effect_spreads(
    e: &mut DilateMaskEffect,
    mask: &mut MaskPlane<'_>,
    context: &mut FrameContext,
    r: Result<(), EffectError>,
)
    requires
        call_ensures(<DilateMaskEffect as MaskEffect>::process, (e, mask, context), r),
    ensures
        r is Ok,
        *final(context) == *old(context),
        final(e).iterations() == old(e).iterations(),
        spread(
            old(mask).data@,
            final(mask).data@,
            old(mask).width as int,
            old(mask).height as int,
            old(e).iterations() as int,
        ),
{
    law_dilation_spreads(
        old(mask).data@,
        final(mask).data@,
        old(mask).width as int,
        old(mask).height as int,
        old(e).iterations() as nat,
    );
}

} // verus!
