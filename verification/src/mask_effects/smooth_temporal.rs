//! Smoothing across consecutive frames.
//!
//! The effect keeps the previous frame's raw mask and emits
//! `factor * previous + (1 - factor) * current`.  On the first frame, and when
//! the number of values changes, it takes the current mask as the new state and
//! emits it unchanged, so no ghost of a stale plane appears.  The blend of one
//! pair of values is a function handed to the effect.

use vstd::prelude::*;
use crate::context::{EffectState, FrameContext, ProcessingContext};
use crate::error::EffectError;
use crate::float_bits;
use crate::mask_effects;
use crate::metadata::{
    CommitStrategy, EffectMetadata, ParamDescriptor, ParamKind, Scale, DEBOUNCE_FAST_MS,
};
use crate::params::RawEffectParams;
use crate::plane::{EffectRules, MaskCall, MaskEffect, MaskPlane};

verus! {

/// Bit pattern of the default factor, `0.65`.
pub const DEFAULT_FACTOR: u32 = 0x3F26_6666;

/// Parameters of [`SmoothTemporalMaskEffect`].
#[derive(Debug, Clone, Copy, PartialEq, Eq, Structural)]
pub struct SmoothTemporalConfig {
    /// Weight of the previous frame; zero disables the effect.
    pub factor: u32,
}

impl Default for SmoothTemporalConfig {
    fn default() -> (r: Self)
        ensures
            r.factor == DEFAULT_FACTOR,
    {
        SmoothTemporalConfig { factor: DEFAULT_FACTOR }
    }
}

/// Mask effect that smooths over time.
pub struct SmoothTemporalMaskEffect<B: Fn(u32, u32, u32) -> u32 + Send> {
    factor: u32,
    prev: Vec<u32>,
    blend: B,
}

impl<B: Fn(u32, u32, u32) -> u32 + Send> SmoothTemporalMaskEffect<B> {
    /// Effect name as registered in the mask registry.
    pub const NAME: &'static str = "smooth_temporal";

    /// Every pair of values can be blended.
    #[verifier::type_invariant]
    spec fn total(self) -> bool {
        forall|f: u32, a: u32, b: u32| call_requires(self.blend, (f, a, b))
    }

    /// Bit pattern of the factor in use.
    pub closed spec fn factor(&self) -> u32 {
        self.factor
    }

    /// Raw mask of the previous frame; empty before the first.
    pub closed spec fn prev(&self) -> Seq<u32> {
        self.prev@
    }

    /// The blend of one pair of values.
    pub closed spec fn kernel(&self) -> B {
        self.blend
    }

    /// Whether `v` is a blend of `a` and `b` with the factor in use.
    pub open spec fn blends(&self, a: u32, b: u32, v: u32) -> bool {
        call_ensures(self.kernel(), (self.factor(), a, b), v)
    }

    /// Self-describing metadata for the registry.
    pub fn metadata() -> (r: EffectMetadata)
        ensures
            r.name@ == Self::NAME@,
            r.help@ == "Exponential moving average of the mask over time."@,
            r.params@.len() == 1,
            r.params@[0].name@ == "factor"@,
            r.params@[0].kind == (ParamKind::Float {
                default: DEFAULT_FACTOR,
                min: float_bits::ZERO,
                max: float_bits::ONE,
                step: 0x3C23_D70A,
                scale: Scale::Linear,
            }),
            r.params@[0].help@ == "Weight of the previous frame; 0 disables smoothing."@,
            r.params@[0].commit == (CommitStrategy::Live { debounce_ms: DEBOUNCE_FAST_MS }),
    {
        EffectMetadata {
            name: Self::NAME,
            help: "Exponential moving average of the mask over time.",
            params: &[
                ParamDescriptor {
                    name: "factor",
                    kind: ParamKind::Float {
                        default: DEFAULT_FACTOR,
                        min: float_bits::ZERO,
                        max: float_bits::ONE,
                        step: 0x3C23_D70A,
                        scale: Scale::Linear,
                    },
                    help: "Weight of the previous frame; 0 disables smoothing.",
                    commit: CommitStrategy::Live { debounce_ms: DEBOUNCE_FAST_MS },
                },
            ],
        }
    }

    /// Construct with the default factor around the blend of one pair of
    /// values: `blend(factor, previous, current)`.
    #[must_use]
    pub fn new(blend: B) -> (r: Self)
        requires
            forall|f: u32, a: u32, b: u32| call_requires(blend, (f, a, b)),
        ensures
            r.factor() == DEFAULT_FACTOR,
            r.prev().len() == 0,
            r.kernel() == blend,
    {
        SmoothTemporalMaskEffect { factor: DEFAULT_FACTOR, prev: Vec::new(), blend }
    }

    /// Raw mask of the previous frame; empty before the first.
    #[must_use]
    pub fn previous(&self) -> (r: &[u32])
        ensures
            r@ == self.prev(),
    {
        self.prev.as_slice()
    }
}

/// The values of `mask` as a vector.
fn copied(mask: &[u32]) -> (r: Vec<u32>)
    ensures
        r@ == mask@,
{
    vstd::slice::slice_to_vec(mask)
}

/// The state without the previous mask.
pub open spec fn forgotten(s: EffectState) -> EffectState {
    EffectState { memory: Seq::empty(), ..s }
}

/// Whether the effect may process a mask: it blends the mask with the previous
/// one, where there is one of the same length, and keeps the raw mask.
pub open spec fn ran<B: Fn(u32, u32, u32) -> u32>(
    blend: B,
    s: EffectState,
    c: MaskCall,
    t: EffectState,
    r: Result<(), EffectError>,
) -> bool {
    let factor = s.settings[0];
    &&& r is Ok
    &&& c.context_after == c.context
    &&& t == (if float_bits::rank(factor) == 0 {
        s
    } else {
        EffectState { memory: c.mask, ..s }
    })
    &&& if float_bits::rank(factor) == 0 || s.memory.len() != c.mask.len() {
        c.mask_after == c.mask
    } else {
        &&& c.mask_after.len() == c.mask.len()
        &&& forall|i: int|
            0 <= i < c.mask.len() ==> call_ensures(
                blend,
                (factor, s.memory[i], c.mask[i]),
                #[trigger] c.mask_after[i],
            )
    }
}

impl<B: Fn(u32, u32, u32) -> u32 + Send> MaskEffect for SmoothTemporalMaskEffect<B> {
    open spec fn state(&self) -> EffectState {
        EffectState { settings: seq![self.factor()], memory: self.prev() }
    }

    open spec fn rules(&self) -> EffectRules<MaskCall> {
        let k = self.kernel();
        EffectRules {
            id: Self::NAME@,
            configure: |
                s: EffectState,
                p: RawEffectParams,
                t: EffectState,
                r: Result<(), EffectError>,
            | mask_effects::takes_unit(Self::NAME@, "factor"@, DEFAULT_FACTOR, s, p, t, r),
            prepare: |
                s: EffectState,
                c: ProcessingContext,
                t: EffectState,
                r: Result<(), EffectError>,
            | r is Ok && t == forgotten(s),
            process: |s: EffectState, c: MaskCall, t: EffectState, r: Result<(), EffectError>|
                ran(k, s, c, t, r),
            reset: |s: EffectState, t: EffectState| t == forgotten(s),
            shut_down: |s: EffectState, t: EffectState, r: Result<(), EffectError>|
                mask_effects::unchanged(s, t, r),
        }
    }

    fn name(&self) -> (r: &'static str) {
        Self::NAME
    }

    fn configure(&mut self, params: RawEffectParams) -> (r: Result<(), EffectError>)
        ensures
            match mask_effects::unit_field(params, "factor"@, DEFAULT_FACTOR) {
                Ok(factor) => final(self).factor() == factor && final(self).prev()
                    == old(self).prev(),
                Err(_) => *final(self) == *old(self),
            },
            final(self).kernel() == old(self).kernel(),
    {
        proof {
            use_type_invariant(&*self);
        }
        match mask_effects::read_unit(params, "factor", DEFAULT_FACTOR) {
            Ok(factor) => {
                self.factor = factor;
                Ok(())
            },
            Err(reason) => Err(mask_effects::invalid_config(Self::NAME, reason)),
        }
    }

    fn prepare(&mut self, _context: &ProcessingContext) -> (r: Result<(), EffectError>)
        ensures
            final(self).prev().len() == 0,
            final(self).factor() == old(self).factor(),
            final(self).kernel() == old(self).kernel(),
    {
        proof {
            use_type_invariant(&*self);
        }
        self.prev = Vec::new();
        Ok(())
    }

    fn process(&mut self, mask: &mut MaskPlane<'_>, _context: &mut FrameContext) -> (r: Result<
        (),
        EffectError,
    >)
        ensures
            final(self).factor() == old(self).factor(),
            final(self).kernel() == old(self).kernel(),
            final(self).prev() == (if float_bits::rank(old(self).factor()) == 0 {
                old(self).prev()
            } else {
                old(mask).data@
            }),
    {
        proof {
            use_type_invariant(&*self);
        }
        if self.factor == float_bits::ZERO || self.factor == float_bits::SIGN {
            return Ok(());
        }
        let raw = copied(mask.data);
        let n: usize = mask.data.len();
        if self.prev.len() != n {
            self.prev = raw;
            return Ok(());
        }
        let mut i: usize = 0;
        while i < n
            invariant
                i <= n,
                n == mask.data@.len(),
                mask.data@.len() == old(mask).data@.len(),
                mask.width == old(mask).width,
                mask.height == old(mask).height,
                final(mask.data)@ == final(old(mask).data)@,
                *self == *old(self),
                self.prev@.len() == n,
                forall|f: u32, a: u32, b: u32| call_requires(self.blend, (f, a, b)),
                forall|k: int|
                    0 <= k < i ==> self.blends(
                        self.prev@[k],
                        old(mask).data@[k],
                        #[trigger] mask.data@[k],
                    ),
                forall|k: int| i <= k < n ==> mask.data@[k] == old(mask).data@[k],
            decreases n - i,
        {
            let v: u32 = (self.blend)(self.factor, self.prev[i], mask.data[i]);
            mask.data[i] = v;
            i = i + 1;
        }
        self.prev = raw;
        Ok(())
    }

    fn reset_state(&mut self)
        ensures
            final(self).factor() == old(self).factor(),
            final(self).kernel() == old(self).kernel(),
    {
        proof {
            use_type_invariant(&*self);
        }
        self.prev = Vec::new();
    }

    fn shutdown(&mut self) -> (r: Result<(), EffectError>)
        ensures
            *final(self) == *old(self),
    {
        Ok(())
    }
}

/// The factor weighs the previous frame: a mask that follows one of the same length
/// comes out, value by value, as the blend of the factor, the previous raw value and
/// the current value, in this order.  A first mask, one of another length, and every
/// mask under a factor of zero come out as they went in.
pub proof fn law_factor_weighs_the_previous_mask<B: Fn(u32, u32, u32) -> u32 + Send>(
    e: &mut SmoothTemporalMaskEffect<B>,
    mask: &mut MaskPlane<'_>,
    context: &mut FrameContext,
    r: Result<(), EffectError>,
)
    requires
        call_ensures(
            <SmoothTemporalMaskEffect<B> as MaskEffect>::process,
            (e, mask, context),
            r,
        ),
    ensures
        r is Ok,
        *final(context) == *old(context),
        final(mask).data@.len() == old(mask).data@.len(),
        final(e).kernel() == old(e).kernel(),
        final(e).factor() == old(e).factor(),
        old(e).factor() != float_bits::ZERO && old(e).factor() != float_bits::SIGN && old(e).prev().len() == old(mask).data@.len() ==> forall|i: int|
            0 <= i < old(mask).data@.len() ==> call_ensures(
                old(e).kernel(),
                (old(e).factor(), old(e).prev()[i], old(mask).data@[i]),
                #[trigger] final(mask).data@[i],
            ),
        old(e).factor() == float_bits::ZERO || old(e).factor() == float_bits::SIGN || old(e).prev().len() != old(mask).data@.len() ==> final(mask).data@ == old(mask).data@,
        old(e).factor() != float_bits::ZERO && old(e).factor() != float_bits::SIGN ==> final(e).prev() == old(mask).data@,
{
}

/// Two frames in a row: under a factor of one, with a kernel that keeps the previous
/// value there, the second mask comes out as the first raw mask.
pub proof fn law_full_factor_holds<B: Fn(u32, u32, u32) -> u32 + Send>(
    e: &SmoothTemporalMaskEffect<B>,
    s: EffectState,
    first: MaskCall,
    t: EffectState,
    second: MaskCall,
    u: EffectState,
)
    requires
        s.settings == seq![float_bits::ONE],
        (e.rules().process)(s, first, t, Ok(())),
        (e.rules().process)(t, second, u, Ok(())),
        first.mask.len() == second.mask.len(),
        forall|a: u32, b: u32, v: u32| #[trigger]
            call_ensures(e.kernel(), (float_bits::ONE, a, b), v) ==> v == a,
    ensures
        second.mask_after == first.mask,
        t.settings == s.settings,
        u.memory == second.mask,
{
    assert(s.settings[0] == float_bits::ONE);
    assert(second.mask_after =~= first.mask);
}

/// Preparing and resetting forget the previous mask and nothing else, so the next
/// mask comes out as it went in.
pub proof fn law_forgotten_mask_leaves_no_trace<B: Fn(u32, u32, u32) -> u32 + Send>(
    e: &SmoothTemporalMaskEffect<B>,
    s: EffectState,
    context: ProcessingContext,
    t: EffectState,
    c: MaskCall,
    u: EffectState,
)
    requires
        (e.rules().reset)(s, t) || (e.rules().prepare)(s, context, t, Ok(())),
        (e.rules().process)(t, c, u, Ok(())),
        s.settings.len() == 1,
    ensures
        t.settings == s.settings,
        c.mask_after == c.mask,
{
    assert(c.mask_after =~= c.mask);
}

} // verus!
