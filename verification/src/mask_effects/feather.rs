//! Soft edges: a blur of the mask.
//!
//! The blur itself is a function handed to the effect:
//! `blur(mask, width, height, radius)`.  The effect decides when it runs and
//! puts the result back into the plane.

use vstd::prelude::*;
use crate::context::{EffectState, FrameContext, ProcessingContext};
use crate::error::EffectError;
use crate::mask_effects;
use crate::metadata::{
    CommitStrategy, EffectMetadata, ParamDescriptor, ParamKind, Scale, DEBOUNCE_FAST_MS,
};
use crate::text;
use crate::params::RawEffectParams;
use crate::plane::{EffectRules, MaskCall, MaskEffect, MaskPlane};

verus! {

/// Largest radius.
pub const MAX_RADIUS: u32 = 64;

/// Default radius.
pub const DEFAULT_RADIUS: u32 = 7;

/// Parameters of [`FeatherMaskEffect`].
#[derive(Debug, Clone, Copy, PartialEq, Eq, Structural)]
pub struct FeatherConfig {
    /// Half-kernel radius in pixels of the mask; zero disables the effect.
    pub radius: u32,
}

impl Default for FeatherConfig {
    fn default() -> (r: Self)
        ensures
            r.radius == DEFAULT_RADIUS,
    {
        FeatherConfig { radius: DEFAULT_RADIUS }
    }
}

/// Why `params` are refused, if they are.
pub open spec fn refusal(params: RawEffectParams) -> Option<Seq<char>> {
    match mask_effects::integer_field(params, "radius"@, DEFAULT_RADIUS) {
        Err(reason) => Some(reason),
        Ok(n) => if n > MAX_RADIUS {
            Some("radius must be <= 64, got "@ + text::decimal(n as nat))
        } else {
            None
        },
    }
}

/// Mask effect that blurs the mask.
pub struct FeatherMaskEffect<F: Fn(Vec<u32>, u32, u32, u32) -> Vec<u32> + Send> {
    radius: u32,
    blur: F,
}

impl<F: Fn(Vec<u32>, u32, u32, u32) -> Vec<u32> + Send> FeatherMaskEffect<F> {
    /// Effect name as registered in the mask registry.
    pub const NAME: &'static str = "feather";

    /// Every mask can be blurred.
    #[verifier::type_invariant]
    spec fn total(self) -> bool {
        forall|m: Vec<u32>, w: u32, h: u32, r: u32|
            m@.len() == w * h ==> call_requires(self.blur, (m, w, h, r))
    }

    /// Radius in use.
    pub closed spec fn radius(&self) -> u32 {
        self.radius
    }

    /// The blur.
    pub closed spec fn kernel(&self) -> F {
        self.blur
    }

    /// Self-describing metadata for the registry.
    pub fn metadata() -> (r: EffectMetadata)
        ensures
            r.name@ == Self::NAME@,
            r.help@ == "Blur the mask for a soft edge."@,
            r.params@.len() == 1,
            r.params@[0].name@ == "radius"@,
            r.params@[0].kind == (ParamKind::Integer {
                default: DEFAULT_RADIUS as i64,
                min: 0,
                max: MAX_RADIUS as i64,
                step: 1,
                scale: Scale::Linear,
            }),
            r.params@[0].help@ == "Half-kernel radius in mask pixels; 0 disables the effect."@,
            r.params@[0].commit == (CommitStrategy::Live { debounce_ms: DEBOUNCE_FAST_MS }),
    {
        EffectMetadata {
            name: Self::NAME,
            help: "Blur the mask for a soft edge.",
            params: &[
                ParamDescriptor {
                    name: "radius",
                    kind: ParamKind::Integer {
                        default: DEFAULT_RADIUS as i64,
                        min: 0,
                        max: MAX_RADIUS as i64,
                        step: 1,
                        scale: Scale::Linear,
                    },
                    help: "Half-kernel radius in mask pixels; 0 disables the effect.",
                    commit: CommitStrategy::Live { debounce_ms: DEBOUNCE_FAST_MS },
                },
            ],
        }
    }

    /// Construct with the default radius around a blur.
    #[must_use]
    pub fn new(blur: F) -> (r: Self)
        requires
            forall|m: Vec<u32>, w: u32, h: u32, r: u32|
                m@.len() == w * h ==> call_requires(blur, (m, w, h, r)),
        ensures
            r.radius() == DEFAULT_RADIUS,
            r.kernel() == blur,
    {
        FeatherMaskEffect { radius: DEFAULT_RADIUS, blur }
    }

    /// Radius in use.
    #[must_use]
    pub fn current_radius(&self) -> (r: u32)
        ensures
            r == self.radius(),
    {
        self.radius
    }
}

/// Whether `blurred` is a blur of `mask` with `radius`.
pub open spec fn blurs<F: Fn(Vec<u32>, u32, u32, u32) -> Vec<u32>>(
    blur: F,
    mask: Seq<u32>,
    width: u32,
    height: u32,
    radius: u32,
    blurred: Seq<u32>,
) -> bool {
    exists|input: Vec<u32>, output: Vec<u32>|
        input@ == mask && output@ == blurred && #[trigger] call_ensures(
            blur,
            (input, width, height, radius),
            output,
        )
}

/// Whether the effect may process a mask: it blurs the mask with its radius.
pub open spec fn ran<F: Fn(Vec<u32>, u32, u32, u32) -> Vec<u32>>(
    blur: F,
    s: EffectState,
    c: MaskCall,
    t: EffectState,
    r: Result<(), EffectError>,
) -> bool {
    &&& t == s
    &&& c.context_after == c.context
    &&& if s.settings[0] == 0 {
        r is Ok && c.mask_after == c.mask
    } else {
        exists|blurred: Seq<u32>| #[trigger]
            blurs(blur, c.mask, c.width, c.height, s.settings[0], blurred)
                && if blurred.len() == c.mask.len() {
                r is Ok && c.mask_after == blurred
            } else {
                c.mask_after == c.mask && (r matches Err(e) && (
                e matches EffectError::ProcessFailed { name, reason } && name@ == "feather"@
                    && reason@ == "blur changed the size of the mask"@))
            }
    }
}

impl<F: Fn(Vec<u32>, u32, u32, u32) -> Vec<u32> + Send> MaskEffect for FeatherMaskEffect<F> {
    open spec fn state(&self) -> EffectState {
        EffectState { settings: seq![self.radius()], memory: Seq::empty() }
    }

    open spec fn rules(&self) -> EffectRules<MaskCall> {
        let k = self.kernel();
        EffectRules {
            id: Self::NAME@,
            configure: |
                s: EffectState,
                p: RawEffectParams,
                t: EffectState,
                r: Result<(), EffectError>,
            | mask_effects::takes_integer(
                Self::NAME@,
                "radius"@,
                DEFAULT_RADIUS,
                refusal(p),
                s,
                p,
                t,
                r,
            ),
            prepare: |
                s: EffectState,
                c: ProcessingContext,
                t: EffectState,
                r: Result<(), EffectError>,
            | mask_effects::unchanged(s, t, r),
            process: |s: EffectState, c: MaskCall, t: EffectState, r: Result<(), EffectError>|
                ran(k, s, c, t, r),
            reset: |s: EffectState, t: EffectState| t == s,
            shut_down: |s: EffectState, t: EffectState, r: Result<(), EffectError>|
                mask_effects::unchanged(s, t, r),
        }
    }

    fn name(&self) -> (r: &'static str) {
        Self::NAME
    }

    fn configure(&mut self, params: RawEffectParams) -> (r: Result<(), EffectError>)
        ensures
            r is Ok ==> mask_effects::integer_field(params, "radius"@, DEFAULT_RADIUS) == Ok::<
                u32,
                Seq<char>,
            >(final(self).radius()),
            r is Err ==> *final(self) == *old(self),
            final(self).kernel() == old(self).kernel(),
    {
        proof {
            use_type_invariant(&*self);
        }
        match mask_effects::read_integer(params, "radius", DEFAULT_RADIUS) {
            Ok(n) => {
                if n > MAX_RADIUS {
                    let mut reason = "radius must be <= 64, got ".to_owned();
                    text::push_decimal(&mut reason, n as u64);
                    return Err(mask_effects::invalid_config(Self::NAME, reason));
                }
                self.radius = n;
                Ok(())
            },
            Err(reason) => Err(mask_effects::invalid_config(Self::NAME, reason)),
        }
    }

    fn prepare(&mut self, _context: &ProcessingContext) -> (r: Result<(), EffectError>)
        ensures
            *final(self) == *old(self),
    {
        Ok(())
    }

    fn process(&mut self, mask: &mut MaskPlane<'_>, context: &mut FrameContext) -> (r: Result<
        (),
        EffectError,
    >)
        ensures
            *final(self) == *old(self),
    {
        proof {
            use_type_invariant(&*self);
        }
        if self.radius == 0 {
            return Ok(());
        }
        let n: usize = mask.data.len();
        let input = vstd::slice::slice_to_vec(&*mask.data);
        let ghost given = input;
        let output = (self.blur)(input, mask.width, mask.height, self.radius);
        assert(call_ensures(
            self.kernel(),
            (given, mask.width, mask.height, self.radius()),
            output,
        ));
        let ghost held = self.state();
        assert(held.settings[0] == self.radius());
        assert(blurs(
            self.kernel(),
            old(mask).data@,
            mask.width,
            mask.height,
            held.settings[0],
            output@,
        ));
        if output.len() != n {
            let r: Result<(), EffectError> = Err(
                EffectError::process_failed(
                    Self::NAME,
                    "blur changed the size of the mask".to_owned(),
                ),
            );
            let ghost call = MaskCall {
                width: mask.width,
                height: mask.height,
                mask: old(mask).data@,
                context: *old(context),
                mask_after: mask.data@,
                context_after: *context,
            };
            assert(blurs(
                self.kernel(),
                call.mask,
                call.width,
                call.height,
                held.settings[0],
                output@,
            ));
            assert(ran(self.kernel(), held, call, held, r));
            return r;
        }
        let mut i: usize = 0;
        while i < n
            invariant
                i <= n,
                n == mask.data@.len(),
                output@.len() == n,
                mask.width == old(mask).width,
                mask.height == old(mask).height,
                final(mask.data)@ == final(old(mask).data)@,
                forall|k: int| 0 <= k < i ==> mask.data@[k] == output@[k],
            decreases n - i,
        {
            mask.data[i] = output[i];
            i = i + 1;
        }
        proof {
            assert(mask.data@ =~= output@);
            let call = MaskCall {
                width: mask.width,
                height: mask.height,
                mask: old(mask).data@,
                context: *old(context),
                mask_after: mask.data@,
                context_after: *context,
            };
            assert(blurs(
                self.kernel(),
                call.mask,
                call.width,
                call.height,
                held.settings[0],
                output@,
            ));
            assert(ran(self.kernel(), held, call, held, Ok(())));
        }
        Ok(())
    }

    fn reset_state(&mut self)
        ensures
            *final(self) == *old(self),
    {
    }

    fn shutdown(&mut self) -> (r: Result<(), EffectError>)
        ensures
            *final(self) == *old(self),
    {
        Ok(())
    }
}

} // verus!
