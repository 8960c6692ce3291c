//! Mask inversion.
//!
//! The arithmetic on one value (`1 - value`, cut off to the unit interval) is a
//! function handed to the effect; the effect applies it to every value.

use vstd::prelude::*;
use crate::context::{EffectState, FrameContext, ProcessingContext};
use crate::error::EffectError;
use crate::metadata::EffectMetadata;
use crate::params::RawEffectParams;
use crate::plane::{EffectRules, MaskCall, MaskEffect, MaskPlane};

verus! {

/// Mask effect that inverts every value.
pub struct InvertMaskEffect<F: Fn(u32) -> u32 + Send> {
    complement: F,
}

impl<F: Fn(u32) -> u32 + Send> InvertMaskEffect<F> {
    /// Effect name as registered in the mask registry.
    pub const NAME: &'static str = "invert";

    /// The complement can be taken of every value.
    #[verifier::type_invariant]
    spec fn total(self) -> bool {
        forall|v: u32| call_requires(self.complement, (v,))
    }

    /// The complement of one value.
    pub closed spec fn kernel(&self) -> F {
        self.complement
    }

    /// Whether `b` is a complement of `a`.
    pub open spec fn complements(&self, a: u32, b: u32) -> bool {
        call_ensures(self.kernel(), (a,), b)
    }

    /// Self-describing metadata for the registry.
    pub fn metadata() -> (r: EffectMetadata)
        ensures
            r.name@ == Self::NAME@,
            r.help@ == "Invert the mask (value = 1 - value)."@,
            r.params@.len() == 0,
    {
        EffectMetadata {
            name: Self::NAME,
            help: "Invert the mask (value = 1 - value).",
            params: &[],
        }
    }

    /// Construct around the complement of one value.
    #[must_use]
    pub fn new(complement: F) -> (r: Self)
        requires
            forall|v: u32| call_requires(complement, (v,)),
        ensures
            r.kernel() == complement,
    {
        InvertMaskEffect { complement }
    }
}

/// Whether the effect may process a mask: it takes the complement of every value.
pub open spec fn ran<F: Fn(u32) -> u32>(
    complement: F,
    s: EffectState,
    c: MaskCall,
    t: EffectState,
    r: Result<(), EffectError>,
) -> bool {
    &&& r is Ok
    &&& t == s
    &&& c.context_after == c.context
    &&& c.mask_after.len() == c.mask.len()
    &&& forall|i: int|
        0 <= i < c.mask.len() ==> call_ensures(complement, (c.mask[i],), #[trigger] c.mask_after[i])
}

impl<F: Fn(u32) -> u32 + Send> MaskEffect for InvertMaskEffect<F> {
    open spec fn state(&self) -> EffectState {
        EffectState { settings: Seq::empty(), memory: Seq::empty() }
    }

    open spec fn rules(&self) -> EffectRules<MaskCall> {
        let k = self.kernel();
        EffectRules {
            id: Self::NAME@,
            configure: |
                s: EffectState,
                p: RawEffectParams,
                t: EffectState,
                r: Result<(), EffectError>,
            | r is Ok && t == s,
            prepare: |
                s: EffectState,
                c: ProcessingContext,
                t: EffectState,
                r: Result<(), EffectError>,
            | r is Ok && t == s,
            process: |s: EffectState, c: MaskCall, t: EffectState, r: Result<(), EffectError>|
                ran(k, s, c, t, r),
            reset: |s: EffectState, t: EffectState| t == s,
            shut_down: |s: EffectState, t: EffectState, r: Result<(), EffectError>|
                r is Ok && t == s,
        }
    }

    fn name(&self) -> (r: &'static str) {
        Self::NAME
    }

    fn configure(&mut self, _params: RawEffectParams) -> (r: Result<(), EffectError>)
        ensures
            *final(self) == *old(self),
    {
        Ok(())
    }

    fn prepare(&mut self, _context: &ProcessingContext) -> (r: Result<(), EffectError>)
        ensures
            *final(self) == *old(self),
    {
        Ok(())
    }

    fn process(&mut self, mask: &mut MaskPlane<'_>, _context: &mut FrameContext) -> (r: Result<
        (),
        EffectError,
    >)
        ensures
            *final(self) == *old(self),
    {
        proof {
            use_type_invariant(&*self);
        }
        let n: usize = mask.data.len();
        let mut i: usize = 0;
        while i < n
            invariant
                i <= n,
                n == mask.data@.len(),
                mask.data@.len() == old(mask).data@.len(),
                mask.width == old(mask).width,
                mask.height == old(mask).height,
                final(mask.data)@ == final(old(mask).data)@,
                *self == *old(self),
                forall|v: u32| call_requires(self.complement, (v,)),
                forall|k: int|
                    0 <= k < i ==> self.complements(old(mask).data@[k], #[trigger] mask.data@[k]),
                forall|k: int| i <= k < n ==> mask.data@[k] == old(mask).data@[k],
            decreases n - i,
        {
            let v: u32 = (self.complement)(mask.data[i]);
            mask.data[i] = v;
            i = i + 1;
        }
        Ok(())
    }

    fn reset_state(&mut self)
        ensures
            *final(self) == *old(self),
    {
    }

    fn shutdown(&mut self) -> (r: Result<(), EffectError>)
        ensures
            *final(self) == *old(self),
    {
        Ok(())
    }
}

} // verus!
