//! Identity mask effect: leaves the mask untouched.
//!
//! Listing it in a chain is a readable way to document intent.

use vstd::prelude::*;
use crate::context::{EffectState, FrameContext, ProcessingContext};
use crate::error::EffectError;
use crate::metadata::EffectMetadata;
use crate::params::RawEffectParams;
use crate::plane::{EffectRules, MaskCall, MaskEffect, MaskPlane};

verus! {

/// Mask effect that does nothing.
pub struct PassthroughMaskEffect;

impl PassthroughMaskEffect {
    /// Effect name as registered in the mask registry.
    pub const NAME: &'static str = "passthrough";

    /// Self-describing metadata for the registry.
    pub fn metadata() -> (r: EffectMetadata)
        ensures
            r.name@ == Self::NAME@,
            r.help@ == "Identity mask: leaves the mask untouched."@,
            r.params@.len() == 0,
    {
        EffectMetadata {
            name: Self::NAME,
            help: "Identity mask: leaves the mask untouched.",
            params: &[],
        }
    }

    /// Construct.
    #[must_use]
    pub fn new() -> (r: Self) {
        PassthroughMaskEffect
    }
}

/// Whether the effect may process a mask: it leaves the mask alone.
pub open spec fn ran(
    s: EffectState,
    c: MaskCall,
    t: EffectState,
    r: Result<(), EffectError>,
) -> bool {
    &&& r is Ok
    &&& t == s
    &&& c.context_after == c.context
    &&& c.mask_after == c.mask
}

impl MaskEffect for PassthroughMaskEffect {
    open spec fn state(&self) -> EffectState {
        EffectState { settings: Seq::empty(), memory: Seq::empty() }
    }

    open spec fn rules(&self) -> EffectRules<MaskCall> {
        EffectRules {
            id: Self::NAME@,
            configure: |
                s: EffectState,
                p: RawEffectParams,
                t: EffectState,
                r: Result<(), EffectError>,
            | r is Ok && t == s,
            prepare: |
                s: EffectState,
                c: ProcessingContext,
                t: EffectState,
                r: Result<(), EffectError>,
            | r is Ok && t == s,
            process: |s: EffectState, c: MaskCall, t: EffectState, r: Result<(), EffectError>|
                ran(s, c, t, r),
            reset: |s: EffectState, t: EffectState| t == s,
            shut_down: |s: EffectState, t: EffectState, r: Result<(), EffectError>|
                r is Ok && t == s,
        }
    }

    fn name(&self) -> (r: &'static str) {
        Self::NAME
    }

    fn configure(&mut self, _params: RawEffectParams) -> (r: Result<(), EffectError>)
        ensures
            *final(self) == *old(self),
    {
        Ok(())
    }

    fn prepare(&mut self, _context: &ProcessingContext) -> (r: Result<(), EffectError>)
        ensures
            *final(self) == *old(self),
    {
        Ok(())
    }

    fn process(&mut self, _mask: &mut MaskPlane<'_>, _context: &mut FrameContext) -> (r: Result<
        (),
        EffectError,
    >)
        ensures
            *final(self) == *old(self),
    {
        Ok(())
    }

    fn reset_state(&mut self)
        ensures
            *final(self) == *old(self),
    {
    }

    fn shutdown(&mut self) -> (r: Result<(), EffectError>)
        ensures
            *final(self) == *old(self),
    {
        Ok(())
    }
}

} // verus!
