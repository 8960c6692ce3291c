//! Binarise the mask at a configurable level.

use vstd::prelude::*;
use crate::context::{EffectState, FrameContext, ProcessingContext};
use crate::error::EffectError;
use crate::float_bits;
use crate::mask_effects;
use crate::metadata::{
    CommitStrategy, EffectMetadata, ParamDescriptor, ParamKind, Scale, DEBOUNCE_FAST_MS,
};
use crate::params::RawEffectParams;
use crate::plane::{EffectRules, MaskCall, MaskEffect, MaskPlane};

verus! {

/// Bit pattern of the default level, `0.5`.
pub const DEFAULT_LEVEL: u32 = 0x3F00_0000;

/// Parameters of [`ThresholdMaskEffect`].
#[derive(Debug, Clone, Copy, PartialEq, Eq, Structural)]
pub struct ThresholdConfig {
    /// Values of at least this level become one, others zero.
    pub level: u32,
}

impl Default for ThresholdConfig {
    fn default() -> (r: Self)
        ensures
            r.level == DEFAULT_LEVEL,
    {
        ThresholdConfig { level: DEFAULT_LEVEL }
    }
}

/// One for values of at least `level`, zero for others.
pub open spec fn binarised(mask: Seq<u32>, level: u32) -> Seq<u32> {
    mask.map_values(
        |v: u32|
            if float_bits::ge(v, level) {
                float_bits::ONE
            } else {
                float_bits::ZERO
            },
    )
}

/// Set every value of at least `level` to one and every other to zero.
pub fn threshold(mask: &mut [u32], level: u32)
    ensures
        final(mask)@ == binarised(old(mask)@, level),
{
    let mut i: usize = 0;
    while i < mask.len()
        invariant
            i <= mask@.len(),
            mask@.len() == old(mask)@.len(),
            forall|k: int| 0 <= k < i ==> mask@[k] == binarised(old(mask)@, level)[k],
            forall|k: int| i <= k < mask@.len() ==> mask@[k] == old(mask)@[k],
        decreases mask@.len() - i,
    {
        let v: u32 = if float_bits::at_least(mask[i], level) {
            float_bits::ONE
        } else {
            float_bits::ZERO
        };
        mask[i] = v;
        i = i + 1;
    }
    proof {
        assert(mask@ =~= binarised(old(mask)@, level));
    }
}

/// Mask effect around [`threshold`].
pub struct ThresholdMaskEffect {
    level: u32,
}

impl ThresholdMaskEffect {
    /// Effect name as registered in the mask registry.
    pub const NAME: &'static str = "threshold";

    /// Bit pattern of the level in use.
    pub closed spec fn level(&self) -> u32 {
        self.level
    }

    /// Self-describing metadata for the registry.
    pub fn metadata() -> (r: EffectMetadata)
        ensures
            r.name@ == Self::NAME@,
            r.help@ == "Binarise the mask at a configurable level."@,
            r.params@.len() == 1,
            r.params@[0].name@ == "level"@,
            r.params@[0].kind == (ParamKind::Float {
                default: DEFAULT_LEVEL,
                min: float_bits::ZERO,
                max: float_bits::ONE,
                step: 0x3C23_D70A,
                scale: Scale::Linear,
            }),
            r.params@[0].help@ == "Values >= level become 1, others 0."@,
            r.params@[0].commit == (CommitStrategy::Live { debounce_ms: DEBOUNCE_FAST_MS }),
    {
        EffectMetadata {
            name: Self::NAME,
            help: "Binarise the mask at a configurable level.",
            params: &[
                ParamDescriptor {
                    name: "level",
                    kind: ParamKind::Float {
                        default: DEFAULT_LEVEL,
                        min: float_bits::ZERO,
                        max: float_bits::ONE,
                        step: 0x3C23_D70A,
                        scale: Scale::Linear,
                    },
                    help: "Values >= level become 1, others 0.",
                    commit: CommitStrategy::Live { debounce_ms: DEBOUNCE_FAST_MS },
                },
            ],
        }
    }

    /// Construct with the default level.
    #[must_use]
    pub fn new() -> (r: Self)
        ensures
            r.level() == DEFAULT_LEVEL,
    {
        ThresholdMaskEffect { level: DEFAULT_LEVEL }
    }

    /// Bit pattern of the level in use.
    #[must_use]
    pub fn current_level(&self) -> (r: u32)
        ensures
            r == self.level(),
    {
        self.level
    }
}

/// Whether the effect may process a mask: it binarises the mask at its level.
pub open spec fn ran(
    s: EffectState,
    c: MaskCall,
    t: EffectState,
    r: Result<(), EffectError>,
) -> bool {
    &&& r is Ok
    &&& t == s
    &&& c.context_after == c.context
    &&& c.mask_after == binarised(c.mask, s.settings[0])
}

impl MaskEffect for ThresholdMaskEffect {
    open spec fn state(&self) -> EffectState {
        EffectState { settings: seq![self.level()], memory: Seq::empty() }
    }

    open spec fn rules(&self) -> EffectRules<MaskCall> {
        EffectRules {
            id: Self::NAME@,
            configure: |
                s: EffectState,
                p: RawEffectParams,
                t: EffectState,
                r: Result<(), EffectError>,
            | mask_effects::takes_unit(Self::NAME@, "level"@, DEFAULT_LEVEL, s, p, t, r),
            prepare: |
                s: EffectState,
                c: ProcessingContext,
                t: EffectState,
                r: Result<(), EffectError>,
            | mask_effects::unchanged(s, t, r),
            process: |s: EffectState, c: MaskCall, t: EffectState, r: Result<(), EffectError>|
                ran(s, c, t, r),
            reset: |s: EffectState, t: EffectState| t == s,
            shut_down: |s: EffectState, t: EffectState, r: Result<(), EffectError>|
                mask_effects::unchanged(s, t, r),
        }
    }

    fn name(&self) -> (r: &'static str) {
        Self::NAME
    }

    fn configure(&mut self, params: RawEffectParams) -> (r: Result<(), EffectError>)
        ensures
            match mask_effects::unit_field(params, "level"@, DEFAULT_LEVEL) {
                Ok(level) => final(self).level() == level,
                Err(_) => *final(self) == *old(self),
            },
    {
        match mask_effects::read_unit(params, "level", DEFAULT_LEVEL) {
            Ok(level) => {
                self.level = level;
                Ok(())
            },
            Err(reason) => Err(mask_effects::invalid_config(Self::NAME, reason)),
        }
    }

    fn prepare(&mut self, _context: &ProcessingContext) -> (r: Result<(), EffectError>)
        ensures
            *final(self) == *old(self),
    {
        Ok(())
    }

    fn process(&mut self, mask: &mut MaskPlane<'_>, _context: &mut FrameContext) -> (r: Result<
        (),
        EffectError,
    >)
        ensures
            *final(self) == *old(self),
    {
        threshold(mask.data, self.level);
        Ok(())
    }

    fn reset_state(&mut self)
        ensures
            *final(self) == *old(self),
    {
    }

    fn shutdown(&mut self) -> (r: Result<(), EffectError>)
        ensures
            *final(self) == *old(self),
    {
        Ok(())
    }
}

/// Binarising twice is binarising once, for every level above zero and up to
/// one.
pub proof fn law_threshold_idempotent(mask: Seq<u32>, level: u32)
    requires
        0 < float_bits::rank(level) <= float_bits::ONE,
    ensures
        binarised(binarised(mask, level), level) == binarised(mask, level),
{
    assert(binarised(binarised(mask, level), level) =~= binarised(mask, level));
}

/// Every value comes out as one where it is at least the level in use, and as zero
/// where it is not; the level stays.
pub proof fn law_each_value_is_decided(
    e: &mut ThresholdMaskEffect,
    mask: &mut MaskPlane<'_>,
    context: &mut FrameContext,
    r: Result<(), EffectError>,
)
    requires
        call_ensures(<ThresholdMaskEffect as MaskEffect>::process, (e, mask, context), r),
    ensures
        r is Ok,
        *final(context) == *old(context),
        final(e).level() == old(e).level(),
        final(mask).data@.len() == old(mask).data@.len(),
        forall|i: int|
            0 <= i < old(mask).data@.len() ==> #[trigger] final(mask).data@[i] == (
            if float_bits::value_at_least(old(mask).data@[i], old(e).level()) {
                0x3F80_0000u32
            } else {
                0u32
            }),
{
    assert forall|i: int| 0 <= i < old(mask).data@.len() implies #[trigger] final(mask).data@[i]
        == (if float_bits::value_at_least(old(mask).data@[i], old(e).level()) {
        0x3F80_0000u32
    } else {
        0u32
    }) by {
        float_bits::law_order(old(mask).data@[i], old(e).level(), 0);
    }
}

/// A value that the threshold lets pass at one level it lets pass at every lower one.
pub proof fn law_lower_level_keeps_more(mask: Seq<u32>, low: u32, high: u32, i: int)
    requires
        0 <= i < mask.len(),
        float_bits::value_at_least(high, low),
    ensures
        binarised(mask, high)[i] == 0x3F80_0000u32 ==> binarised(mask, low)[i] == 0x3F80_0000u32,
        binarised(mask, low).len() == mask.len(),
{
    float_bits::law_order(mask[i], high, low);
}

} // verus!
