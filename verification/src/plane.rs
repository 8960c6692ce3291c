//! Plane views and effect traits of the segmented-composite pipeline.
//!
//! The pipeline has four sub-chains: mask post-processing, background,
//! foreground and post-composite.  Mask effects work on confidence values,
//! plane and post effects on packed RGB.
//!
//! An effect is specified as a transition system: its `rules` say which outcomes
//! each operation allows from what the effect holds (`state`) to what it holds
//! afterwards, and no operation changes the rules.  A chain of effects is
//! specified through them.

use vstd::prelude::*;
use crate::context::{EffectState, FrameContext, ProcessingContext};
use crate::error::EffectError;
use crate::params::RawEffectParams;
use crate::text;

verus! {

/// Identifier for one of the four sub-chains hosted by the composite effect.
#[derive(Debug, Clone, Copy, PartialEq, Eq, Structural)]
pub enum SubchainKind {
    /// Mask post-processing chain.
    Mask,
    /// Background plane chain.
    Background,
    /// Foreground plane chain.
    Foreground,
    /// Post-composite chain.
    Post,
}

impl SubchainKind {
    /// The wire form.
    pub open spec fn wire(self) -> Seq<char> {
        match self {
            SubchainKind::Mask => "mask"@,
            SubchainKind::Background => "background"@,
            SubchainKind::Foreground => "foreground"@,
            SubchainKind::Post => "post"@,
        }
    }

    /// The sub-chain with the wire form `s`.
    pub open spec fn of_wire(s: Seq<char>) -> Option<SubchainKind> {
        if s == "mask"@ {
            Some(SubchainKind::Mask)
        } else if s == "background"@ {
            Some(SubchainKind::Background)
        } else if s == "foreground"@ {
            Some(SubchainKind::Foreground)
        } else if s == "post"@ {
            Some(SubchainKind::Post)
        } else {
            None
        }
    }

    /// The complaint about a name that is no sub-chain.
    pub open spec fn unknown(s: Seq<char>) -> Seq<char> {
        "unknown sub-chain '"@ + s + "' (expected mask|background|foreground|post)"@
    }

    /// Stable identifier matching the wire form.
    #[must_use]
    pub fn as_str(self) -> (r: &'static str)
        ensures
            r@ == self.wire(),
    {
        match self {
            SubchainKind::Mask => "mask",
            SubchainKind::Background => "background",
            SubchainKind::Foreground => "foreground",
            SubchainKind::Post => "post",
        }
    }

    /// The identifier as an owned string.
    pub fn to_string(&self) -> (r: String)
        ensures
            r@ == self.wire(),
    {
        self.as_str().to_owned()
    }

    /// The sub-chain named `s`; the error is the complaint.
    pub fn parse(s: &str) -> (r: Result<Self, String>)
        ensures
            match r {
                Ok(kind) => SubchainKind::of_wire(s@) == Some(kind),
                Err(reason) => SubchainKind::of_wire(s@) is None && reason@
                    == SubchainKind::unknown(s@),
            },
    {
        if text::same(s, "mask") {
            Ok(SubchainKind::Mask)
        } else if text::same(s, "background") {
            Ok(SubchainKind::Background)
        } else if text::same(s, "foreground") {
            Ok(SubchainKind::Foreground)
        } else if text::same(s, "post") {
            Ok(SubchainKind::Post)
        } else {
            let mut out = "unknown sub-chain '".to_owned();
            out.append(s);
            out.append("' (expected mask|background|foreground|post)");
            Err(out)
        }
    }

    /// Reading back a written name gives the sub-chain it was written for.
    pub proof fn law_wire_round_trip(kind: SubchainKind)
        ensures
            SubchainKind::of_wire(kind.wire()) == Some(kind),
    {
        reveal_strlit("mask");
        reveal_strlit("background");
        reveal_strlit("foreground");
        reveal_strlit("post");
        assert("mask"@.len() == 4 && "post"@.len() == 4);
        assert("mask"@[0] == 'm' && "post"@[0] == 'p');
        assert("background"@[0] == 'b' && "foreground"@[0] == 'f');
        assert("background"@.len() == 10 && "foreground"@.len() == 10);
    }
}

impl std::str::FromStr for SubchainKind {
    type Err = String;

    fn from_str(s: &str) -> (r: Result<Self, String>)
        ensures
            match r {
                Ok(kind) => SubchainKind::of_wire(s@) == Some(kind),
                Err(reason) => SubchainKind::of_wire(s@) is None && reason@
                    == SubchainKind::unknown(s@),
            },
    {
        SubchainKind::parse(s)
    }
}

/// Mutable view on a mask plane: confidence values, as single-precision bit
/// patterns, laid out as `height * width` in row-major order.
///
/// Effects change `data` in place; they do not resize.
#[derive(Debug)]
#[non_exhaustive]
pub struct MaskPlane<'a> {
    /// Confidence values.
    pub data: &'a mut [u32],
    /// Plane width in pixels.
    pub width: u32,
    /// Plane height in pixels.
    pub height: u32,
}

impl<'a> MaskPlane<'a> {
    /// Whether the buffer has one value per pixel.
    pub open spec fn wf(&self) -> bool {
        self.data@.len() == self.width * self.height
    }

    /// The confidence values.
    pub open spec fn values(&self) -> Seq<u32> {
        self.data@
    }

    /// Borrow `data` as a mask plane with the given dimensions.
    #[must_use]
    pub fn new(data: &'a mut [u32], width: u32, height: u32) -> (r: Self)
        requires
            old(data)@.len() == width * height,
        ensures
            r.wf(),
            r.data@ == old(data)@,
            r.width == width,
            r.height == height,
            final(data)@ == final(r.data)@,
    {
        MaskPlane { data, width, height }
    }
}

/// Mutable view on a packed RGB frame plane: three bytes per pixel laid out as
/// `height * width * 3` in row-major order.
#[derive(Debug)]
#[non_exhaustive]
pub struct FramePlane<'a> {
    /// Packed RGB pixels.
    pub data: &'a mut [u8],
    /// Plane width in pixels.
    pub width: u32,
    /// Plane height in pixels.
    pub height: u32,
}

impl<'a> FramePlane<'a> {
    /// Whether the buffer has three bytes per pixel.
    pub open spec fn wf(&self) -> bool {
        self.data@.len() == self.width * self.height * 3
    }

    /// Borrow `data` as an RGB frame plane with the given dimensions.
    #[must_use]
    pub fn new(data: &'a mut [u8], width: u32, height: u32) -> (r: Self)
        requires
            old(data)@.len() == width * height * 3,
        ensures
            r.wf(),
            r.data@ == old(data)@,
            r.width == width,
            r.height == height,
            final(data)@ == final(r.data)@,
    {
        FramePlane { data, width, height }
    }
}

/// A mask that an effect is handed, and what becomes of it.
pub ghost struct MaskCall {
    /// Width in pixels.
    pub width: u32,
    /// Height in pixels.
    pub height: u32,
    /// The mask before the call.
    pub mask: Seq<u32>,
    /// The frame's context before the call.
    pub context: FrameContext,
    /// The mask after the call.
    pub mask_after: Seq<u32>,
    /// The frame's context after the call.
    pub context_after: FrameContext,
}

/// A plane that an effect is handed, and what becomes of it.
pub ghost struct PlaneCall {
    /// Width in pixels.
    pub width: u32,
    /// Height in pixels.
    pub height: u32,
    /// The plane before the call.
    pub plane: Seq<u8>,
    /// The frame's context before the call.
    pub context: FrameContext,
    /// The plane after the call.
    pub plane_after: Seq<u8>,
    /// The frame's context after the call.
    pub context_after: FrameContext,
}

/// A composed plane that an effect is handed with the mask, and what becomes of
/// it.
pub ghost struct PostCall {
    /// Width in pixels.
    pub width: u32,
    /// Height in pixels.
    pub height: u32,
    /// The plane before the call.
    pub plane: Seq<u8>,
    /// The mask.
    pub mask: Seq<u32>,
    /// The frame's context before the call.
    pub context: FrameContext,
    /// The plane after the call.
    pub plane_after: Seq<u8>,
    /// The frame's context after the call.
    pub context_after: FrameContext,
}

/// What an effect may do: its name, and for each operation the outcomes that are
/// allowed from a state to a next one.  The rules of an effect never change.
#[verifier::reject_recursive_types(C)]
pub ghost struct EffectRules<C> {
    /// Registry name.
    pub id: Seq<char>,
    /// Taking parameters.
    pub configure: spec_fn(
        EffectState,
        RawEffectParams,
        EffectState,
        Result<(), EffectError>,
    ) -> bool,
    /// Preparing for a stream.
    pub prepare: spec_fn(
        EffectState,
        ProcessingContext,
        EffectState,
        Result<(), EffectError>,
    ) -> bool,
    /// Processing a frame.
    pub process: spec_fn(EffectState, C, EffectState, Result<(), EffectError>) -> bool,
    /// Dropping temporal state.
    pub reset: spec_fn(EffectState, EffectState) -> bool,
    /// Releasing resources.
    pub shut_down: spec_fn(EffectState, EffectState, Result<(), EffectError>) -> bool,
}

/// Rules that allow everything.
pub open spec fn no_rules<C>() -> EffectRules<C> {
    EffectRules {
        id: arbitrary(),
        configure: |s: EffectState, p: RawEffectParams, t: EffectState, r: Result<(), EffectError>|
            true,
        prepare: |s: EffectState, c: ProcessingContext, t: EffectState, r: Result<(), EffectError>|
            true,
        process: |s: EffectState, c: C, t: EffectState, r: Result<(), EffectError>| true,
        reset: |s: EffectState, t: EffectState| true,
        shut_down: |s: EffectState, t: EffectState, r: Result<(), EffectError>| true,
    }
}

/// Effect operating on a [`MaskPlane`] in place.
///
/// Lifecycle: `configure`, `prepare`, repeated `process`, `shutdown`.
pub trait MaskEffect: Send {
    /// What the effect may do.
    open spec fn rules(&self) -> EffectRules<MaskCall> {
        no_rules()
    }

    /// What the effect holds.
    open spec fn state(&self) -> EffectState {
        arbitrary()
    }

    /// Stable identifier used by the registry and the configuration.
    fn name(&self) -> (r: &'static str)
        ensures
            r@ == self.rules().id,
    ;

    /// Apply user-supplied parameters.  May be called again after `prepare`;
    /// invalid parameters are refused.
    fn configure(&mut self, params: RawEffectParams) -> (r: Result<(), EffectError>)
        ensures
            (old(self).rules().configure)(old(self).state(), params, final(self).state(), r),
            final(self).rules() == old(self).rules(),
    ;

    /// Allocate scratch and load resources for the negotiated stream.
    fn prepare(&mut self, context: &ProcessingContext) -> (r: Result<(), EffectError>)
        ensures
            (old(self).rules().prepare)(old(self).state(), *context, final(self).state(), r),
            final(self).rules() == old(self).rules(),
    ;

    /// Apply the effect to `mask` in place.
    fn process(&mut self, mask: &mut MaskPlane<'_>, context: &mut FrameContext) -> (r: Result<
        (),
        EffectError,
    >)
        requires
            old(mask).wf(),
        ensures
            final(mask).wf(),
            final(mask).width == old(mask).width,
            final(mask).height == old(mask).height,
            final(final(mask).data)@ == final(old(mask).data)@,
            (old(self).rules().process)(
                old(self).state(),
                (MaskCall {
                    width: old(mask).width,
                    height: old(mask).height,
                    mask: old(mask).data@,
                    context: *old(context),
                    mask_after: final(mask).data@,
                    context_after: *final(context),
                }),
                final(self).state(),
                r,
            ),
            final(self).rules() == old(self).rules(),
    ;

    /// Drop temporal state, so that the next frame starts afresh.
    fn reset_state(&mut self)
        ensures
            (old(self).rules().reset)(old(self).state(), final(self).state()),
            final(self).rules() == old(self).rules(),
    ;

    /// Release runtime resources.
    fn shutdown(&mut self) -> (r: Result<(), EffectError>)
        ensures
            (old(self).rules().shut_down)(old(self).state(), final(self).state(), r),
            final(self).rules() == old(self).rules(),
    ;
}

/// Effect operating on a [`FramePlane`] in place.
///
/// Lifecycle as for [`MaskEffect`].
pub trait PlaneEffect: Send {
    /// What the effect may do.
    open spec fn rules(&self) -> EffectRules<PlaneCall> {
        no_rules()
    }

    /// What the effect holds.
    open spec fn state(&self) -> EffectState {
        arbitrary()
    }

    /// Stable identifier used by the registry and the configuration.
    fn name(&self) -> (r: &'static str)
        ensures
            r@ == self.rules().id,
    ;

    /// Apply user-supplied parameters.  May be called again after `prepare`;
    /// invalid parameters are refused.
    fn configure(&mut self, params: RawEffectParams) -> (r: Result<(), EffectError>)
        ensures
            (old(self).rules().configure)(old(self).state(), params, final(self).state(), r),
            final(self).rules() == old(self).rules(),
    ;

    /// Allocate scratch and load resources for the negotiated stream.
    fn prepare(&mut self, context: &ProcessingContext) -> (r: Result<(), EffectError>)
        ensures
            (old(self).rules().prepare)(old(self).state(), *context, final(self).state(), r),
            final(self).rules() == old(self).rules(),
    ;

    /// Transform `plane` in place.
    fn process(&mut self, plane: &mut FramePlane<'_>, context: &mut FrameContext) -> (r: Result<
        (),
        EffectError,
    >)
        requires
            old(plane).wf(),
        ensures
            final(plane).wf(),
            final(plane).width == old(plane).width,
            final(plane).height == old(plane).height,
            final(final(plane).data)@ == final(old(plane).data)@,
            (old(self).rules().process)(
                old(self).state(),
                (PlaneCall {
                    width: old(plane).width,
                    height: old(plane).height,
                    plane: old(plane).data@,
                    context: *old(context),
                    plane_after: final(plane).data@,
                    context_after: *final(context),
                }),
                final(self).state(),
                r,
            ),
            final(self).rules() == old(self).rules(),
    ;

    /// Drop temporal state, so that the next frame starts afresh.
    fn reset_state(&mut self)
        ensures
            (old(self).rules().reset)(old(self).state(), final(self).state()),
            final(self).rules() == old(self).rules(),
    ;

    /// Release runtime resources.
    fn shutdown(&mut self) -> (r: Result<(), EffectError>)
        ensures
            (old(self).rules().shut_down)(old(self).state(), final(self).state(), r),
            final(self).rules() == old(self).rules(),
    ;
}

/// Mask-aware frame effect, run after the alpha composite.
///
/// The mask has the resolution of the frame and is not changed.  Lifecycle as
/// for [`MaskEffect`].
pub trait PostEffect: Send {
    /// What the effect may do.
    open spec fn rules(&self) -> EffectRules<PostCall> {
        no_rules()
    }

    /// What the effect holds.
    open spec fn state(&self) -> EffectState {
        arbitrary()
    }

    /// Stable identifier used by the registry and the configuration.
    fn name(&self) -> (r: &'static str)
        ensures
            r@ == self.rules().id,
    ;

    /// Apply user-supplied parameters.  May be called again after `prepare`;
    /// invalid parameters are refused.
    fn configure(&mut self, params: RawEffectParams) -> (r: Result<(), EffectError>)
        ensures
            (old(self).rules().configure)(old(self).state(), params, final(self).state(), r),
            final(self).rules() == old(self).rules(),
    ;

    /// Allocate scratch and load resources for the negotiated stream.
    fn prepare(&mut self, context: &ProcessingContext) -> (r: Result<(), EffectError>)
        ensures
            (old(self).rules().prepare)(old(self).state(), *context, final(self).state(), r),
            final(self).rules() == old(self).rules(),
    ;

    /// Transform `plane` in place, with `mask` as read-only context.
    fn process(
        &mut self,
        plane: &mut FramePlane<'_>,
        mask: &MaskPlane<'_>,
        context: &mut FrameContext,
    ) -> (r: Result<(), EffectError>)
        requires
            old(plane).wf(),
            mask.wf(),
            mask.width == old(plane).width,
            mask.height == old(plane).height,
        ensures
            final(plane).wf(),
            final(plane).width == old(plane).width,
            final(plane).height == old(plane).height,
            final(final(plane).data)@ == final(old(plane).data)@,
            (old(self).rules().process)(
                old(self).state(),
                (PostCall {
                    width: old(plane).width,
                    height: old(plane).height,
                    plane: old(plane).data@,
                    mask: mask.values(),
                    context: *old(context),
                    plane_after: final(plane).data@,
                    context_after: *final(context),
                }),
                final(self).state(),
                r,
            ),
            final(self).rules() == old(self).rules(),
    ;

    /// Drop temporal state, so that the next frame starts afresh.
    fn reset_state(&mut self)
        ensures
            (old(self).rules().reset)(old(self).state(), final(self).state()),
            final(self).rules() == old(self).rules(),
    ;

    /// Release runtime resources.
    fn shutdown(&mut self) -> (r: Result<(), EffectError>)
        ensures
            (old(self).rules().shut_down)(old(self).state(), final(self).state(), r),
            final(self).rules() == old(self).rules(),
    ;
}

} // verus!
