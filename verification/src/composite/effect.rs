//! The composite effect: segmentation, mask chain, background and foreground
//! chains, alpha composite, post chain.
//!
//! Sub-effects come configured; the wiring of a configuration into chains is the
//! builder's.

use vstd::prelude::*;
use crate::composite::segmentation::{
    self, SegmentationBase, SegmentationOutcome, SegmentationState,
};
use crate::composite::slots::{self, Slot, COMPOSITE};
use crate::context::{FrameContext, ProcessingContext};
use crate::error::{EffectError, InferenceError};
use crate::float_bits;
use crate::frame::{PixelFormat, VideoFrame};
use crate::mask_effects;
use crate::params::{self, RawEffectParams};
use crate::pixel_math::{self, PixelMath, Resize};
use crate::plane::{FramePlane, MaskEffect, MaskPlane, PlaneEffect, PostEffect, SubchainKind};
use crate::text;
use crate::traits::{
    InferenceOutput, LoadedEngine, ModelLoader, VideoCall, VideoEffect, VideoRules, VideoState,
};

verus! {

/// The composite effect.
pub struct CompositeEffect<M: PixelMath, L: ModelLoader> {
    segmentation: SegmentationBase<M, L>,
    mask_chain: Vec<Slot<dyn MaskEffect>>,
    bg_chain: Vec<Slot<dyn PlaneEffect>>,
    fg_chain: Vec<Slot<dyn PlaneEffect>>,
    post_chain: Vec<Slot<dyn PostEffect>>,
    mask_full: Vec<u32>,
    bg_plane: Vec<u8>,
    frame_w: u32,
    frame_h: u32,
    processing_ctx: Option<ProcessingContext>,
}

/// What a composite effect stands for, beside its arithmetic and the source of
/// its models.
pub ghost struct CompositeState {
    /// The segmentation stage.
    pub stage: SegmentationState,
    /// The mask chain.
    pub masks: Seq<Slot<dyn MaskEffect>>,
    /// The background chain.
    pub backs: Seq<Slot<dyn PlaneEffect>>,
    /// The foreground chain.
    pub fronts: Seq<Slot<dyn PlaneEffect>>,
    /// The post chain.
    pub posts: Seq<Slot<dyn PostEffect>>,
    /// Frame width the effect is prepared for.
    pub width: u32,
    /// Frame height the effect is prepared for.
    pub height: u32,
    /// Context of the last successful preparation.
    pub stored: Option<ProcessingContext>,
}

impl<M: PixelMath, L: ModelLoader> View for CompositeEffect<M, L> {
    type V = CompositeState;

    open spec fn view(&self) -> CompositeState {
        CompositeState {
            stage: self.stage()@,
            masks: self.masks(),
            backs: self.backs(),
            fronts: self.fronts(),
            posts: self.posts(),
            width: self.width(),
            height: self.height(),
            stored: self.stored(),
        }
    }
}

/// A chain to put in place of one of the four.
pub enum SubChainPayload {
    /// Mask chain.
    Mask(Vec<Slot<dyn MaskEffect>>),
    /// Background chain.
    Background(Vec<Slot<dyn PlaneEffect>>),
    /// Foreground chain.
    Foreground(Vec<Slot<dyn PlaneEffect>>),
    /// Post chain.
    Post(Vec<Slot<dyn PostEffect>>),
}

impl SubChainPayload {
    /// The sub-chain it replaces.
    pub open spec fn kind(&self) -> SubchainKind {
        match self {
            SubChainPayload::Mask(_) => SubchainKind::Mask,
            SubChainPayload::Background(_) => SubchainKind::Background,
            SubChainPayload::Foreground(_) => SubchainKind::Foreground,
            SubChainPayload::Post(_) => SubchainKind::Post,
        }
    }
}

/// Whether `after` is `frame` with the payload `bytes`.
pub open spec fn frame_with(frame: VideoFrame, after: VideoFrame, bytes: Seq<u8>) -> bool {
    &&& after.data@ == bytes
    &&& after.width == frame.width
    &&& after.height == frame.height
    &&& after.format == frame.format
    &&& after.stride == frame.stride
    &&& after.meta == frame.meta
}

/// `frame buffer holds <len> bytes, expected <expected>`.
pub open spec fn length_mismatch(len: nat, expected: nat) -> Seq<char> {
    "frame buffer holds "@ + text::decimal(len) + " bytes, expected "@ + text::decimal(expected)
}

/// The complaint about a payload of another length.
pub(crate) fn length_mismatch_text(len: usize, expected: usize) -> (r: String)
    ensures
        r@ == length_mismatch(len as nat, expected as nat),
{
    let mut out = "frame buffer holds ".to_owned();
    text::push_decimal(&mut out, len as u64);
    out.append(" bytes, expected ");
    text::push_decimal(&mut out, expected as u64);
    out
}

impl<M: PixelMath, L: ModelLoader> CompositeEffect<M, L> {
    /// Name used by the registry.
    pub const NAME: &'static str = "composite";

    /// The segmentation stage.
    pub closed spec fn stage(&self) -> SegmentationBase<M, L> {
        self.segmentation
    }

    /// The mask chain.
    pub closed spec fn masks(&self) -> Seq<Slot<dyn MaskEffect>> {
        self.mask_chain@
    }

    /// The background chain.
    pub closed spec fn backs(&self) -> Seq<Slot<dyn PlaneEffect>> {
        self.bg_chain@
    }

    /// The foreground chain.
    pub closed spec fn fronts(&self) -> Seq<Slot<dyn PlaneEffect>> {
        self.fg_chain@
    }

    /// The post chain.
    pub closed spec fn posts(&self) -> Seq<Slot<dyn PostEffect>> {
        self.post_chain@
    }

    /// Frame width the effect is prepared for.
    pub closed spec fn width(&self) -> u32 {
        self.frame_w
    }

    /// Frame height the effect is prepared for.
    pub closed spec fn height(&self) -> u32 {
        self.frame_h
    }

    /// Context of the last successful preparation.
    pub closed spec fn stored(&self) -> Option<ProcessingContext> {
        self.processing_ctx
    }

    /// The pixel arithmetic.
    pub open spec fn math(&self) -> &M {
        self.stage().pixel_math()
    }

    /// Whether the buffers fit the frame.
    pub closed spec fn sound(&self) -> bool {
        &&& self.segmentation.wf()
        &&& segmentation::countable(self.frame_w, self.frame_h)
        &&& self.mask_full@.len() == self.frame_w * self.frame_h
        &&& self.bg_plane@.len() == self.frame_w * self.frame_h * 3
    }

    /// Whether everything but the sub-chains is the same.
    pub open spec fn same_but_chains(&self, other: &Self) -> bool {
        &&& self.stage() == other.stage()
        &&& self.width() == other.width()
        &&& self.height() == other.height()
        &&& self.stored() == other.stored()
    }

    /// Whether the arithmetic, the source of models, the frame size and the
    /// stored context are the same.
    pub open spec fn same_kind(&self, other: &Self) -> bool {
        &&& self.math() == other.math()
        &&& self.stage().source() == other.stage().source()
        &&& self.width() == other.width()
        &&& self.height() == other.height()
        &&& self.stored() == other.stored()
    }

    /// Whether the four sub-chains are the same.
    pub open spec fn same_chains(&self, other: &Self) -> bool {
        &&& self.masks() == other.masks()
        &&& self.backs() == other.backs()
        &&& self.fronts() == other.fronts()
        &&& self.posts() == other.posts()
    }

    /// Whether composing and the post chain may end as given, the planes and
    /// the mask being at hand, with the effects as in `then`.
    pub open spec fn posted(
        &self,
        then: &Self,
        fg: Seq<u8>,
        bg: Seq<u8>,
        full: Seq<u32>,
        context: FrameContext,
        after: VideoFrame,
        context_after: FrameContext,
        r: Result<(), EffectError>,
    ) -> bool {
        exists|out: Seq<u8>, e: FrameContext|
            {
                &&& #[trigger] pixel_math::composed(self.math(), fg, bg, full, out)
                &&& #[trigger] slots::staged(context, e, COMPOSITE@, "compose"@)
                &&& slots::post_timed(
                    self.posts(),
                    then.posts(),
                    self.width(),
                    self.height(),
                    out,
                    full,
                    e,
                    after.data@,
                    context_after,
                    r,
                )
            }
    }

    /// Whether the foreground chain and what follows may end as given, with the
    /// effects as in `then`.
    pub open spec fn fronted(
        &self,
        then: &Self,
        frame: VideoFrame,
        bg: Seq<u8>,
        full: Seq<u32>,
        context: FrameContext,
        after: VideoFrame,
        context_after: FrameContext,
        r: Result<(), EffectError>,
    ) -> bool {
        exists|fg: Seq<u8>, c: FrameContext, q: Result<(), EffectError>|
            {
                &&& #[trigger] slots::plane_timed(
                    self.fronts(),
                    then.fronts(),
                    "foreground"@,
                    "fg_chain"@,
                    self.width(),
                    self.height(),
                    frame.data@,
                    context,
                    fg,
                    c,
                    q,
                )
                &&& if q is Err {
                    r == q && context_after == c && after.data@ == fg && then.posts()
                        == self.posts()
                } else {
                    self.posted(then, fg, bg, full, c, after, context_after, r)
                }
            }
    }

    /// Whether the background chain, on a copy of the frame, and what follows
    /// may end as given, with the effects as in `then`.
    pub open spec fn backed(
        &self,
        then: &Self,
        frame: VideoFrame,
        full: Seq<u32>,
        context: FrameContext,
        after: VideoFrame,
        context_after: FrameContext,
        r: Result<(), EffectError>,
    ) -> bool {
        exists|e: FrameContext, bg: Seq<u8>, c: FrameContext, q: Result<(), EffectError>|
            {
                &&& #[trigger] slots::staged(context, e, COMPOSITE@, "bg_copy"@)
                &&& #[trigger] slots::plane_timed(
                    self.backs(),
                    then.backs(),
                    "background"@,
                    "bg_chain"@,
                    self.width(),
                    self.height(),
                    frame.data@,
                    e,
                    bg,
                    c,
                    q,
                )
                &&& if q is Err {
                    r == q && context_after == c && after.data@ == frame.data@ && then.fronts()
                        == self.fronts() && then.posts() == self.posts()
                } else {
                    self.fronted(then, frame, bg, full, c, after, context_after, r)
                }
            }
    }

    /// Whether resizing the mask `mask` to the frame and what follows may end
    /// as given, with the effects as in `then`.
    pub open spec fn resized(
        &self,
        then: &Self,
        frame: VideoFrame,
        width: u32,
        height: u32,
        mask: Seq<u32>,
        context: FrameContext,
        after: VideoFrame,
        context_after: FrameContext,
        r: Result<(), EffectError>,
    ) -> bool {
        let size = Resize {
            src_w: width,
            src_h: height,
            dst_w: self.width(),
            dst_h: self.height(),
        };
        let expected = self.width() * self.height() * 3;
        exists|full: Seq<u32>, e: FrameContext|
            {
                &&& #[trigger] pixel_math::resized_mask(self.math(), mask, size, full)
                &&& #[trigger] slots::staged(context, e, COMPOSITE@, "mask_resize"@)
                &&& if frame.data@.len() != expected {
                    after.data@ == frame.data@ && context_after == e && then.backs()
                        == self.backs() && then.fronts() == self.fronts() && then.posts()
                        == self.posts() && (r matches Err(e)
                        && segmentation::processing_failure(
                        e,
                        COMPOSITE@,
                        length_mismatch(frame.data@.len(), expected as nat),
                    ))
                } else {
                    self.backed(then, frame, full, e, after, context_after, r)
                }
            }
    }

    /// Whether the mask chain and what follows may end as given, where the
    /// segmentation left the stage at `stage`, with the stage and the effects as
    /// in `then`.
    pub open spec fn masked(
        &self,
        then: &Self,
        stage: SegmentationState,
        frame: VideoFrame,
        width: u32,
        height: u32,
        context: FrameContext,
        after: VideoFrame,
        context_after: FrameContext,
        r: Result<(), EffectError>,
    ) -> bool {
        exists|m: Seq<u32>, c: FrameContext, q: Result<(), EffectError>|
            {
                &&& #[trigger] slots::mask_timed(
                    self.masks(),
                    then.masks(),
                    width,
                    height,
                    stage.mask,
                    context,
                    m,
                    c,
                    q,
                )
                &&& then.stage()@ == (SegmentationState { mask: m, ..stage })
                &&& if q is Err {
                    r == q && context_after == c && after == frame && then.backs() == self.backs()
                        && then.fronts() == self.fronts() && then.posts() == self.posts()
                } else {
                    frame_with(frame, after, after.data@) && self.resized(
                        then,
                        frame,
                        width,
                        height,
                        m,
                        c,
                        after,
                        context_after,
                        r,
                    )
                }
            }
    }

    /// Whether what follows the segmentation may end as given, where the
    /// segmentation left the stage at `stage`: without a mask no effect is
    /// touched.
    pub open spec fn finished(
        &self,
        then: &Self,
        outcome: SegmentationOutcome,
        stage: SegmentationState,
        frame: VideoFrame,
        context: FrameContext,
        after: VideoFrame,
        context_after: FrameContext,
        r: Result<(), EffectError>,
    ) -> bool {
        match outcome {
            SegmentationOutcome::Segmented { width, height } => self.masked(
                then,
                stage,
                frame,
                width,
                height,
                context,
                after,
                context_after,
                r,
            ),
            SegmentationOutcome::Fallback => {
                &&& r is Ok
                &&& after == frame
                &&& context_after == (FrameContext { fallback_active: true, ..context })
                &&& then.stage()@ == stage
                &&& then.same_chains(self)
            },
            SegmentationOutcome::Fatal(e) => {
                &&& r == Err::<(), EffectError>(e)
                &&& after == frame
                &&& context_after == context
                &&& then.stage()@ == stage
                &&& then.same_chains(self)
            },
        }
    }

    /// Whether a frame may be processed as given, with the effect left as `then`.
    pub open spec fn frame_processed(
        &self,
        then: &Self,
        frame: VideoFrame,
        context: FrameContext,
        after: VideoFrame,
        context_after: FrameContext,
        r: Result<(), EffectError>,
    ) -> bool {
        &&& then.same_kind(self)
        &&& match self.frame_complaint(frame) {
            Some(reason) => {
                &&& r matches Err(e) && segmentation::processing_failure(e, COMPOSITE@, reason)
                &&& after == frame
                &&& context_after == context
                &&& then.stage() == self.stage()
                &&& then.same_chains(self)
            },
            None => exists|
                stage: SegmentationState,
                c: FrameContext,
                e: FrameContext,
                outcome: SegmentationOutcome,
            |
                {
                    &&& #[trigger] segmentation::segmented(
                        self.math(),
                        self.stage()@,
                        stage,
                        frame,
                        context,
                        c,
                        outcome,
                    )
                    &&& #[trigger] slots::staged(c, e, COMPOSITE@, "seg"@)
                    &&& self.finished(then, outcome, stage, frame, e, after, context_after, r)
                },
        }
    }

    /// Whether preparing the chains, in order, and the buffers may end with the
    /// outcome `r`, with the effects as in `then`: the first failure ends it.
    pub open spec fn chains_prepared(
        &self,
        then: &Self,
        context: ProcessingContext,
        r: Result<(), EffectError>,
    ) -> bool {
        let done = Ok::<(), EffectError>(());
        ||| {
            &&& r is Err
            &&& slots::chain_prepared(self.masks(), then.masks(), context, r)
            &&& then.backs() == self.backs()
            &&& then.fronts() == self.fronts()
            &&& then.posts() == self.posts()
        }
        ||| {
            &&& r is Err
            &&& slots::chain_prepared(self.masks(), then.masks(), context, done)
            &&& slots::chain_prepared(self.backs(), then.backs(), context, r)
            &&& then.fronts() == self.fronts()
            &&& then.posts() == self.posts()
        }
        ||| {
            &&& r is Err
            &&& slots::chain_prepared(self.masks(), then.masks(), context, done)
            &&& slots::chain_prepared(self.backs(), then.backs(), context, done)
            &&& slots::chain_prepared(self.fronts(), then.fronts(), context, r)
            &&& then.posts() == self.posts()
        }
        ||| {
            &&& r is Err
            &&& slots::chain_prepared(self.masks(), then.masks(), context, done)
            &&& slots::chain_prepared(self.backs(), then.backs(), context, done)
            &&& slots::chain_prepared(self.fronts(), then.fronts(), context, done)
            &&& slots::chain_prepared(self.posts(), then.posts(), context, r)
        }
        ||| {
            &&& slots::chain_prepared(self.masks(), then.masks(), context, done)
            &&& slots::chain_prepared(self.backs(), then.backs(), context, done)
            &&& slots::chain_prepared(self.fronts(), then.fronts(), context, done)
            &&& slots::chain_prepared(self.posts(), then.posts(), context, done)
            &&& if segmentation::countable(context.width, context.height) {
                r is Ok
            } else {
                segmentation::unprepared(
                    r,
                    COMPOSITE@,
                    segmentation::too_large("frame"@, context.width, context.height),
                )
            }
        }
    }

    /// Whether preparing may end with the outcome `r`, with the effect left as
    /// `then`: the stage is prepared, then the chains, each effect once, and only
    /// a success is stored.
    pub open spec fn prepared_as(
        &self,
        then: &Self,
        context: ProcessingContext,
        r: Result<(), EffectError>,
    ) -> bool {
        &&& then.math() == self.math()
        &&& then.stage().source() == self.stage().source()
        &&& if r is Ok {
            then.stored() == Some(context) && then.width() == context.width && then.height()
                == context.height
        } else {
            then.stored() == self.stored() && then.width() == self.width() && then.height()
                == self.height()
        }
        &&& if context.format != PixelFormat::Rgb {
            &&& segmentation::unprepared(
                r,
                COMPOSITE@,
                "composite requires RGB input, got "@ + context.format.variant(),
            )
            &&& then.stage() == self.stage()
            &&& then.same_chains(self)
        } else {
            exists|q: Result<(), EffectError>| #[trigger]
                segmentation::prepared(
                    self.stage().source(),
                    self.stage()@,
                    then.stage()@,
                    context,
                    q,
                ) && (if q is Err {
                    r == q && then.same_chains(self)
                } else {
                    self.chains_prepared(then, context, r)
                })
        }
    }

    /// Why a frame is not even tried, if it is not.
    pub open spec fn frame_complaint(&self, frame: VideoFrame) -> Option<Seq<char>> {
        if frame.format != PixelFormat::Rgb {
            Some("unexpected pixel format "@ + frame.format.variant())
        } else if frame.width != self.width() || frame.height != self.height() {
            Some(
                segmentation::size_mismatch(
                    frame.width,
                    frame.height,
                    self.width(),
                    self.height(),
                ),
            )
        } else {
            None
        }
    }

    /// Construct from configured parts.
    #[must_use]
    pub fn new(
        segmentation: SegmentationBase<M, L>,
        mask_chain: Vec<Slot<dyn MaskEffect>>,
        bg_chain: Vec<Slot<dyn PlaneEffect>>,
        fg_chain: Vec<Slot<dyn PlaneEffect>>,
        post_chain: Vec<Slot<dyn PostEffect>>,
    ) -> (r: Self)
        requires
            segmentation.wf(),
        ensures
            r.wf(),
            r.stage() == segmentation,
            r.masks() == mask_chain@,
            r.backs() == bg_chain@,
            r.fronts() == fg_chain@,
            r.posts() == post_chain@,
            r.width() == 0 && r.height() == 0,
            r.stored() is None,
    {
        CompositeEffect {
            segmentation,
            mask_chain,
            bg_chain,
            fg_chain,
            post_chain,
            mask_full: Vec::new(),
            bg_plane: Vec::new(),
            frame_w: 0,
            frame_h: 0,
            processing_ctx: None,
        }
    }

    /// The segmentation stage.
    #[must_use]
    pub fn segmentation(&self) -> (r: &SegmentationBase<M, L>)
        ensures
            *r == self.stage(),
    {
        &self.segmentation
    }

    /// The segmentation stage, to change: its engine can be taken out and
    /// installed again.
    #[must_use]
    pub fn segmentation_mut(&mut self) -> (r: &mut SegmentationBase<M, L>)
        requires
            old(self).wf(),
        ensures
            *r == old(self).stage(),
            final(self).stage() == *final(r),
            final(r).wf() ==> final(self).wf(),
            final(self).masks() == old(self).masks(),
            final(self).backs() == old(self).backs(),
            final(self).fronts() == old(self).fronts(),
            final(self).posts() == old(self).posts(),
            final(self).width() == old(self).width(),
            final(self).height() == old(self).height(),
            final(self).stored() == old(self).stored(),
    {
        &mut self.segmentation
    }

    /// Context of the last successful preparation.
    #[must_use]
    pub fn processing_ctx(&self) -> (r: Option<&ProcessingContext>)
        ensures
            match r {
                Some(c) => self.stored() == Some(*c),
                None => self.stored() is None,
            },
    {
        match &self.processing_ctx {
            Some(c) => Some(c),
            None => None,
        }
    }

    /// Names of the disabled effects of a sub-chain, in order.
    #[must_use]
    pub fn disabled_effects(&self, section: SubchainKind) -> (r: Vec<&'static str>)
        ensures
            r@.map_values(|s: &'static str| s@) == (match section {
                SubchainKind::Mask => slots::disabled_below(
                    self.masks(),
                    self.masks().len() as int,
                ),
                SubchainKind::Background => slots::disabled_below(
                    self.backs(),
                    self.backs().len() as int,
                ),
                SubchainKind::Foreground => slots::disabled_below(
                    self.fronts(),
                    self.fronts().len() as int,
                ),
                SubchainKind::Post => slots::disabled_below(
                    self.posts(),
                    self.posts().len() as int,
                ),
            }),
    {
        match section {
            SubchainKind::Mask => slots::disabled(&self.mask_chain),
            SubchainKind::Background => slots::disabled(&self.bg_chain),
            SubchainKind::Foreground => slots::disabled(&self.fg_chain),
            SubchainKind::Post => slots::disabled(&self.post_chain),
        }
    }

    /// Enable or disable every effect of a name in a sub-chain.  A disabled
    /// effect keeps its configuration; enabling it again drops its temporal
    /// state first.  Returns whether a flag changed.
    pub fn set_effect_enabled(&mut self, section: SubchainKind, name: &str, enabled: bool) -> (r:
        Result<bool, EffectError>)
        requires
            old(self).wf(),
        ensures
            final(self).wf(),
            final(self).same_but_chains(old(self)),
            section == SubchainKind::Mask || final(self).masks() == old(self).masks(),
            section == SubchainKind::Background || final(self).backs() == old(self).backs(),
            section == SubchainKind::Foreground || final(self).fronts() == old(self).fronts(),
            section == SubchainKind::Post || final(self).posts() == old(self).posts(),
            match section {
                SubchainKind::Mask => slots::flag_set(
                    old(self).masks(),
                    final(self).masks(),
                    name@,
                    enabled,
                    section,
                    r,
                ),
                SubchainKind::Background => slots::flag_set(
                    old(self).backs(),
                    final(self).backs(),
                    name@,
                    enabled,
                    section,
                    r,
                ),
                SubchainKind::Foreground => slots::flag_set(
                    old(self).fronts(),
                    final(self).fronts(),
                    name@,
                    enabled,
                    section,
                    r,
                ),
                SubchainKind::Post => slots::flag_set(
                    old(self).posts(),
                    final(self).posts(),
                    name@,
                    enabled,
                    section,
                    r,
                ),
            },
    {
        match section {
            SubchainKind::Mask => slots::set_enabled_in(
                &mut self.mask_chain,
                name,
                enabled,
                section,
            ),
            SubchainKind::Background => slots::set_enabled_in(
                &mut self.bg_chain,
                name,
                enabled,
                section,
            ),
            SubchainKind::Foreground => slots::set_enabled_in(
                &mut self.fg_chain,
                name,
                enabled,
                section,
            ),
            SubchainKind::Post => slots::set_enabled_in(
                &mut self.post_chain,
                name,
                enabled,
                section,
            ),
        }
    }

    /// Prepare the effects of a chain, which are configured, and put the chain
    /// in place of one of the four.  On failure the old chain stays.
    pub fn replace_subchain(&mut self, payload: SubChainPayload) -> (r: Result<(), EffectError>)
        requires
            old(self).wf(),
        ensures
            final(self).wf(),
            final(self).same_but_chains(old(self)),
            payload is Mask || final(self).masks() == old(self).masks(),
            payload is Background || final(self).backs() == old(self).backs(),
            payload is Foreground || final(self).fronts() == old(self).fronts(),
            payload is Post || final(self).posts() == old(self).posts(),
            match payload {
                SubChainPayload::Mask(v) => slots::replaced(
                    old(self).masks(),
                    v@,
                    old(self).stored(),
                    final(self).masks(),
                    r,
                ),
                SubChainPayload::Background(v) => slots::replaced(
                    old(self).backs(),
                    v@,
                    old(self).stored(),
                    final(self).backs(),
                    r,
                ),
                SubChainPayload::Foreground(v) => slots::replaced(
                    old(self).fronts(),
                    v@,
                    old(self).stored(),
                    final(self).fronts(),
                    r,
                ),
                SubChainPayload::Post(v) => slots::replaced(
                    old(self).posts(),
                    v@,
                    old(self).stored(),
                    final(self).posts(),
                    r,
                ),
            },
    {
        match payload {
            SubChainPayload::Mask(v) => slots::replace_chain(
                &mut self.mask_chain,
                v,
                &self.processing_ctx,
            ),
            SubChainPayload::Background(v) => slots::replace_chain(
                &mut self.bg_chain,
                v,
                &self.processing_ctx,
            ),
            SubChainPayload::Foreground(v) => slots::replace_chain(
                &mut self.fg_chain,
                v,
                &self.processing_ctx,
            ),
            SubChainPayload::Post(v) => slots::replace_chain(
                &mut self.post_chain,
                v,
                &self.processing_ctx,
            ),
        }
    }

    /// Configure the first effect of a name in a sub-chain.
    pub fn reconfigure_named_effect(
        &mut self,
        section: SubchainKind,
        name: &str,
        params: RawEffectParams,
    ) -> (r: Result<(), EffectError>)
        requires
            old(self).wf(),
        ensures
            final(self).wf(),
            final(self).same_but_chains(old(self)),
            section == SubchainKind::Mask || final(self).masks() == old(self).masks(),
            section == SubchainKind::Background || final(self).backs() == old(self).backs(),
            section == SubchainKind::Foreground || final(self).fronts() == old(self).fronts(),
            section == SubchainKind::Post || final(self).posts() == old(self).posts(),
            match section {
                SubchainKind::Mask => slots::reconfigured(
                    old(self).masks(),
                    final(self).masks(),
                    name@,
                    params,
                    section,
                    r,
                ),
                SubchainKind::Background => slots::reconfigured(
                    old(self).backs(),
                    final(self).backs(),
                    name@,
                    params,
                    section,
                    r,
                ),
                SubchainKind::Foreground => slots::reconfigured(
                    old(self).fronts(),
                    final(self).fronts(),
                    name@,
                    params,
                    section,
                    r,
                ),
                SubchainKind::Post => slots::reconfigured(
                    old(self).posts(),
                    final(self).posts(),
                    name@,
                    params,
                    section,
                    r,
                ),
            },
    {
        match section {
            SubchainKind::Mask => slots::reconfigure_in(
                &mut self.mask_chain,
                name,
                params,
                section,
            ),
            SubchainKind::Background => slots::reconfigure_in(
                &mut self.bg_chain,
                name,
                params,
                section,
            ),
            SubchainKind::Foreground => slots::reconfigure_in(
                &mut self.fg_chain,
                name,
                params,
                section,
            ),
            SubchainKind::Post => slots::reconfigure_in(
                &mut self.post_chain,
                name,
                params,
                section,
            ),
        }
    }
}

/// Copy `src` over `dst`, of the same length.
fn copy_over(dst: &mut Vec<u8>, src: &[u8])
    requires
        old(dst)@.len() == src@.len(),
    ensures
        final(dst)@ == src@,
{
    let mut i: usize = 0;
    while i < src.len()
        invariant
            i <= src@.len(),
            dst@.len() == src@.len(),
            forall|k: int| 0 <= k < i ==> dst@[k] == src@[k],
        decreases src@.len() - i,
    {
        dst[i] = src[i];
        i = i + 1;
    }
    assert(dst@ =~= src@);
}

/// The failure of a frame.
fn process_err(reason: String) -> (r: Result<(), EffectError>)
    ensures
        r matches Err(e) && segmentation::processing_failure(e, COMPOSITE@, reason@),
{
    Err(EffectError::process_failed(COMPOSITE, reason))
}

/// Whether an effect with given arithmetic and models may be prepared from the
/// state `s` to the state `t`.
pub open spec fn prepared_between<M: PixelMath, L: ModelLoader>(
    math: &M,
    loader: &L,
    s: CompositeState,
    context: ProcessingContext,
    t: CompositeState,
    r: Result<(), EffectError>,
) -> bool {
    exists|before: CompositeEffect<M, L>, then: CompositeEffect<M, L>|
        {
            &&& #[trigger] before.prepared_as(&then, context, r)
            &&& before.math() == math
            &&& before.stage().source() == loader
            &&& before@ == s
            &&& then@ == t
        }
}

/// Whether an effect with given arithmetic may process a frame from the state `s`
/// to the state `t`.
pub open spec fn processed_between<M: PixelMath, L: ModelLoader>(
    math: &M,
    loader: &L,
    s: CompositeState,
    c: VideoCall,
    t: CompositeState,
    r: Result<(), EffectError>,
) -> bool {
    exists|before: CompositeEffect<M, L>, then: CompositeEffect<M, L>|
        {
            &&& #[trigger] before.frame_processed(
                &then,
                c.frame,
                c.context,
                c.frame_after,
                c.context_after,
                r,
            )
            &&& before.math() == math
            &&& before.stage().source() == loader
            &&& before@ == s
            &&& then@ == t
        }
}

/// What a composite effect with given arithmetic and models may do.
pub open spec fn composite_rules<M: PixelMath, L: ModelLoader>(math: &M, loader: &L) -> VideoRules {
    VideoRules {
        id: COMPOSITE@,
        configure: |s: VideoState, p: RawEffectParams, t: VideoState, r: Result<(), EffectError>|
            t == s && mask_effects::configured(
                COMPOSITE@,
                if p.table() == Some(params::no_entries()) {
                    None
                } else {
                    Some("takes no parameters; its sub-effects are configured by the preset"@)
                },
                r,
            ),
        prepare: |s: VideoState, c: ProcessingContext, t: VideoState, r: Result<(), EffectError>|
            prepared_between(math, loader, s->Composite_0, c, t->Composite_0, r) && t is Composite,
        process: |s: VideoState, c: VideoCall, t: VideoState, r: Result<(), EffectError>|
            processed_between(math, loader, s->Composite_0, c, t->Composite_0, r) && t is Composite,
        shut_down: |s: VideoState, t: VideoState, r: Result<(), EffectError>| r is Ok && t == s,
    }
}

impl<M: PixelMath, L: ModelLoader> VideoEffect for CompositeEffect<M, L> {
    open spec fn rules(&self) -> VideoRules {
        composite_rules(self.math(), self.stage().source())
    }

    open spec fn state(&self) -> VideoState {
        VideoState::Composite(self@)
    }

    open spec fn wf(&self) -> bool {
        self.sound()
    }

    fn name(&self) -> (r: &'static str) {
        Self::NAME
    }

    /// Sub-effects come configured: parameters are refused, so that a mistaken
    /// configuration is not passed over.
    fn configure(&mut self, params: RawEffectParams) -> (r: Result<(), EffectError>)
        ensures
            *final(self) == *old(self),
    {
        let empty: bool = match &params {
            RawEffectParams::Table(t) => params::table_is_empty(t),
            RawEffectParams::Value(_) => false,
        };
        if empty {
            Ok(())
        } else {
            Err(
                mask_effects::invalid_config(
                    COMPOSITE,
                    "takes no parameters; its sub-effects are configured by the preset".to_owned(),
                ),
            )
        }
    }

    fn prepare(&mut self, context: &ProcessingContext) -> (r: Result<(), EffectError>)
        ensures
            old(self).prepared_as(final(self), *context, r),
    {
        let r = self.prepare_stages(context);
        assert(old(self).prepared_as(self, *context, r));
        assert(prepared_between(
            old(self).math(),
            old(self).stage().source(),
            old(self)@,
            *context,
            self@,
            r,
        ));
        r
    }

    fn process(&mut self, frame: &mut VideoFrame, context: &mut FrameContext) -> (r: Result<
        (),
        EffectError,
    >)
        ensures
            old(self).frame_processed(
                final(self),
                *old(frame),
                *old(context),
                *final(frame),
                *final(context),
                r,
            ),
    {
        let r = self.process_frame(frame, context);
        let ghost c = VideoCall {
            frame: *old(frame),
            context: *old(context),
            frame_after: *frame,
            context_after: *context,
        };
        let ghost then = *self;
        assert(old(self).frame_processed(
            &then,
            c.frame,
            c.context,
            c.frame_after,
            c.context_after,
            r,
        ));
        assert(processed_between(
            old(self).math(),
            old(self).stage().source(),
            old(self)@,
            c,
            then@,
            r,
        ));
        r
    }

    fn shutdown(&mut self) -> (r: Result<(), EffectError>)
        ensures
            *final(self) == *old(self),
    {
        Ok(())
    }
}

/// What follows the segmentation depends on the chains, the frame size and the
/// arithmetic alone.
proof fn lemma_masked<M: PixelMath, L: ModelLoader>(
    a: &CompositeEffect<M, L>,
    b: &CompositeEffect<M, L>,
    then: &CompositeEffect<M, L>,
    stage: SegmentationState,
    frame: VideoFrame,
    width: u32,
    height: u32,
    context: FrameContext,
    after: VideoFrame,
    context_after: FrameContext,
    r: Result<(), EffectError>,
)
    requires
        a.masks() == b.masks(),
        a.backs() == b.backs(),
        a.fronts() == b.fronts(),
        a.posts() == b.posts(),
        a.width() == b.width(),
        a.height() == b.height(),
        a.math() == b.math(),
        a.masked(then, stage, frame, width, height, context, after, context_after, r),
    ensures
        b.masked(then, stage, frame, width, height, context, after, context_after, r),
{
    assert forall|fg: Seq<u8>, bg: Seq<u8>, full: Seq<u32>, c: FrameContext|
        a.posted(then, fg, bg, full, c, after, context_after, r) == #[trigger] b.posted(
            then,
            fg,
            bg,
            full,
            c,
            after,
            context_after,
            r,
        ) by {}
    assert forall|bg: Seq<u8>, full: Seq<u32>, c: FrameContext|
        a.fronted(then, frame, bg, full, c, after, context_after, r) == #[trigger] b.fronted(
            then,
            frame,
            bg,
            full,
            c,
            after,
            context_after,
            r,
        ) by {}
    assert forall|full: Seq<u32>, c: FrameContext|
        a.backed(then, frame, full, c, after, context_after, r) == #[trigger] b.backed(
            then,
            frame,
            full,
            c,
            after,
            context_after,
            r,
        ) by {}
    assert forall|mask: Seq<u32>, c: FrameContext|
        a.resized(then, frame, width, height, mask, c, after, context_after, r)
            == #[trigger] b.resized(
            then,
            frame,
            width,
            height,
            mask,
            c,
            after,
            context_after,
            r,
        ) by {}
}

impl<M: PixelMath, L: ModelLoader> CompositeEffect<M, L> {
    /// Prepare the stage and the chains, and allocate the buffers.
    fn prepare_stages(&mut self, context: &ProcessingContext) -> (r: Result<(), EffectError>)
        requires
            old(self).wf(),
        ensures
            final(self).wf(),
            old(self).prepared_as(final(self), *context, r),
    {
        if context.format != PixelFormat::Rgb {
            let reason = segmentation::format_complaint(
                "composite requires RGB input, got ",
                context.format,
            );
            return Err(EffectError::prepare_failed(COMPOSITE, reason));
        }
        let first = self.segmentation.prepare(context);
        assert(segmentation::prepared(
            old(self).stage().source(),
            old(self).stage()@,
            self.segmentation@,
            *context,
            first,
        ));
        if first.is_err() {
            return first;
        }
        let r = slots::prepare_chain(&mut self.mask_chain, context);
        if r.is_err() {
            assert(old(self).chains_prepared(self, *context, r));
            return r;
        }
        let r = slots::prepare_chain(&mut self.bg_chain, context);
        if r.is_err() {
            assert(old(self).chains_prepared(self, *context, r));
            return r;
        }
        let r = slots::prepare_chain(&mut self.fg_chain, context);
        if r.is_err() {
            assert(old(self).chains_prepared(self, *context, r));
            return r;
        }
        let r = slots::prepare_chain(&mut self.post_chain, context);
        if r.is_err() {
            assert(old(self).chains_prepared(self, *context, r));
            return r;
        }
        match segmentation::plane_bytes(context.width, context.height) {
            Some(bytes) => {
                self.frame_w = context.width;
                self.frame_h = context.height;
                self.mask_full = segmentation::filled(float_bits::ZERO, bytes / 3);
                self.bg_plane = segmentation::filled(0u8, bytes);
                self.processing_ctx = Some(context.clone());
                let r: Result<(), EffectError> = Ok(());
                assert(old(self).chains_prepared(self, *context, r));
                assert(segmentation::prepared(
                    old(self).stage().source(),
                    old(self).stage()@,
                    self.stage()@,
                    *context,
                    first,
                ));
                r
            },
            None => {
                let reason = segmentation::too_large_text("frame", context.width, context.height);
                let r: Result<(), EffectError> = Err(EffectError::prepare_failed(COMPOSITE, reason));
                assert(old(self).chains_prepared(self, *context, r));
                assert(segmentation::prepared(
                    old(self).stage().source(),
                    old(self).stage()@,
                    self.stage()@,
                    *context,
                    first,
                ));
                r
            },
        }
    }

    /// Run the stages on a frame.
    fn process_frame(&mut self, frame: &mut VideoFrame, context: &mut FrameContext) -> (r: Result<
        (),
        EffectError,
    >)
        requires
            old(self).wf(),
        ensures
            final(self).wf(),
            old(self).frame_processed(
                final(self),
                *old(frame),
                *old(context),
                *final(frame),
                *final(context),
                r,
            ),
    {
        if frame.format != PixelFormat::Rgb {
            return process_err(
                segmentation::format_complaint("unexpected pixel format ", frame.format),
            );
        }
        if frame.width != self.frame_w || frame.height != self.frame_h {
            return process_err(
                segmentation::size_mismatch_text(
                    frame.width,
                    frame.height,
                    self.frame_w,
                    self.frame_h,
                ),
            );
        }
        let ghost start = *frame;
        let ghost math = self.math();
        let started = segmentation::now();
        let outcome = self.segmentation.process(frame, context);
        let ghost seg = self.segmentation@;
        let ghost c0 = *context;
        let ghost found = outcome;
        slots::record_stage(context, COMPOSITE, "seg", started);
        let ghost c1 = *context;
        assert(slots::staged(c0, c1, COMPOSITE@, "seg"@));
        assert(segmentation::segmented(
            math,
            old(self).stage()@,
            seg,
            start,
            *old(context),
            c0,
            found,
        ));
        let (mask_w, mask_h): (u32, u32) = match outcome {
            SegmentationOutcome::Segmented { width, height } => (width, height),
            SegmentationOutcome::Fallback => {
                context.fallback_active = true;
                let r: Result<(), EffectError> = Ok(());
                assert(old(self).finished(self, found, seg, start, c1, *frame, *context, r));
                return r;
            },
            SegmentationOutcome::Fatal(e) => {
                let r: Result<(), EffectError> = Err(e);
                assert(old(self).finished(self, found, seg, start, c1, *frame, *context, r));
                return r;
            },
        };
        let ghost here = *self;
        let r = self.after_segmentation(frame, context, mask_w, mask_h);
        proof {
            lemma_masked(
                &here,
                old(self),
                self,
                seg,
                start,
                mask_w,
                mask_h,
                c1,
                *frame,
                *context,
                r,
            );
        }
        assert(old(self).finished(self, found, seg, start, c1, *frame, *context, r));
        r
    }

    /// What follows the segmentation of a frame: the mask is at model
    /// resolution.
    fn after_segmentation(
        &mut self,
        frame: &mut VideoFrame,
        context: &mut FrameContext,
        mask_w: u32,
        mask_h: u32,
    ) -> (r: Result<(), EffectError>)
        requires
            old(self).wf(),
            old(self).stage()@.mask.len() == mask_w * mask_h,
        ensures
            final(self).wf(),
            final(self).same_kind(old(self)),
            old(self).masked(
                final(self),
                old(self).stage()@,
                *old(frame),
                mask_w,
                mask_h,
                *old(context),
                *final(frame),
                *final(context),
                r,
            ),
    {
        let ghost start = *frame;
        let ghost w = self.frame_w;
        let ghost h = self.frame_h;
        let ghost me = *self;
        let ghost mask = self.segmentation@.mask;
        let started = segmentation::now();
        let r = {
            let mut plane = MaskPlane::new(self.segmentation.mask_mut(), mask_w, mask_h);
            slots::run_mask_chain(&mut self.mask_chain, &mut plane, context)
        };
        let ghost m = self.segmentation@.mask;
        let ghost ran = *context;
        slots::record_stage(context, COMPOSITE, "mask_chain", started);
        let ghost c2 = *context;
        assert(slots::staged(ran, c2, COMPOSITE@, "mask_chain"@));
        assert(slots::mask_timed(
            me.masks(),
            self.masks(),
            mask_w,
            mask_h,
            mask,
            *old(context),
            m,
            c2,
            r,
        ));
        let ghost q = r;
        assert(self.stage()@ == (SegmentationState { mask: m, ..me.stage()@ }));
        if r.is_err() {
            return r;
        }
        let size = Resize {
            src_w: mask_w,
            src_h: mask_h,
            dst_w: self.frame_w,
            dst_h: self.frame_h,
        };
        let started = segmentation::now();
        pixel_math::resize_mask(
            self.segmentation.math(),
            self.segmentation.mask(),
            size,
            &mut self.mask_full,
        );
        let ghost full = self.mask_full@;
        slots::record_stage(context, COMPOSITE, "mask_resize", started);
        let ghost c2b = *context;
        assert(slots::staged(c2, c2b, COMPOSITE@, "mask_resize"@));
        assert(pixel_math::resized_mask(me.math(), m, size, full));
        frame.data.make_owned();
        let len: usize = frame.data.len();
        if len != self.bg_plane.len() {
            let reason = length_mismatch_text(len, self.bg_plane.len());
            let r = process_err(reason);
            assert(me.resized(self, start, mask_w, mask_h, m, c2, *frame, *context, r));
            assert(slots::mask_timed(
                me.masks(),
                self.masks(),
                mask_w,
                mask_h,
                mask,
                *old(context),
                m,
                c2,
                q,
            ));
            return r;
        }
        let started = segmentation::now();
        copy_over(&mut self.bg_plane, frame.data.as_slice());
        slots::record_stage(context, COMPOSITE, "bg_copy", started);
        let ghost c2c = *context;
        assert(slots::staged(c2b, c2c, COMPOSITE@, "bg_copy"@));
        let started = segmentation::now();
        let r = {
            let mut plane = FramePlane::new(
                self.bg_plane.as_mut_slice(),
                self.frame_w,
                self.frame_h,
            );
            slots::run_plane_chain(&mut self.bg_chain, "background", &mut plane, context)
        };
        let ghost bg = self.bg_plane@;
        let ghost ran = *context;
        slots::record_stage(context, COMPOSITE, "bg_chain", started);
        let ghost c3 = *context;
        assert(slots::staged(ran, c3, COMPOSITE@, "bg_chain"@));
        assert(slots::plane_timed(
            me.backs(),
            self.backs(),
            "background"@,
            "bg_chain"@,
            w,
            h,
            start.data@,
            c2c,
            bg,
            c3,
            r,
        ));
        if r.is_err() {
            assert(slots::staged(c2b, c2c, COMPOSITE@, "bg_copy"@));
            assert(slots::plane_timed(
                me.backs(),
                self.backs(),
                "background"@,
                "bg_chain"@,
                me.width(),
                me.height(),
                start.data@,
                c2c,
                bg,
                *context,
                r,
            ));
            assert(self.fronts() == me.fronts() && self.posts() == me.posts());
            assert(me.backed(self, start, full, c2b, *frame, *context, r));
            assert(me.resized(self, start, mask_w, mask_h, m, c2, *frame, *context, r));
            assert(slots::mask_timed(
                me.masks(),
                self.masks(),
                mask_w,
                mask_h,
                mask,
                *old(context),
                m,
                c2,
                q,
            ));
            return r;
        }
        let ghost q3 = r;
        let started = segmentation::now();
        let r = {
            let mut plane = FramePlane::new(
                frame.data.as_mut_slice(),
                self.frame_w,
                self.frame_h,
            );
            slots::run_plane_chain(&mut self.fg_chain, "foreground", &mut plane, context)
        };
        let ghost fg = frame.data@;
        let ghost ran = *context;
        slots::record_stage(context, COMPOSITE, "fg_chain", started);
        let ghost c4 = *context;
        assert(slots::staged(ran, c4, COMPOSITE@, "fg_chain"@));
        assert(slots::plane_timed(
            me.fronts(),
            self.fronts(),
            "foreground"@,
            "fg_chain"@,
            w,
            h,
            start.data@,
            c3,
            fg,
            c4,
            r,
        ));
        if r.is_err() {
            assert(me.fronted(self, start, bg, full, c3, *frame, *context, r));
            assert(slots::plane_timed(
                me.backs(),
                self.backs(),
                "background"@,
                "bg_chain"@,
                w,
                h,
                start.data@,
                c2c,
                bg,
                c3,
                q3,
            ));
            assert(me.backed(self, start, full, c2b, *frame, *context, r));
            assert(me.resized(self, start, mask_w, mask_h, m, c2, *frame, *context, r));
            assert(slots::mask_timed(
                me.masks(),
                self.masks(),
                mask_w,
                mask_h,
                mask,
                *old(context),
                m,
                c2,
                q,
            ));
            return r;
        }
        let ghost q4 = r;
        let started = segmentation::now();
        pixel_math::alpha_composite_rgb_in_place(
            self.segmentation.math(),
            frame.data.as_mut_slice(),
            self.bg_plane.as_slice(),
            self.mask_full.as_slice(),
        );
        let ghost out = frame.data@;
        assert(pixel_math::composed(me.math(), fg, bg, full, out));
        slots::record_stage(context, COMPOSITE, "compose", started);
        let ghost c5 = *context;
        assert(slots::staged(c4, c5, COMPOSITE@, "compose"@));
        let started = segmentation::now();
        let r = {
            let mut plane = FramePlane::new(
                frame.data.as_mut_slice(),
                self.frame_w,
                self.frame_h,
            );
            let mask_plane = MaskPlane::new(
                self.mask_full.as_mut_slice(),
                self.frame_w,
                self.frame_h,
            );
            slots::run_post_chain(&mut self.post_chain, &mut plane, &mask_plane, context)
        };
        let ghost ran = *context;
        slots::record_stage(context, COMPOSITE, "post_chain", started);
        assert(slots::staged(ran, *context, COMPOSITE@, "post_chain"@));
        assert(slots::post_timed(
            me.posts(),
            self.posts(),
            w,
            h,
            out,
            full,
            c5,
            frame.data@,
            *context,
            r,
        ));
        assert(me.posted(self, fg, bg, full, c4, *frame, *context, r));
        assert(slots::plane_timed(
            me.fronts(),
            self.fronts(),
            "foreground"@,
            "fg_chain"@,
            w,
            h,
            start.data@,
            c3,
            fg,
            c4,
            q4,
        ));
        assert(me.fronted(self, start, bg, full, c3, *frame, *context, r));
        assert(slots::plane_timed(
            me.backs(),
            self.backs(),
            "background"@,
            "bg_chain"@,
            w,
            h,
            start.data@,
            c2c,
            bg,
            c3,
            q3,
        ));
        assert(me.backed(self, start, full, c2b, *frame, *context, r));
        assert(me.resized(self, start, mask_w, mask_h, m, c2, *frame, *context, r));
        assert(slots::mask_timed(
            me.masks(),
            self.masks(),
            mask_w,
            mask_h,
            mask,
            *old(context),
            m,
            c2,
            q,
        ));
        r
    }
}

/// A failing engine passes frames through, and touches no effect, until it has
/// failed as many times in a row as the threshold says; from then on each failure
/// is returned.  One success starts the count anew.
pub proof fn law_failure_budget<M: PixelMath, L: ModelLoader>(
    before: &CompositeEffect<M, L>,
    then: &CompositeEffect<M, L>,
    frame: VideoFrame,
    context: FrameContext,
    after: VideoFrame,
    context_after: FrameContext,
    r: Result<(), EffectError>,
)
    requires
        before.frame_processed(then, frame, context, after, context_after, r),
        before.frame_complaint(frame) is None,
        segmentation::frame_complaint(
            before.stage()@,
            frame.format,
            frame.width,
            frame.height,
        ) is None,
        before.stage()@.failures < u32::MAX,
    ensures
        exists|engine: Option<LoadedEngine>, reply: Result<InferenceOutput, InferenceError>|
            {
                &&& #[trigger] segmentation::may_reply(
                    before.math(),
                    before.stage()@,
                    frame.data@,
                    engine,
                    reply,
                )
                &&& then.stage()@.engine == engine
                &&& match reply {
                    Ok(_) => then.stage()@.failures == 0,
                    Err(source) => {
                        &&& then.stage()@.failures == before.stage()@.failures + 1
                        &&& after == frame
                        &&& then.same_chains(before)
                        &&& if before.stage()@.failures + 1 < before.stage()@.threshold {
                            r is Ok && context_after.fallback_active
                        } else {
                            r matches Err(e) && segmentation::inference_failure(
                                e,
                                segmentation::SEGMENTATION@,
                                source,
                            )
                        }
                    },
                }
            },
{
    let (stage, c, e, outcome) = choose|
        stage: SegmentationState,
        c: FrameContext,
        e: FrameContext,
        outcome: SegmentationOutcome,
    |
        {
            &&& #[trigger] segmentation::segmented(
                before.math(),
                before.stage()@,
                stage,
                frame,
                context,
                c,
                outcome,
            )
            &&& #[trigger] slots::staged(c, e, COMPOSITE@, "seg"@)
            &&& before.finished(then, outcome, stage, frame, e, after, context_after, r)
        };
    let reply = choose|reply: Result<InferenceOutput, InferenceError>| #[trigger]
        segmentation::may_reply(
            before.math(),
            before.stage()@,
            frame.data@,
            stage.engine,
            reply,
        ) && segmentation::answered(
            before.math(),
            before.stage()@,
            stage,
            context,
            c,
            reply,
            outcome,
        );
    assert(segmentation::may_reply(
        before.math(),
        before.stage()@,
        frame.data@,
        stage.engine,
        reply,
    ));
}

/// Composing and the post chain leave disabled effects alone.
proof fn lemma_disabled_posted<M: PixelMath, L: ModelLoader>(
    before: &CompositeEffect<M, L>,
    then: &CompositeEffect<M, L>,
    fg: Seq<u8>,
    bg: Seq<u8>,
    full: Seq<u32>,
    context: FrameContext,
    after: VideoFrame,
    context_after: FrameContext,
    r: Result<(), EffectError>,
)
    requires
        before.posted(then, fg, bg, full, context, after, context_after, r),
    ensures
        forall|i: int|
            0 <= i < before.posts().len() && !slots::on_at(before.posts(), i)
                ==> #[trigger] slots::same_at(then.posts(), before.posts(), i),
{
    let (out, e) = choose|out: Seq<u8>, e: FrameContext|
        {
            &&& #[trigger] pixel_math::composed(before.math(), fg, bg, full, out)
            &&& #[trigger] slots::staged(context, e, COMPOSITE@, "compose"@)
            &&& slots::post_timed(
                before.posts(),
                then.posts(),
                before.width(),
                before.height(),
                out,
                full,
                e,
                after.data@,
                context_after,
                r,
            )
        };
    assert forall|i: int|
        0 <= i < before.posts().len() && !slots::on_at(
            before.posts(),
            i,
        ) implies #[trigger] slots::same_at(then.posts(), before.posts(), i) by {
        slots::law_post_disabled(
            before.posts(),
            then.posts(),
            before.width(),
            before.height(),
            out,
            full,
            e,
            after.data@,
            context_after,
            r,
            i,
        );
    }
}

/// The foreground chain and what follows leave disabled effects alone.
proof fn lemma_disabled_fronted<M: PixelMath, L: ModelLoader>(
    before: &CompositeEffect<M, L>,
    then: &CompositeEffect<M, L>,
    frame: VideoFrame,
    bg: Seq<u8>,
    full: Seq<u32>,
    context: FrameContext,
    after: VideoFrame,
    context_after: FrameContext,
    r: Result<(), EffectError>,
)
    requires
        before.fronted(then, frame, bg, full, context, after, context_after, r),
    ensures
        forall|i: int|
            0 <= i < before.fronts().len() && !slots::on_at(before.fronts(), i)
                ==> #[trigger] slots::same_at(then.fronts(), before.fronts(), i),
        forall|i: int|
            0 <= i < before.posts().len() && !slots::on_at(before.posts(), i)
                ==> #[trigger] slots::same_at(then.posts(), before.posts(), i),
{
    let (fg, c, q) = choose|fg: Seq<u8>, c: FrameContext, q: Result<(), EffectError>|
        {
            &&& #[trigger] slots::plane_timed(
                before.fronts(),
                then.fronts(),
                "foreground"@,
                "fg_chain"@,
                before.width(),
                before.height(),
                frame.data@,
                context,
                fg,
                c,
                q,
            )
            &&& if q is Err {
                r == q && context_after == c && after.data@ == fg && then.posts()
                    == before.posts()
            } else {
                before.posted(then, fg, bg, full, c, after, context_after, r)
            }
        };
    assert forall|i: int|
        0 <= i < before.fronts().len() && !slots::on_at(
            before.fronts(),
            i,
        ) implies #[trigger] slots::same_at(then.fronts(), before.fronts(), i) by {
        slots::law_plane_disabled(
            before.fronts(),
            then.fronts(),
            "foreground"@,
            "fg_chain"@,
            before.width(),
            before.height(),
            frame.data@,
            context,
            fg,
            c,
            q,
            i,
        );
    }
    if q is Ok {
        lemma_disabled_posted(before, then, fg, bg, full, c, after, context_after, r);
    }
}

/// The mask chain and what follows leave disabled effects alone.
proof fn lemma_disabled_masked<M: PixelMath, L: ModelLoader>(
    before: &CompositeEffect<M, L>,
    then: &CompositeEffect<M, L>,
    stage: SegmentationState,
    frame: VideoFrame,
    width: u32,
    height: u32,
    context: FrameContext,
    after: VideoFrame,
    context_after: FrameContext,
    r: Result<(), EffectError>,
)
    requires
        before.masked(then, stage, frame, width, height, context, after, context_after, r),
    ensures
        forall|i: int|
            0 <= i < before.masks().len() && !slots::on_at(before.masks(), i)
                ==> #[trigger] slots::same_at(then.masks(), before.masks(), i),
        forall|i: int|
            0 <= i < before.backs().len() && !slots::on_at(before.backs(), i)
                ==> #[trigger] slots::same_at(then.backs(), before.backs(), i),
        forall|i: int|
            0 <= i < before.fronts().len() && !slots::on_at(before.fronts(), i)
                ==> #[trigger] slots::same_at(then.fronts(), before.fronts(), i),
        forall|i: int|
            0 <= i < before.posts().len() && !slots::on_at(before.posts(), i)
                ==> #[trigger] slots::same_at(then.posts(), before.posts(), i),
{
    let (m, c, q) = choose|m: Seq<u32>, c: FrameContext, q: Result<(), EffectError>|
        {
            &&& #[trigger] slots::mask_timed(
                before.masks(),
                then.masks(),
                width,
                height,
                stage.mask,
                context,
                m,
                c,
                q,
            )
            &&& then.stage()@ == (SegmentationState { mask: m, ..stage })
            &&& if q is Err {
                r == q && context_after == c && after == frame && then.backs() == before.backs()
                    && then.fronts() == before.fronts() && then.posts() == before.posts()
            } else {
                frame_with(frame, after, after.data@) && before.resized(
                    then,
                    frame,
                    width,
                    height,
                    m,
                    c,
                    after,
                    context_after,
                    r,
                )
            }
        };
    assert forall|i: int|
        0 <= i < before.masks().len() && !slots::on_at(
            before.masks(),
            i,
        ) implies #[trigger] slots::same_at(then.masks(), before.masks(), i) by {
        slots::law_mask_disabled(
            before.masks(),
            then.masks(),
            width,
            height,
            stage.mask,
            context,
            m,
            c,
            q,
            i,
        );
    }
    if q is Ok && frame.data@.len() == before.width() * before.height() * 3 {
        let size = Resize {
            src_w: width,
            src_h: height,
            dst_w: before.width(),
            dst_h: before.height(),
        };
        let (full, e) = choose|full: Seq<u32>, e: FrameContext|
            {
                &&& #[trigger] pixel_math::resized_mask(before.math(), m, size, full)
                &&& #[trigger] slots::staged(c, e, COMPOSITE@, "mask_resize"@)
                &&& before.backed(then, frame, full, e, after, context_after, r)
            };
        let (f, bg, d, p) = choose|
            f: FrameContext,
            bg: Seq<u8>,
            d: FrameContext,
            p: Result<(), EffectError>,
        |
            {
                &&& #[trigger] slots::staged(e, f, COMPOSITE@, "bg_copy"@)
                &&& #[trigger] slots::plane_timed(
                    before.backs(),
                    then.backs(),
                    "background"@,
                    "bg_chain"@,
                    before.width(),
                    before.height(),
                    frame.data@,
                    f,
                    bg,
                    d,
                    p,
                )
                &&& if p is Err {
                    r == p && context_after == d && after.data@ == frame.data@ && then.fronts()
                        == before.fronts() && then.posts() == before.posts()
                } else {
                    before.fronted(then, frame, bg, full, d, after, context_after, r)
                }
            };
        assert forall|i: int|
            0 <= i < before.backs().len() && !slots::on_at(
                before.backs(),
                i,
            ) implies #[trigger] slots::same_at(then.backs(), before.backs(), i) by {
            slots::law_plane_disabled(
                before.backs(),
                then.backs(),
                "background"@,
                "bg_chain"@,
                before.width(),
                before.height(),
                frame.data@,
                f,
                bg,
                d,
                p,
                i,
            );
        }
        if p is Ok {
            lemma_disabled_fronted(before, then, frame, bg, full, d, after, context_after, r);
        }
    }
}

/// A disabled effect is left as it is, whatever becomes of the frame.
pub proof fn law_disabled_left_alone<M: PixelMath, L: ModelLoader>(
    before: &CompositeEffect<M, L>,
    then: &CompositeEffect<M, L>,
    frame: VideoFrame,
    context: FrameContext,
    after: VideoFrame,
    context_after: FrameContext,
    r: Result<(), EffectError>,
)
    requires
        before.frame_processed(then, frame, context, after, context_after, r),
    ensures
        forall|i: int|
            0 <= i < before.masks().len() && !slots::on_at(before.masks(), i)
                ==> #[trigger] slots::same_at(then.masks(), before.masks(), i),
        forall|i: int|
            0 <= i < before.backs().len() && !slots::on_at(before.backs(), i)
                ==> #[trigger] slots::same_at(then.backs(), before.backs(), i),
        forall|i: int|
            0 <= i < before.fronts().len() && !slots::on_at(before.fronts(), i)
                ==> #[trigger] slots::same_at(then.fronts(), before.fronts(), i),
        forall|i: int|
            0 <= i < before.posts().len() && !slots::on_at(before.posts(), i)
                ==> #[trigger] slots::same_at(then.posts(), before.posts(), i),
{
    if before.frame_complaint(frame) is None {
        let (stage, c, e, outcome) = choose|
            stage: SegmentationState,
            c: FrameContext,
            e: FrameContext,
            outcome: SegmentationOutcome,
        |
            {
                &&& #[trigger] segmentation::segmented(
                    before.math(),
                    before.stage()@,
                    stage,
                    frame,
                    context,
                    c,
                    outcome,
                )
                &&& #[trigger] slots::staged(c, e, COMPOSITE@, "seg"@)
                &&& before.finished(then, outcome, stage, frame, e, after, context_after, r)
            };
        match outcome {
            SegmentationOutcome::Segmented { width, height } => {
                lemma_disabled_masked(
                    before,
                    then,
                    stage,
                    frame,
                    width,
                    height,
                    e,
                    after,
                    context_after,
                    r,
                );
            },
            _ => {},
        }
    }
}

} // verus!
