//! The background-blur effect.

use vstd::prelude::*;
use crate::background_blur::config::{self, BlurConfig, BACKGROUND_BLUR};
use crate::composite::effect as composite;
use crate::composite::segmentation;
use crate::context::{FrameContext, ProcessingContext};
use crate::error::{EffectError, InferenceError};
use crate::float_bits;
use crate::frame::{PixelFormat, VideoFrame};
use crate::mask_effects;
use crate::mask_effects::dilate;
use crate::mask_effects::threshold;
use crate::ml::loader;
use crate::ml::model_config::ModelConfig;
use crate::ml::tensor;
use crate::params::RawEffectParams;
use crate::pixel_math::{self, PixelMath, Resize};
use crate::processing::blur as box_blur;
use crate::traits::{
    self, InferenceInput, InferenceOutput, LoadedEngine, ModelLoader, VideoCall, VideoEffect,
    VideoRules, VideoState,
};

verus! {

/// Outcome of asking the engine about a frame.
#[derive(Debug)]
pub enum InferenceOutcome {
    /// The engine's answer.
    Inferred(InferenceOutput),
    /// A transient failure: pass the frame through.
    Fallback,
    /// A failure to propagate.
    Fatal(EffectError),
}

/// Background-blur effect.
pub struct BackgroundBlurEffect<M: PixelMath, L: ModelLoader> {
    config: Option<BlurConfig>,
    model_config: Option<ModelConfig>,
    engine: Option<LoadedEngine>,
    math: M,
    loader: L,
    blurred: Vec<u8>,
    blur_scratch: Vec<u8>,
    mask_full: Vec<u32>,
    mask_prev: Vec<u32>,
    mask_dilate_scratch: Vec<u32>,
    mask_feather_scratch: Vec<u32>,
    model_input_u8: Vec<u8>,
    model_input_f32: Vec<u32>,
    mask_raw: Vec<u32>,
    frame_w: u32,
    frame_h: u32,
    model_w: u32,
    model_h: u32,
    consecutive_failures: u32,
}

/// What a background-blur effect stands for.
pub ghost struct BlurState {
    /// The parameters, once configured.
    pub config: Option<BlurConfig>,
    /// Configuration of the model, once prepared.
    pub model_config: Option<ModelConfig>,
    /// The engine, once prepared.
    pub engine: Option<LoadedEngine>,
    /// The mask of the last frame.
    pub mask: Seq<u32>,
    /// The mask that the next frame's mask is smoothed with.
    pub previous: Seq<u32>,
    /// Frame width the effect is prepared for.
    pub frame_w: u32,
    /// Frame height the effect is prepared for.
    pub frame_h: u32,
    /// Width of the model input.
    pub model_w: u32,
    /// Height of the model input.
    pub model_h: u32,
    /// Failures since the last success.
    pub failures: u32,
}

/// What a background blur with given arithmetic and models may do.
pub open spec fn blur_rules<M: PixelMath, L: ModelLoader>(math: &M, loader: &L) -> VideoRules {
    VideoRules {
        id: BACKGROUND_BLUR@,
        configure: |s: VideoState, p: RawEffectParams, t: VideoState, r: Result<(), EffectError>|
            configured(s->Blur_0, t->Blur_0, p, r) && t is Blur,
        prepare: |s: VideoState, c: ProcessingContext, t: VideoState, r: Result<(), EffectError>|
            prepared(loader, s->Blur_0, t->Blur_0, c, r) && t is Blur,
        process: |s: VideoState, c: VideoCall, t: VideoState, r: Result<(), EffectError>|
            ran(
                math,
                s->Blur_0,
                t->Blur_0,
                c.frame,
                c.frame_after,
                c.context,
                c.context_after,
                r,
            ) && t is Blur,
        shut_down: |s: VideoState, t: VideoState, r: Result<(), EffectError>| r is Ok && t == s,
    }
}

impl<M: PixelMath, L: ModelLoader> View for BackgroundBlurEffect<M, L> {
    type V = BlurState;

    closed spec fn view(&self) -> BlurState {
        BlurState {
            config: self.config,
            model_config: self.model_config,
            engine: self.engine,
            mask: self.mask_full@,
            previous: self.mask_prev@,
            frame_w: self.frame_w,
            frame_h: self.frame_h,
            model_w: self.model_w,
            model_h: self.model_h,
            failures: self.consecutive_failures,
        }
    }
}

// ---------------------------------------------------------------------------
// Inference
// ---------------------------------------------------------------------------

/// A mask of `n` zeros.
pub open spec fn blank(n: nat) -> Seq<u32> {
    Seq::new(n, |i: int| float_bits::ZERO)
}

/// Why the effect cannot run, if it cannot.
pub open spec fn setup_complaint(state: BlurState) -> Option<Seq<char>> {
    if state.model_config is None {
        Some("process called before prepare"@)
    } else if state.config is None {
        Some("process called before configure"@)
    } else if state.engine is None {
        Some("process called before prepare"@)
    } else {
        None
    }
}

/// Whether `input` is what the engine is asked about for `frame`.
pub open spec fn asked<M: PixelMath>(
    math: &M,
    state: BlurState,
    frame: VideoFrame,
    input: Seq<u32>,
) -> bool {
    let config = state.model_config->0;
    let size = Resize {
        src_w: frame.width,
        src_h: frame.height,
        dst_w: state.model_w,
        dst_h: state.model_h,
    };
    exists|bytes: Seq<u8>| #[trigger]
        pixel_math::resized_rgb(math, frame.data@, size, bytes) && tensor::packed(
            bytes,
            input,
            config.input_layout,
            state.model_h * state.model_w,
            config.input_scale,
            config.input_zero_point,
            math,
        )
}

/// Whether the engine may be asked about `frame` and answer `reply`, where it
/// is `engine` then.
pub open spec fn may_reply<M: PixelMath>(
    math: &M,
    state: BlurState,
    frame: VideoFrame,
    engine: Option<LoadedEngine>,
    reply: Result<InferenceOutput, InferenceError>,
) -> bool {
    exists|input: Seq<u32>| #[trigger]
        asked(math, state, frame, input) && state.engine->0.answers(
            input,
            tensor::input_shape_spec(
                state.model_config->0.input_layout,
                state.model_h as usize,
                state.model_w as usize,
            ),
            engine->0,
            reply,
        )
}

/// The state after the engine's answer: a success clears the failures, the first
/// failure of a burst clears the mask to smooth with.
pub open spec fn counted(
    before: BlurState,
    after: BlurState,
    reply: Result<InferenceOutput, InferenceError>,
) -> bool {
    &&& after.engine is Some
    &&& match reply {
        Ok(_) => after == (BlurState { engine: after.engine, failures: 0, ..before }),
        Err(_) => after == (BlurState {
            engine: after.engine,
            failures: segmentation::one_more(before.failures),
            previous: if segmentation::one_more(before.failures) == 1 {
                blank(before.previous.len())
            } else {
                before.previous
            },
            ..before
        }),
    }
}

/// Whether the failure `source` may end as `r` after `failures` in a row.
pub open spec fn judged(
    failures: u32,
    threshold: u32,
    source: InferenceError,
    r: InferenceOutcome,
) -> bool {
    if failures >= threshold {
        r matches InferenceOutcome::Fatal(e) && segmentation::inference_failure(
            e,
            BACKGROUND_BLUR@,
            source,
        )
    } else {
        r is Fallback
    }
}

/// Whether asking the engine may lead from `before` to `after` with the outcome
/// `r`.
pub open spec fn inferred<M: PixelMath>(
    math: &M,
    before: BlurState,
    after: BlurState,
    frame: VideoFrame,
    r: InferenceOutcome,
) -> bool {
    match setup_complaint(before) {
        Some(reason) => after == before && (r matches InferenceOutcome::Fatal(e)
            && segmentation::processing_failure(e, BACKGROUND_BLUR@, reason)),
        None => exists|reply: Result<InferenceOutput, InferenceError>| #[trigger]
            may_reply(math, before, frame, after.engine, reply) && counted(before, after, reply)
                && match reply {
                Ok(output) => r == InferenceOutcome::Inferred(output),
                Err(source) => judged(
                    after.failures,
                    before.config->0.fallback_threshold,
                    source,
                    r,
                ),
            },
    }
}

/// A failing engine is tolerated until it has failed as many times in a row as
/// the threshold says, and one success starts the count anew.
pub proof fn law_failure_budget<M: PixelMath>(
    math: &M,
    before: BlurState,
    after: BlurState,
    frame: VideoFrame,
    r: InferenceOutcome,
)
    requires
        inferred(math, before, after, frame, r),
        setup_complaint(before) is None,
        before.failures < u32::MAX,
    ensures
        r is Inferred ==> after.failures == 0,
        r is Fallback ==> after.failures == before.failures + 1 && after.failures
            < before.config->0.fallback_threshold,
        r is Fatal ==> after.failures == before.failures + 1 && after.failures
            >= before.config->0.fallback_threshold,
{
}

/// What an outage left of the mask is gone when the engine recovers: after the
/// first failure of a burst the mask to smooth with is blank.
pub proof fn law_no_stale_mask<M: PixelMath>(
    math: &M,
    before: BlurState,
    after: BlurState,
    frame: VideoFrame,
    r: InferenceOutcome,
)
    requires
        inferred(math, before, after, frame, r),
        setup_complaint(before) is None,
        before.failures == 0,
        !(r is Inferred),
    ensures
        after.previous == blank(before.previous.len()),
{
}

// ---------------------------------------------------------------------------
// Mask
// ---------------------------------------------------------------------------

/// Whether `raw` is the mask that `output` holds.
pub open spec fn decoded<M: PixelMath>(
    math: &M,
    config: ModelConfig,
    output: InferenceOutput,
    raw: Seq<u32>,
) -> bool {
    forall|i: int|
        0 <= i < raw.len() ==> tensor::mask_value(
            output.data@,
            config,
            raw.len(),
            i,
            #[trigger] raw[i],
            math,
        )
}

/// Whether `mask` is the smoothed mask `soft`, binarised, dilated and feathered.
pub open spec fn shaped<M: PixelMath>(
    math: &M,
    config: BlurConfig,
    w: u32,
    h: u32,
    soft: Seq<u32>,
    mask: Seq<u32>,
) -> bool {
    exists|wide: Seq<u32>| #[trigger]
        dilate::dilated(
            threshold::binarised(soft, config.mask_threshold),
            wide,
            w as int,
            h as int,
            config.mask_dilate as nat,
        ) && pixel_math::feathered(math, wide, w, h, config.mask_feather_radius, mask)
}

/// Whether the mask may go from `before` to `after` for the decoded mask `raw`.
pub open spec fn refined<M: PixelMath>(
    math: &M,
    before: BlurState,
    after: BlurState,
    raw: Seq<u32>,
) -> bool {
    let config = before.config->0;
    let size = Resize {
        src_w: before.model_w,
        src_h: before.model_h,
        dst_w: before.frame_w,
        dst_h: before.frame_h,
    };
    &&& pixel_math::resized_mask(math, raw, size, after.previous)
    &&& exists|soft: Seq<u32>| #[trigger]
        pixel_math::smoothed(
            math,
            before.previous,
            after.previous,
            config.mask_smoothing,
            soft,
        ) && shaped(math, config, before.frame_w, before.frame_h, soft, after.mask)
}

/// Whether building the mask may lead from `before` to `after` with the result
/// `r`, where the effect can run.
pub open spec fn masked<M: PixelMath>(
    math: &M,
    before: BlurState,
    after: BlurState,
    output: InferenceOutput,
    r: Result<(), EffectError>,
) -> bool {
    match tensor::decode_complaint(
        before.model_config->0,
        output.data@.len(),
        (before.model_w * before.model_h) as nat,
        output.shape@,
    ) {
        Some(reason) => after == before && tensor::failed(r, BACKGROUND_BLUR@, reason),
        None => {
            &&& r is Ok
            &&& after == (BlurState { mask: after.mask, previous: after.previous, ..before })
            &&& exists|raw: Seq<u32>|
                raw.len() == before.model_w * before.model_h && #[trigger] decoded(
                    math,
                    before.model_config->0,
                    output,
                    raw,
                ) && refined(math, before, after, raw)
        },
    }
}

// ---------------------------------------------------------------------------
// Frame
// ---------------------------------------------------------------------------

/// Whether `after` is `frame` laid over its own blur by the mask of `state`.
pub open spec fn blended<M: PixelMath>(
    math: &M,
    state: BlurState,
    frame: VideoFrame,
    after: VideoFrame,
) -> bool {
    let config = state.config->0;
    &&& composite::frame_with(frame, after, after.data@)
    &&& pixel_math::composed(
        math,
        frame.data@,
        box_blur::blurred(
            frame.data@,
            3 * state.frame_w,
            state.frame_h as int,
            config.blur_radius as int,
            config.blur_passes as nat,
        ),
        state.mask,
        after.data@,
    )
}

/// Why a frame is refused, if it is.
pub open spec fn frame_complaint(state: BlurState, frame: VideoFrame) -> Option<Seq<char>> {
    if frame.format != PixelFormat::Rgb {
        Some("unexpected pixel format "@ + frame.format.variant())
    } else if frame.width != state.frame_w || frame.height != state.frame_h {
        Some(
            segmentation::size_mismatch(frame.width, frame.height, state.frame_w, state.frame_h),
        )
    } else if setup_complaint(state) is None
        && frame.data@.len() != frame.width * frame.height * 3 {
        Some(
            composite::length_mismatch(
                frame.data@.len(),
                (frame.width * frame.height * 3) as nat,
            ),
        )
    } else {
        None
    }
}

/// Whether a frame for which asking the engine led to `between` with the outcome
/// `outcome` may end as given.
pub open spec fn finished<M: PixelMath>(
    math: &M,
    between: BlurState,
    after: BlurState,
    outcome: InferenceOutcome,
    frame: VideoFrame,
    frame_after: VideoFrame,
    context: FrameContext,
    context_after: FrameContext,
    r: Result<(), EffectError>,
) -> bool {
    match outcome {
        InferenceOutcome::Fallback => {
            &&& r is Ok
            &&& after == between
            &&& frame_after == frame
            &&& context_after == (FrameContext { fallback_active: true, ..context })
        },
        InferenceOutcome::Fatal(e) => {
            &&& r == Err::<(), EffectError>(e)
            &&& after == between
            &&& frame_after == frame
            &&& context_after == context
        },
        InferenceOutcome::Inferred(output) => {
            &&& masked(math, between, after, output, r)
            &&& context_after == context
            &&& if r is Ok {
                blended(math, after, frame, frame_after)
            } else {
                frame_after == frame
            }
        },
    }
}

/// Whether processing a frame may lead from `before` to `after` as given.
pub open spec fn ran<M: PixelMath>(
    math: &M,
    before: BlurState,
    after: BlurState,
    frame: VideoFrame,
    frame_after: VideoFrame,
    context: FrameContext,
    context_after: FrameContext,
    r: Result<(), EffectError>,
) -> bool {
    match frame_complaint(before, frame) {
        Some(reason) => {
            &&& tensor::failed(r, BACKGROUND_BLUR@, reason)
            &&& after == before
            &&& frame_after == frame
            &&& context_after == context
        },
        None => exists|between: BlurState, outcome: InferenceOutcome| #[trigger]
            inferred(math, before, between, frame, outcome) && finished(
                math,
                between,
                after,
                outcome,
                frame,
                frame_after,
                context,
                context_after,
                r,
            ),
    }
}

/// A frame that is passed through is passed through unchanged, and the context
/// says so; a frame that is refused or fails is left as it was.
pub proof fn law_frame_untouched<M: PixelMath>(
    math: &M,
    before: BlurState,
    after: BlurState,
    frame: VideoFrame,
    frame_after: VideoFrame,
    context: FrameContext,
    context_after: FrameContext,
    r: Result<(), EffectError>,
)
    requires
        ran(math, before, after, frame, frame_after, context, context_after, r),
    ensures
        r is Err ==> frame_after == frame && context_after == context,
        !context.fallback_active && context_after.fallback_active ==> r is Ok && frame_after
            == frame,
{
}

/// The engine that was loaded answers every frame, and the parameters in force
/// stay in force: processing a frame leaves an engine in place that goes by the
/// same rules, and the same configuration.
pub proof fn law_setup_stays<M: PixelMath>(
    math: &M,
    before: BlurState,
    after: BlurState,
    frame: VideoFrame,
    frame_after: VideoFrame,
    context: FrameContext,
    context_after: FrameContext,
    r: Result<(), EffectError>,
)
    requires
        ran(math, before, after, frame, frame_after, context, context_after, r),
    ensures
        after.config == before.config,
        after.model_config == before.model_config,
        before.engine matches Some(e) ==> after.engine is Some && after.engine->0.engine.rules()
            == e.engine.rules(),
{
}

// ---------------------------------------------------------------------------
// Preparation
// ---------------------------------------------------------------------------

/// An effect that was `before`, prepared for a model and a stream.
pub open spec fn ready(
    before: BlurState,
    after: BlurState,
    config: ModelConfig,
    engine: LoadedEngine,
    context: ProcessingContext,
) -> bool {
    let pixels = (context.width * context.height) as nat;
    &&& after.config == before.config
    &&& after.model_config == Some(config)
    &&& after.engine == Some(engine)
    &&& after.mask == blank(pixels)
    &&& after.previous == blank(pixels)
    &&& after.frame_w == context.width
    &&& after.frame_h == context.height
    &&& after.model_w == config.input_width
    &&& after.model_h == config.input_height
    &&& after.failures == 0
}

/// Why frames of a size cannot be processed, if they cannot.
pub open spec fn size_complaint(w: u32, h: u32) -> Option<Seq<char>> {
    if !segmentation::countable(w, h) {
        Some(segmentation::too_large("frame"@, w, h))
    } else {
        None
    }
}

/// Whether preparing may lead from `before` to `after` with the result `r` where
/// the loader answers a request for an engine with `built`.
pub open spec fn built_with(
    before: BlurState,
    after: BlurState,
    config: ModelConfig,
    context: ProcessingContext,
    built: Result<LoadedEngine, InferenceError>,
    r: Result<(), EffectError>,
) -> bool {
    match built {
        Err(source) => after == before && (r matches Err(e) && segmentation::inference_failure(
            e,
            BACKGROUND_BLUR@,
            source,
        )),
        Ok(engine) => match size_complaint(context.width, context.height) {
            Some(reason) => after == before && segmentation::unprepared(
                r,
                BACKGROUND_BLUR@,
                reason,
            ),
            None => r is Ok && ready(before, after, config, engine, context),
        },
    }
}

/// Whether preparing may lead from `before` to `after` with the result `r` where
/// the loader answers a request for the model's configuration with `loaded`.
pub open spec fn loaded_with<L: ModelLoader>(
    loader: &L,
    before: BlurState,
    after: BlurState,
    context: ProcessingContext,
    loaded: Result<ModelConfig, InferenceError>,
    r: Result<(), EffectError>,
) -> bool {
    match loaded {
        Err(source) => after == before && segmentation::unprepared(
            r,
            BACKGROUND_BLUR@,
            source.display(),
        ),
        Ok(config) => if !segmentation::countable(config.input_width, config.input_height) {
            after == before && segmentation::unprepared(
                r,
                BACKGROUND_BLUR@,
                segmentation::too_large("model input"@, config.input_width, config.input_height),
            )
        } else {
            exists|built: Result<LoadedEngine, InferenceError>| #[trigger]
                traits::may_build(loader, before.config->0.model@, config, None, built)
                    && built_with(before, after, config, context, built, r)
        },
    }
}

/// Whether preparing may lead from `before` to `after` with the result `r`.
pub open spec fn prepared<L: ModelLoader>(
    loader: &L,
    before: BlurState,
    after: BlurState,
    context: ProcessingContext,
    r: Result<(), EffectError>,
) -> bool {
    if context.format != PixelFormat::Rgb {
        after == before && segmentation::unprepared(
            r,
            BACKGROUND_BLUR@,
            "background_blur requires RGB input, got "@ + context.format.variant(),
        )
    } else if before.config is None {
        after == before && segmentation::unprepared(
            r,
            BACKGROUND_BLUR@,
            "prepare called before configure"@,
        )
    } else {
        exists|loaded: Result<ModelConfig, InferenceError>| #[trigger]
            traits::may_load(
                loader,
                before.config->0.model@,
                before.config->0.sidecar(),
                loaded,
            ) && loaded_with(loader, before, after, context, loaded, r)
    }
}

/// Whether configuring may lead from `before` to `after` with the result `r`.
pub open spec fn configured(
    before: BlurState,
    after: BlurState,
    params: RawEffectParams,
    r: Result<(), EffectError>,
) -> bool {
    match config::parse_complaint(params) {
        Some(reason) => after == before && mask_effects::configured(
            BACKGROUND_BLUR@,
            Some(reason),
            r,
        ),
        None => exists|c: BlurConfig| #[trigger]
            c.spelled(params.fields(config::field_names())->Ok_0) && mask_effects::configured(
                BACKGROUND_BLUR@,
                c.defect(),
                r,
            ) && after == (if r is Ok {
                BlurState { config: Some(c), ..before }
            } else {
                before
            }),
    }
}

fn process_err(reason: String) -> (r: EffectError)
    ensures
        segmentation::processing_failure(r, BACKGROUND_BLUR@, reason@),
{
    EffectError::process_failed(BACKGROUND_BLUR, reason)
}

impl<M: PixelMath, L: ModelLoader> BackgroundBlurEffect<M, L> {
    /// Effect name as registered in the effect registry.
    pub const NAME: &'static str = "background_blur";

    /// Whether the buffers fit the frame and the model, once there is one.
    pub closed spec fn sound(&self) -> bool {
        self.model_config is Some ==> {
            &&& self.config is Some
            &&& segmentation::countable(self.model_w, self.model_h)
            &&& segmentation::countable(self.frame_w, self.frame_h)
            &&& self.model_w == self.model_config->0.input_width
            &&& self.model_h == self.model_config->0.input_height
            &&& self.model_input_u8@.len() == self.model_h * self.model_w * 3
            &&& self.model_input_f32@.len() == self.model_h * self.model_w * 3
            &&& self.mask_raw@.len() == self.model_w * self.model_h
            &&& self.mask_full@.len() == self.frame_w * self.frame_h
            &&& self.mask_prev@.len() == self.frame_w * self.frame_h
            &&& self.blurred@.len() == self.frame_w * self.frame_h * 3
            &&& self.blur_scratch@.len() == self.frame_w * self.frame_h * 3
        }
    }

    /// The pixel arithmetic.
    pub closed spec fn pixel_math(&self) -> &M {
        &self.math
    }

    /// Where models come from.
    pub closed spec fn source(&self) -> &L {
        &self.loader
    }

    /// An empty effect; configure and prepare it before processing.
    #[must_use]
    pub fn new(math: M, loader: L) -> (r: Self)
        ensures
            r.wf(),
            r@.config is None,
            r@.model_config is None,
            r@.engine is None,
            r@.mask.len() == 0,
            r@.previous.len() == 0,
            r@.frame_w == 0 && r@.frame_h == 0,
            r@.model_w == 0 && r@.model_h == 0,
            r@.failures == 0,
            *r.pixel_math() == math,
            *r.source() == loader,
    {
        BackgroundBlurEffect {
            config: None,
            model_config: None,
            engine: None,
            math,
            loader,
            blurred: Vec::new(),
            blur_scratch: Vec::new(),
            mask_full: Vec::new(),
            mask_prev: Vec::new(),
            mask_dilate_scratch: Vec::new(),
            mask_feather_scratch: Vec::new(),
            model_input_u8: Vec::new(),
            model_input_f32: Vec::new(),
            mask_raw: Vec::new(),
            frame_w: 0,
            frame_h: 0,
            model_w: 0,
            model_h: 0,
            consecutive_failures: 0,
        }
    }

    fn validate_frame(&self, frame: &VideoFrame) -> (r: Result<(), EffectError>)
        requires
            self.wf(),
        ensures
            match frame_complaint(self@, *frame) {
                Some(reason) => tensor::failed(r, BACKGROUND_BLUR@, reason),
                None => r is Ok,
            },
    {
        if frame.format != PixelFormat::Rgb {
            let reason = segmentation::format_complaint("unexpected pixel format ", frame.format);
            return Err(process_err(reason));
        }
        if frame.width != self.frame_w || frame.height != self.frame_h {
            let reason = segmentation::size_mismatch_text(
                frame.width,
                frame.height,
                self.frame_w,
                self.frame_h,
            );
            return Err(process_err(reason));
        }
        if self.model_config.is_some() && self.config.is_some() && self.engine.is_some() {
            let expected: usize = self.blurred.len();
            let len: usize = frame.data.as_slice().len();
            if len != expected {
                let reason = composite::length_mismatch_text(len, expected);
                return Err(process_err(reason));
            }
        }
        Ok(())
    }

    /// Resize, normalise and infer.
    fn run_inference(&mut self, frame: &VideoFrame) -> (r: InferenceOutcome)
        requires
            old(self).wf(),
        ensures
            final(self).wf(),
            final(self).pixel_math() == old(self).pixel_math(),
            final(self).source() == old(self).source(),
            inferred(old(self).pixel_math(), old(self)@, final(self)@, *frame, r),
    {
        let model_config: &ModelConfig = match &self.model_config {
            Some(c) => c,
            None => {
                return InferenceOutcome::Fatal(
                    process_err("process called before prepare".to_owned()),
                );
            },
        };
        let budget: u32 = match &self.config {
            Some(c) => c.fallback_threshold,
            None => {
                return InferenceOutcome::Fatal(
                    process_err("process called before configure".to_owned()),
                );
            },
        };
        if self.engine.is_none() {
            return InferenceOutcome::Fatal(
                process_err("process called before prepare".to_owned()),
            );
        }
        let ghost start = self@;
        let size = Resize {
            src_w: frame.width,
            src_h: frame.height,
            dst_w: self.model_w,
            dst_h: self.model_h,
        };
        assert(self.model_w * self.model_h * 3 == self.model_h * self.model_w * 3)
            by (nonlinear_arith);
        pixel_math::resize_rgb(&self.math, frame.data.as_slice(), size, &mut self.model_input_u8);
        let ghost bytes = self.model_input_u8@;
        tensor::pack_input(
            self.model_input_u8.as_slice(),
            &mut self.model_input_f32,
            model_config.input_layout,
            self.model_h,
            self.model_w,
            model_config.input_scale,
            model_config.input_zero_point,
            &self.math,
        );
        let ghost input = self.model_input_f32@;
        proof {
            assert(pixel_math::resized_rgb(&self.math, frame.data@, size, bytes));
            assert(asked(&self.math, start, *frame, input));
        }
        let shape = tensor::input_shape(model_config.input_layout, self.model_h, self.model_w);
        let reply = match &mut self.engine {
            Some(loaded) => loaded.engine.infer(
                InferenceInput { data: self.model_input_f32.as_slice(), shape: shape.as_slice() },
            ),
            None => {
                return InferenceOutcome::Fatal(
                    process_err("process called before prepare".to_owned()),
                );
            },
        };
        assert(may_reply(&self.math, start, *frame, self.engine, reply));
        let ghost answer = reply;
        match reply {
            Ok(output) => {
                self.consecutive_failures = 0;
                assert(counted(start, self@, answer));
                InferenceOutcome::Inferred(output)
            },
            Err(e) => {
                self.consecutive_failures = self.consecutive_failures.saturating_add(1);
                if self.consecutive_failures == 1 {
                    let n: usize = self.mask_prev.len();
                    self.mask_prev = segmentation::filled(float_bits::ZERO, n);
                    assert(self.mask_prev@ =~= blank(start.previous.len()));
                }
                assert(counted(start, self@, answer));
                if self.consecutive_failures >= budget {
                    InferenceOutcome::Fatal(
                        EffectError::Inference { name: BACKGROUND_BLUR.to_owned(), source: e },
                    )
                } else {
                    InferenceOutcome::Fallback
                }
            },
        }
    }

    /// Decode the engine's answer into the mask, bring it to frame resolution
    /// and smooth, binarise, dilate and feather it.
    fn build_mask(&mut self, output: &InferenceOutput) -> (r: Result<(), EffectError>)
        requires
            old(self).wf(),
            setup_complaint(old(self)@) is None,
        ensures
            final(self).wf(),
            final(self).pixel_math() == old(self).pixel_math(),
            final(self).source() == old(self).source(),
            masked(old(self).pixel_math(), old(self)@, final(self)@, *output, r),
    {
        let model_config: &ModelConfig = match &self.model_config {
            Some(c) => c,
            None => {
                return Err(process_err("process called before prepare".to_owned()));
            },
        };
        let config: &BlurConfig = match &self.config {
            Some(c) => c,
            None => {
                return Err(process_err("process called before configure".to_owned()));
            },
        };
        let ghost start = self@;
        let decoding = tensor::decode_mask(
            BACKGROUND_BLUR,
            output.data.as_slice(),
            output.shape.as_slice(),
            self.mask_raw.as_mut_slice(),
            model_config,
            &self.math,
        );
        if decoding.is_err() {
            return decoding;
        }
        let ghost raw = self.mask_raw@;
        assert(decoded(&self.math, *model_config, *output, raw));
        let size = Resize {
            src_w: self.model_w,
            src_h: self.model_h,
            dst_w: self.frame_w,
            dst_h: self.frame_h,
        };
        pixel_math::resize_mask(&self.math, self.mask_raw.as_slice(), size, &mut self.mask_full);
        let ghost full = self.mask_full@;
        pixel_math::smooth_temporal(
            &self.math,
            self.mask_prev.as_mut_slice(),
            self.mask_full.as_slice(),
            config.mask_smoothing,
        );
        let ghost soft = self.mask_prev@;
        std::mem::swap(&mut self.mask_full, &mut self.mask_prev);
        assert(self.mask_full@ == soft);
        assert(self.mask_prev@ == full);
        threshold::threshold(self.mask_full.as_mut_slice(), config.mask_threshold);
        assert(self.mask_full@ == threshold::binarised(soft, config.mask_threshold));
        dilate::dilate(
            self.mask_full.as_mut_slice(),
            &mut self.mask_dilate_scratch,
            self.frame_w,
            self.frame_h,
            config.mask_dilate,
        );
        let ghost wide = self.mask_full@;
        pixel_math::feather(
            &self.math,
            self.mask_full.as_mut_slice(),
            &mut self.mask_feather_scratch,
            self.frame_w,
            self.frame_h,
            config.mask_feather_radius,
        );
        proof {
            assert(shaped(
                &self.math,
                *config,
                start.frame_w,
                start.frame_h,
                soft,
                self.mask_full@,
            )) by {
                assert(dilate::dilated(
                    threshold::binarised(soft, config.mask_threshold),
                    wide,
                    start.frame_w as int,
                    start.frame_h as int,
                    config.mask_dilate as nat,
                ));
            }
            assert(pixel_math::smoothed(
                &self.math,
                start.previous,
                self.mask_prev@,
                config.mask_smoothing,
                soft,
            ));
            assert(refined(&self.math, start, self@, raw));
        }
        Ok(())
    }

    /// Lay the frame over its own blur by the mask.
    fn blend(&mut self, frame: &mut VideoFrame) -> (r: Result<(), EffectError>)
        requires
            old(self).wf(),
            setup_complaint(old(self)@) is None,
            old(frame).data@.len() == old(self)@.frame_w * old(self)@.frame_h * 3,
        ensures
            final(self).wf(),
            final(self).pixel_math() == old(self).pixel_math(),
            final(self).source() == old(self).source(),
            final(self)@ == old(self)@,
            r is Ok,
            blended(old(self).pixel_math(), old(self)@, *old(frame), *final(frame)),
    {
        let config: &BlurConfig = match &self.config {
            Some(c) => c,
            None => {
                return Err(process_err("process called before configure".to_owned()));
            },
        };
        box_blur::box_blur_rgb(
            frame.data.as_slice(),
            self.blurred.as_mut_slice(),
            self.blur_scratch.as_mut_slice(),
            self.frame_w,
            self.frame_h,
            config.blur_radius,
            config.blur_passes,
        );
        assert(self.frame_w * self.frame_h * 3 == 3 * (self.frame_w * self.frame_h));
        pixel_math::alpha_composite_rgb_in_place(
            &self.math,
            frame.data.as_mut_slice(),
            self.blurred.as_slice(),
            self.mask_full.as_slice(),
        );
        Ok(())
    }
}

impl<M: PixelMath, L: ModelLoader> VideoEffect for BackgroundBlurEffect<M, L> {
    open spec fn rules(&self) -> VideoRules {
        blur_rules(self.pixel_math(), self.source())
    }

    open spec fn state(&self) -> VideoState {
        VideoState::Blur(self@)
    }

    open spec fn wf(&self) -> bool {
        self.sound()
    }

    fn name(&self) -> (r: &'static str) {
        Self::NAME
    }

    fn configure(&mut self, params: RawEffectParams) -> (r: Result<(), EffectError>)
        ensures
            final(self).pixel_math() == old(self).pixel_math(),
            final(self).source() == old(self).source(),
            configured(old(self)@, final(self)@, params, r),
    {
        let ghost start = self@;
        let parsed = BlurConfig::from_params(params);
        let c = match parsed {
            Ok(c) => c,
            Err(reason) => {
                let r: Result<(), EffectError> = Err(
                    mask_effects::invalid_config(BACKGROUND_BLUR, reason),
                );
                assert(configured(start, self@, params, r));
                return r;
            },
        };
        let valid = c.validate();
        if valid.is_err() {
            assert(c.spelled(params.fields(config::field_names())->Ok_0));
            assert(configured(start, self@, params, valid));
            return valid;
        }
        let ghost parsed_config = c;
        self.config = Some(c);
        let r: Result<(), EffectError> = Ok(());
        proof {
            assert(parsed_config.spelled(params.fields(config::field_names())->Ok_0));
            assert(configured(start, self@, params, r));
        }
        r
    }

    fn prepare(&mut self, context: &ProcessingContext) -> (r: Result<(), EffectError>)
        ensures
            final(self).pixel_math() == old(self).pixel_math(),
            final(self).source() == old(self).source(),
            prepared(old(self).source(), old(self)@, final(self)@, *context, r),
    {
        let ghost start = self@;
        if context.format != PixelFormat::Rgb {
            let reason = segmentation::format_complaint(
                "background_blur requires RGB input, got ",
                context.format,
            );
            let r: Result<(), EffectError> = Err(
                EffectError::prepare_failed(BACKGROUND_BLUR, reason),
            );
            assert(prepared(old(self).source(), old(self)@, self@, *context, r));
            return r;
        }
        let config: &BlurConfig = match &self.config {
            Some(c) => c,
            None => {
                let r: Result<(), EffectError> = Err(
                    EffectError::prepare_failed(
                        BACKGROUND_BLUR,
                        "prepare called before configure".to_owned(),
                    ),
                );
                assert(prepared(old(self).source(), old(self)@, self@, *context, r));
                return r;
            },
        };
        let given = match &config.model_config {
            Some(path) => Some(path.as_str()),
            None => None,
        };
        let loaded = loader::load_model_config(&self.loader, config.model.as_str(), given);
        let ghost found = loaded;
        assert(traits::may_load(
            &self.loader,
            start.config->0.model@,
            start.config->0.sidecar(),
            found,
        ));
        let model_config = match loaded {
            Ok(c) => c,
            Err(e) => {
                let r: Result<(), EffectError> = Err(
                    EffectError::prepare_failed(BACKGROUND_BLUR, e.to_string()),
                );
                assert(loaded_with(&self.loader, start, self@, *context, found, r));
                assert(prepared(old(self).source(), old(self)@, self@, *context, r));
                return r;
            },
        };
        let ghost mc = model_config;
        let model_bytes: usize = match segmentation::plane_bytes(
            model_config.input_width,
            model_config.input_height,
        ) {
            Some(n) => n,
            None => {
                let reason = segmentation::too_large_text(
                    "model input",
                    model_config.input_width,
                    model_config.input_height,
                );
                let r: Result<(), EffectError> = Err(
                    EffectError::prepare_failed(BACKGROUND_BLUR, reason),
                );
                assert(loaded_with(&self.loader, start, self@, *context, found, r));
                assert(prepared(old(self).source(), old(self)@, self@, *context, r));
                return r;
            },
        };
        let built = self.loader.build_engine(config.model.as_str(), model_config.clone(), None);
        let ghost offered = built;
        assert(traits::may_build(
            &self.loader,
            start.config->0.model@,
            mc,
            None,
            offered,
        ));
        let engine = match built {
            Ok(engine) => engine,
            Err(e) => {
                let r: Result<(), EffectError> = Err(
                    EffectError::Inference { name: BACKGROUND_BLUR.to_owned(), source: e },
                );
                assert(built_with(start, self@, mc, *context, offered, r));
                assert(loaded_with(&self.loader, start, self@, *context, found, r));
                assert(prepared(old(self).source(), old(self)@, self@, *context, r));
                return r;
            },
        };
        let w: u32 = context.width;
        let h: u32 = context.height;
        let frame_bytes: usize = match segmentation::plane_bytes(w, h) {
            Some(n) => n,
            None => {
                let reason = segmentation::too_large_text("frame", w, h);
                let r: Result<(), EffectError> = Err(
                    EffectError::prepare_failed(BACKGROUND_BLUR, reason),
                );
                assert(built_with(start, self@, mc, *context, offered, r));
                assert(loaded_with(&self.loader, start, self@, *context, found, r));
                assert(prepared(old(self).source(), old(self)@, self@, *context, r));
                return r;
            },
        };
        let frame_pixels: usize = frame_bytes / 3;
        let model_pixels: usize = model_bytes / 3;
        self.model_w = model_config.input_width;
        self.model_h = model_config.input_height;
        assert(self.model_w * self.model_h * 3 == self.model_h * self.model_w * 3)
            by (nonlinear_arith);
        self.engine = Some(engine);
        self.model_config = Some(model_config);
        self.frame_w = w;
        self.frame_h = h;
        self.blurred = segmentation::filled(0u8, frame_bytes);
        self.blur_scratch = segmentation::filled(0u8, frame_bytes);
        self.mask_full = segmentation::filled(float_bits::ZERO, frame_pixels);
        self.mask_prev = segmentation::filled(float_bits::ZERO, frame_pixels);
        self.model_input_u8 = segmentation::filled(0u8, model_bytes);
        self.model_input_f32 = segmentation::filled(float_bits::ZERO, model_bytes);
        self.mask_raw = segmentation::filled(float_bits::ZERO, model_pixels);
        self.consecutive_failures = 0;
        let r: Result<(), EffectError> = Ok(());
        proof {
            assert(self.mask_full@ =~= blank((w * h) as nat));
            assert(self.mask_prev@ =~= blank((w * h) as nat));
            assert(built_with(start, self@, mc, *context, offered, r));
            assert(loaded_with(&self.loader, start, self@, *context, found, r));
            assert(prepared(old(self).source(), old(self)@, self@, *context, r));
        }
        r
    }

    fn process(&mut self, frame: &mut VideoFrame, context: &mut FrameContext) -> (r: Result<
        (),
        EffectError,
    >)
        ensures
            final(self).pixel_math() == old(self).pixel_math(),
            final(self).source() == old(self).source(),
            ran(
                old(self).pixel_math(),
                old(self)@,
                final(self)@,
                *old(frame),
                *final(frame),
                *old(context),
                *final(context),
                r,
            ),
    {
        let ghost start = self@;
        let valid = self.validate_frame(frame);
        if valid.is_err() {
            assert(ran(&self.math, start, self@, *frame, *frame, *context, *context, valid));
            return valid;
        }
        let outcome = self.run_inference(frame);
        let ghost between = self@;
        let ghost found = outcome;
        match outcome {
            InferenceOutcome::Fallback => {
                context.fallback_active = true;
                let r: Result<(), EffectError> = Ok(());
                assert(ran(
                    &self.math,
                    start,
                    self@,
                    *frame,
                    *frame,
                    *old(context),
                    *context,
                    r,
                ));
                r
            },
            InferenceOutcome::Fatal(e) => {
                let r: Result<(), EffectError> = Err(e);
                assert(ran(&self.math, start, self@, *frame, *frame, *context, *context, r));
                r
            },
            InferenceOutcome::Inferred(output) => {
                let built = self.build_mask(&output);
                if built.is_err() {
                    assert(finished(
                        &self.math,
                        between,
                        self@,
                        found,
                        *frame,
                        *frame,
                        *context,
                        *context,
                        built,
                    ));
                    assert(
                        ran(&self.math, start, self@, *frame, *frame, *context, *context, built)
                    );
                    return built;
                }
                let r = self.blend(frame);
                assert(finished(
                    &self.math,
                    between,
                    self@,
                    found,
                    *old(frame),
                    *frame,
                    *context,
                    *context,
                    r,
                ));
                assert(ran(
                    &self.math,
                    start,
                    self@,
                    *old(frame),
                    *frame,
                    *context,
                    *context,
                    r,
                ));
                r
            },
        }
    }

    fn shutdown(&mut self) -> (r: Result<(), EffectError>)
        ensures
            *final(self) == *old(self),
    {
        Ok(())
    }
}

} // verus!
