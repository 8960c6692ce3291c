//! What the background blur does to a frame, stated over the frame's own fields, the
//! parameters and the arithmetic on single values.

use vstd::prelude::*;
use crate::background_blur::config::{self, BlurConfig};
use crate::background_blur::effect::{self, BackgroundBlurEffect, BlurState, InferenceOutcome};
use crate::composite::laws;
use crate::context::{FrameContext, ProcessingContext};
use crate::error::{EffectError, InferenceError};
use crate::float_bits;
use crate::frame::{PixelFormat, VideoFrame};
use crate::mask_effects::{dilate, threshold};
use crate::ml::model_config::ModelConfig;
use crate::ml::tensor;
use crate::params::RawEffectParams;
use crate::pixel_math::{self, PixelMath, Resize};
use crate::processing::blur;
use crate::traits::{self, EngineCall, InferenceOutput, ModelLoader, VideoEffect};

verus! {

/// What a decoded mask goes through before a frame is blended by it.
pub ghost struct MaskStages {
    /// The decoded mask, at the size of the model's input.
    pub raw: Seq<u32>,
    /// The mask at the frame's size, smoothed with that of the frame before.
    pub soft: Seq<u32>,
    /// The smoothed mask, decided.
    pub flat: Seq<u32>,
    /// The decided mask, dilated.
    pub wide: Seq<u32>,
}

/// Whether every value of `out` is a blur of the mask `src` of `w` by `h` values with a
/// box of the radius.
pub open spec fn values_feathered<M: PixelMath>(
    math: &M,
    src: &[u32],
    w: u32,
    h: u32,
    radius: u32,
    out: Seq<u32>,
) -> bool {
    forall|i: usize|
        i < out.len() ==> call_ensures(
            M::feather,
            (math, src, w, h, radius, i),
            #[trigger] out[i as int],
        )
}

/// Whether `out` is the mask `wide` of `w` by `h` values with soft edges: every value
/// is a blur of it with the radius, and only a radius of zero leaves it as it is.
pub open spec fn edges_softened<M: PixelMath>(
    math: &M,
    wide: Seq<u32>,
    w: u32,
    h: u32,
    radius: u32,
    out: Seq<u32>,
) -> bool {
    &&& out.len() == wide.len()
    &&& radius == 0 ==> out == wide
    &&& radius > 0 ==> exists|s: &[u32]|
        s@ == wide && #[trigger] values_feathered(math, s, w, h, radius, out)
}

/// Whether the mask goes through the stages `g` for an engine's output: decoded,
/// brought to the frame's width and height, smoothed with the mask of the frame
/// before by the smoothing factor, decided at the threshold, dilated, feathered.
pub open spec fn mask_in_stages<M: PixelMath>(
    math: &M,
    before: BlurState,
    after: BlurState,
    frame: VideoFrame,
    output: InferenceOutput,
    g: MaskStages,
) -> bool {
    let c = before.config->0;
    &&& g.raw.len() == before.model_w * before.model_h
    &&& forall|i: int|
        0 <= i < g.raw.len() ==> tensor::confidence_at(
            math,
            before.model_config->0,
            output.data@,
            g.raw.len(),
            i,
            #[trigger] g.raw[i],
        )
    &&& laws::mask_sampled(
        math,
        g.raw,
        before.model_w,
        before.model_h,
        frame.width,
        frame.height,
        after.previous,
    )
    &&& g.soft.len() == before.previous.len()
    &&& forall|i: int|
        0 <= i < g.soft.len() ==> call_ensures(
            M::smooth,
            (math, before.previous[i], after.previous[i], c.mask_smoothing),
            #[trigger] g.soft[i],
        )
    &&& g.flat.len() == g.soft.len()
    &&& forall|i: int|
        0 <= i < g.flat.len() ==> #[trigger] g.flat[i] == (if float_bits::value_at_least(
            g.soft[i],
            c.mask_threshold,
        ) {
            0x3F80_0000u32
        } else {
            0u32
        })
    &&& dilate::spread(
        g.flat,
        g.wide,
        frame.width as int,
        frame.height as int,
        c.mask_dilate as int,
    )
    &&& edges_softened(
        math,
        g.wide,
        frame.width,
        frame.height,
        c.mask_feather_radius,
        after.mask,
    )
}

/// Whether `bg` is the blur of a plane of `w` by `h` pixels: as many passes as asked for,
/// one after the other, each with the radius.
pub open spec fn passes_run(src: Seq<u8>, bg: Seq<u8>, w: int, h: int, radius: int, n: nat) -> bool {
    if radius == 0 || n == 0 {
        bg == src
    } else {
        bg.len() == src.len() && exists|planes: Seq<Seq<u8>>| #[trigger]
            blur::pass_by_pass(planes, src, bg, w, h, radius, n)
    }
}

/// Whether `after` is the frame over its own blur, pixel by pixel, by the confidences
/// `mask`.
pub open spec fn over_own_blur<M: PixelMath>(
    math: &M,
    config: BlurConfig,
    frame: VideoFrame,
    mask: Seq<u32>,
    after: VideoFrame,
) -> bool {
    &&& exists|bg: Seq<u8>|
        passes_run(
            frame.data@,
            bg,
            frame.width as int,
            frame.height as int,
            config.blur_radius as int,
            config.blur_passes as nat,
        ) && #[trigger] laws::laid_over(math, frame.data@, bg, mask, after.data@)
    &&& after.width == frame.width
    &&& after.height == frame.height
    &&& after.format == frame.format
    &&& after.stride == frame.stride
    &&& after.meta == frame.meta
}

/// Whether the effect asks its engine about the frame and is left as `between`, with
/// the failures counted.
pub open spec fn engine_asked<M: PixelMath>(
    math: &M,
    before: BlurState,
    after: BlurState,
    frame: VideoFrame,
    call: EngineCall,
) -> bool {
    &&& laws::asks_about(
        math,
        before.model_config->0,
        before.model_w,
        before.model_h,
        frame,
        call,
    )
    &&& after.engine is Some
    &&& (before.engine->0.engine.rules().infer)(
        before.engine->0.engine.state(),
        call,
        after.engine->0.engine.state(),
    )
    &&& after.engine->0.engine.rules() == before.engine->0.engine.rules()
    &&& call.r is Ok ==> after.failures == 0
    &&& call.r is Err && before.failures < u32::MAX ==> after.failures == before.failures + 1
}

/// A frame that is processed is shown to the engine.  Where the engine answers, the
/// mask goes through its stages and the frame is laid over its own blur by it; where it
/// fails, fewer times in a row than the threshold, the frame is passed through
/// untouched and marked.
pub proof fn law_frame_over_its_blur<M: PixelMath>(
    math: &M,
    before: BlurState,
    after: BlurState,
    frame: VideoFrame,
    frame_after: VideoFrame,
    context: FrameContext,
    context_after: FrameContext,
)
    requires
        effect::ran(math, before, after, frame, frame_after, context, context_after, Ok(())),
        frame.width > 0,
        frame.height > 0,
    ensures
        frame.format == PixelFormat::Rgb,
        frame.width == before.frame_w,
        frame.height == before.frame_h,
        before.config is Some,
        exists|call: EngineCall|
            {
                &&& #[trigger] engine_asked(math, before, after, frame, call)
                &&& match call.r {
                    Ok(output) => {
                        &&& tensor::decodable(
                            before.model_config->0,
                            output.data@.len(),
                            (before.model_w * before.model_h) as nat,
                        )
                        &&& exists|g: MaskStages| #[trigger]
                            mask_in_stages(math, before, after, frame, output, g)
                        &&& over_own_blur(math, before.config->0, frame, after.mask, frame_after)
                        &&& context_after == context
                    },
                    Err(_) => {
                        &&& after.failures < before.config->0.fallback_threshold
                        &&& frame_after == frame
                        &&& context_after.fallback_active
                        &&& after.mask == before.mask
                    },
                }
            },
{
    let r = Ok::<(), EffectError>(());
    let (between, outcome) = choose|between: BlurState, outcome: InferenceOutcome| #[trigger]
        effect::inferred(math, before, between, frame, outcome) && effect::finished(
            math,
            between,
            after,
            outcome,
            frame,
            frame_after,
            context,
            context_after,
            r,
        );
    let reply = choose|reply: Result<InferenceOutput, InferenceError>| #[trigger]
        effect::may_reply(math, before, frame, between.engine, reply) && effect::counted(
            before,
            between,
            reply,
        ) && match reply {
            Ok(output) => outcome == InferenceOutcome::Inferred(output),
            Err(source) => effect::judged(
                between.failures,
                before.config->0.fallback_threshold,
                source,
                outcome,
            ),
        };
    let config = before.model_config->0;
    let shape = tensor::input_shape_spec(
        config.input_layout,
        before.model_h as usize,
        before.model_w as usize,
    );
    let input = choose|input: Seq<u32>| #[trigger]
        effect::asked(math, before, frame, input) && before.engine->0.answers(
            input,
            shape,
            between.engine->0,
            reply,
        );
    let call = EngineCall { data: input, shape, r: reply };
    let size = Resize {
        src_w: frame.width,
        src_h: frame.height,
        dst_w: before.model_w,
        dst_h: before.model_h,
    };
    let bytes = choose|bytes: Seq<u8>| #[trigger]
        pixel_math::resized_rgb(math, frame.data@, size, bytes) && tensor::packed(
            bytes,
            input,
            config.input_layout,
            before.model_h * before.model_w,
            config.input_scale,
            config.input_zero_point,
            math,
        );
    laws::law_question_shows_the_frame(
        math,
        config,
        before.model_w,
        before.model_h,
        frame,
        bytes,
        call,
    );
    assert(engine_asked(math, before, after, frame, call));
    if let Ok(output) = reply {
        lemma_mask_stages(math, before, between, after, frame, output);
        lemma_over_own_blur(math, after, frame, frame_after);
        assert(after.config == before.config);
    }
}

proof fn lemma_mask_stages<M: PixelMath>(
    math: &M,
    before: BlurState,
    between: BlurState,
    after: BlurState,
    frame: VideoFrame,
    output: InferenceOutput,
)
    requires
        effect::masked(math, between, after, output, Ok(())),
        between == (BlurState { engine: between.engine, failures: 0, ..before }),
        frame.width == before.frame_w,
        frame.height == before.frame_h,
    ensures
        tensor::decodable(
            before.model_config->0,
            output.data@.len(),
            (before.model_w * before.model_h) as nat,
        ),
        exists|g: MaskStages| #[trigger] mask_in_stages(math, before, after, frame, output, g),
{
    let c = before.config->0;
    let config = before.model_config->0;
    let pixels = (before.model_w * before.model_h) as nat;
    tensor::law_decodable(config, output.data@.len(), pixels, output.shape@);
    let raw = choose|raw: Seq<u32>|
        raw.len() == before.model_w * before.model_h && #[trigger] effect::decoded(
            math,
            config,
            output,
            raw,
        ) && effect::refined(math, between, after, raw);
    assert forall|i: int| 0 <= i < raw.len() implies tensor::confidence_at(
        math,
        config,
        output.data@,
        raw.len(),
        i,
        #[trigger] raw[i],
    ) by {
        tensor::law_confidence(math, config, output.data@, raw.len(), i, raw[i]);
    }
    let size = Resize {
        src_w: before.model_w,
        src_h: before.model_h,
        dst_w: frame.width,
        dst_h: frame.height,
    };
    laws::law_mask_resized(math, raw, size, after.previous);
    let soft = choose|soft: Seq<u32>| #[trigger]
        pixel_math::smoothed(math, before.previous, after.previous, c.mask_smoothing, soft)
            && effect::shaped(math, c, frame.width, frame.height, soft, after.mask);
    let flat = threshold::binarised(soft, c.mask_threshold);
    assert forall|i: int| 0 <= i < flat.len() implies #[trigger] flat[i] == (
    if float_bits::value_at_least(soft[i], c.mask_threshold) {
        0x3F80_0000u32
    } else {
        0u32
    }) by {
        float_bits::law_order(soft[i], c.mask_threshold, 0);
    }
    let wide = choose|wide: Seq<u32>| #[trigger]
        dilate::dilated(
            flat,
            wide,
            frame.width as int,
            frame.height as int,
            c.mask_dilate as nat,
        ) && pixel_math::feathered(
            math,
            wide,
            frame.width,
            frame.height,
            c.mask_feather_radius,
            after.mask,
        );
    dilate::law_dilation_spreads(
        flat,
        wide,
        frame.width as int,
        frame.height as int,
        c.mask_dilate as nat,
    );
    law_feathered(math, wide, frame.width, frame.height, c.mask_feather_radius, after.mask);
    let g = MaskStages { raw, soft, flat, wide };
    assert(mask_in_stages(math, before, after, frame, output, g));
}

/// A mask that was feathered has soft edges.
pub proof fn law_feathered<M: PixelMath>(
    math: &M,
    src: Seq<u32>,
    w: u32,
    h: u32,
    radius: u32,
    out: Seq<u32>,
)
    requires
        pixel_math::feathered(math, src, w, h, radius, out),
    ensures
        edges_softened(math, src, w, h, radius, out),
{
    if radius > 0 {
        let s = choose|s: &[u32]|
            s@ == src && #[trigger] pixel_math::softened(math, s, w, h, radius, out);
        assert(values_feathered(math, s, w, h, radius, out));
    }
}

proof fn lemma_over_own_blur<M: PixelMath>(
    math: &M,
    state: BlurState,
    frame: VideoFrame,
    after: VideoFrame,
)
    requires
        effect::blended(math, state, frame, after),
        frame.width == state.frame_w,
        frame.height == state.frame_h,
        frame.width > 0,
        frame.height > 0,
        frame.data@.len() == frame.width * frame.height * 3,
    ensures
        over_own_blur(math, state.config->0, frame, state.mask, after),
{
    let c = state.config->0;
    let w = frame.width as int;
    let h = frame.height as int;
    let radius = c.blur_radius as int;
    let n = c.blur_passes as nat;
    let bg = blur::blurred(frame.data@, 3 * w, h, radius, n);
    if radius == 0 || n == 0 {
        blur::law_nothing_to_blur(frame.data@, 3 * w, h, radius, n);
    } else {
        assert(w * h * 3 == 3 * w * h) by (nonlinear_arith);
        blur::law_pass_by_pass(frame.data@, w, h, radius, n);
    }
    laws::law_composed(math, frame.data@, bg, state.mask, after.data@);
    assert(passes_run(frame.data@, bg, w, h, radius, n));
}

/// Processing a frame through the method does what the law above says; a frame of
/// another format or size is refused and left alone, and so is the effect.
pub proof fn law_background_blur_process<M: PixelMath, L: ModelLoader>(
    effect: &mut BackgroundBlurEffect<M, L>,
    frame: &mut VideoFrame,
    context: &mut FrameContext,
    r: Result<(), EffectError>,
)
    requires
        call_ensures(
            <BackgroundBlurEffect<M, L> as VideoEffect>::process,
            (effect, frame, context),
            r,
        ),
    ensures
        effect::ran(
            old(effect).pixel_math(),
            old(effect)@,
            final(effect)@,
            *old(frame),
            *final(frame),
            *old(context),
            *final(context),
            r,
        ),
        old(frame).format != PixelFormat::Rgb || old(frame).width != old(effect)@.frame_w
            || old(frame).height != old(effect)@.frame_h ==> r is Err && *final(frame) == *old(frame)
            && final(effect)@ == old(effect)@,
{
}

/// An effect that was prepared expects frames of the stream's size, asks at the size of
/// the model's input, starts without failures, and has blank masks of the frame's size;
/// the parameters stay.
pub proof fn law_background_blur_prepare<M: PixelMath, L: ModelLoader>(
    effect: &mut BackgroundBlurEffect<M, L>,
    context: &ProcessingContext,
    r: Result<(), EffectError>,
)
    requires
        call_ensures(<BackgroundBlurEffect<M, L> as VideoEffect>::prepare, (effect, context), r),
    ensures
        r is Err ==> final(effect)@ == old(effect)@,
        context.format != PixelFormat::Rgb || old(effect)@.config is None ==> r is Err,
        r is Ok ==> {
            let after = final(effect)@;
            &&& after.config == old(effect)@.config
            &&& after.model_config is Some
            &&& after.engine is Some
            &&& after.frame_w == context.width
            &&& after.frame_h == context.height
            &&& after.model_w == after.model_config->0.input_width
            &&& after.model_h == after.model_config->0.input_height
            &&& after.previous.len() == context.width * context.height
            &&& forall|i: int| 0 <= i < after.previous.len() ==> #[trigger] after.previous[i] == 0u32
            &&& after.failures == 0
        },
{
    assert(0 <= context.width * context.height) by (nonlinear_arith)
        requires
            context.width >= 0,
            context.height >= 0,
    ;
}

/// Configuring takes what the table spells where that is valid, and replaces the whole
/// configuration; a refusal leaves the effect as it is, and neither touches the engine or
/// the masks.
pub proof fn law_background_blur_configure<M: PixelMath, L: ModelLoader>(
    e: &mut BackgroundBlurEffect<M, L>,
    params: RawEffectParams,
    r: Result<(), EffectError>,
)
    requires
        call_ensures(<BackgroundBlurEffect<M, L> as VideoEffect>::configure, (e, params), r),
    ensures
        final(e).pixel_math() == old(e).pixel_math(),
        r is Err ==> final(e)@ == old(e)@,
        r is Ok ==> exists|c: BlurConfig| #[trigger]
            c.spelled(params.fields(config::field_names())->Ok_0) && c.defect() is None
                && final(e)@ == (BlurState { config: Some(c), ..old(e)@ }),
{
}

/// A prepared effect has the configuration and the engine that the loader has for the
/// model that it is configured with.
pub proof fn law_background_blur_engine<M: PixelMath, L: ModelLoader>(
    e: &mut BackgroundBlurEffect<M, L>,
    context: &ProcessingContext,
    r: Result<(), EffectError>,
)
    requires
        call_ensures(<BackgroundBlurEffect<M, L> as VideoEffect>::prepare, (e, context), r),
        r is Ok,
    ensures
        old(e)@.config is Some,
        final(e)@.model_config is Some,
        final(e)@.engine is Some,
        laws::config_from(
            old(e).source(),
            old(e)@.config->0.model@,
            match old(e)@.config->0.model_config {
                Some(path) => Some(path@),
                None => None,
            },
            final(e)@.model_config->0,
        ),
        laws::engine_from(
            old(e).source(),
            old(e)@.config->0.model@,
            final(e)@.model_config->0,
            None,
            final(e)@.engine->0,
        ),
        final(e)@.mask.len() == context.width * context.height,
        forall|i: int| 0 <= i < final(e)@.mask.len() ==> #[trigger] final(e)@.mask[i] == 0u32,
{
    let before = old(e)@;
    let after = final(e)@;
    let source = old(e).source();
    let given = before.config->0.sidecar();
    let loaded = choose|loaded: Result<ModelConfig, InferenceError>| #[trigger]
        traits::may_load(source, before.config->0.model@, given, loaded) && effect::loaded_with(
            source,
            before,
            after,
            *context,
            loaded,
            r,
        );
    laws::lemma_config_from(source, before.config->0.model@, given, loaded->Ok_0);
    assert(0 <= context.width * context.height) by (nonlinear_arith)
        requires
            context.width >= 0,
            context.height >= 0,
    ;
}

/// Every frame that fits an effect that can run is shown to the engine.  The failures in
/// a row decide what becomes of a failure: below the threshold the frame passes through,
/// from the threshold on the failure is the outcome.  The first failure of an outage
/// blanks the mask to smooth with, and a later one leaves it.
pub proof fn law_outage<M: PixelMath>(
    math: &M,
    before: BlurState,
    after: BlurState,
    frame: VideoFrame,
    frame_after: VideoFrame,
    context: FrameContext,
    context_after: FrameContext,
    r: Result<(), EffectError>,
)
    requires
        effect::ran(math, before, after, frame, frame_after, context, context_after, r),
        before.config is Some,
        before.model_config is Some,
        before.engine is Some,
        frame.format == PixelFormat::Rgb,
        frame.width == before.frame_w,
        frame.height == before.frame_h,
        frame.data@.len() == frame.width * frame.height * 3,
        before.failures < u32::MAX,
    ensures
        exists|call: EngineCall|
            {
                &&& #[trigger] engine_asked(math, before, after, frame, call)
                &&& call.r is Err ==> {
                    &&& frame_after == frame
                    &&& after.mask == before.mask
                    &&& r is Ok <==> before.failures + 1 < before.config->0.fallback_threshold
                    &&& r is Ok ==> context_after == (FrameContext {
                        fallback_active: true,
                        ..context
                    })
                    &&& r is Err ==> context_after == context && (r->Err_0 matches
                        EffectError::Inference { source, .. } && source == call.r->Err_0)
                    &&& before.failures > 0 ==> after.previous == before.previous
                    &&& before.failures == 0 ==> after.previous.len() == before.previous.len()
                        && forall|i: int|
                        0 <= i < after.previous.len() ==> #[trigger] after.previous[i] == 0u32
                }
                &&& call.r matches Ok(output) ==> {
                    &&& context_after == context
                    &&& r is Ok <==> tensor::decodable(
                        before.model_config->0,
                        output.data@.len(),
                        (before.model_w * before.model_h) as nat,
                    )
                    &&& r is Err ==> frame_after == frame && after.mask == before.mask
                        && after.previous == before.previous
                }
            },
{
    let (between, outcome) = choose|between: BlurState, outcome: InferenceOutcome| #[trigger]
        effect::inferred(math, before, between, frame, outcome) && effect::finished(
            math,
            between,
            after,
            outcome,
            frame,
            frame_after,
            context,
            context_after,
            r,
        );
    let reply = choose|reply: Result<InferenceOutput, InferenceError>| #[trigger]
        effect::may_reply(math, before, frame, between.engine, reply) && effect::counted(
            before,
            between,
            reply,
        ) && match reply {
            Ok(output) => outcome == InferenceOutcome::Inferred(output),
            Err(source) => effect::judged(
                between.failures,
                before.config->0.fallback_threshold,
                source,
                outcome,
            ),
        };
    let config = before.model_config->0;
    let shape = tensor::input_shape_spec(
        config.input_layout,
        before.model_h as usize,
        before.model_w as usize,
    );
    let input = choose|input: Seq<u32>| #[trigger]
        effect::asked(math, before, frame, input) && before.engine->0.answers(
            input,
            shape,
            between.engine->0,
            reply,
        );
    let call = EngineCall { data: input, shape, r: reply };
    let size = Resize {
        src_w: frame.width,
        src_h: frame.height,
        dst_w: before.model_w,
        dst_h: before.model_h,
    };
    let bytes = choose|bytes: Seq<u8>| #[trigger]
        pixel_math::resized_rgb(math, frame.data@, size, bytes) && tensor::packed(
            bytes,
            input,
            config.input_layout,
            before.model_h * before.model_w,
            config.input_scale,
            config.input_zero_point,
            math,
        );
    laws::law_question_shows_the_frame(
        math,
        config,
        before.model_w,
        before.model_h,
        frame,
        bytes,
        call,
    );
    assert(engine_asked(math, before, after, frame, call));
    if let Ok(output) = reply {
        tensor::law_decodable(
            config,
            output.data@.len(),
            (before.model_w * before.model_h) as nat,
            output.shape@,
        );
    }
}

} // verus!
