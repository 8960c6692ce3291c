//! First stage of the composite pipeline: a frame becomes a confidence mask.
//!
//! The stage owns the inference engine and the buffers at model resolution,
//! decodes the engine's output, and counts consecutive failures so that a few
//! transient errors pass frames through instead of ending the pipeline.

use vstd::prelude::*;
use std::time::{Duration, Instant};
use crate::context::{FrameContext, ProcessingContext};
use crate::error::{EffectError, InferenceError};
use crate::float_bits;
use crate::frame::{self, PixelFormat, VideoFrame};
use crate::metrics;
use crate::ml::loader;
use crate::ml::model_config::ModelConfig;
use crate::ml::tensor;
use crate::params::{self, ParamModel, RawEffectParams};
use crate::paths;
use crate::pixel_math::{self, PixelMath, Resize};
use crate::text;
use crate::traits::{self, InferenceInput, InferenceOutput, LoadedEngine, ModelLoader};

verus! {

/// Name under which the stage reports errors.
pub const SEGMENTATION: &'static str = "segmentation";

/// Default of [`SegmentationConfig::fallback_threshold`].
pub const DEFAULT_FALLBACK_THRESHOLD: u32 = 3;

/// The clock's reading.
#[verifier::external_type_specification]
#[verifier::external_body]
pub struct ExInstant(std::time::Instant);

/// [`std::time::Instant::now`]: the current reading of the clock.
#[verifier::external_body]
pub(crate) fn now() -> (r: Instant) {
    Instant::now()
}

/// [`std::time::Instant::elapsed`]: the time since `start`.
#[verifier::external_body]
pub(crate) fn elapsed(start: Instant) -> (r: Duration) {
    start.elapsed()
}

/// Configuration of the segmentation stage.
#[derive(Debug)]
pub struct SegmentationConfig {
    /// Path of the model.
    pub model: String,
    /// Path of the model configuration; next to the model when absent.
    pub model_config: Option<String>,
    /// Consecutive failures that end the pipeline.
    pub fallback_threshold: u32,
}

/// Why a model path and a threshold are refused, if they are, where the path
/// has the extension `extension`.
pub open spec fn config_defect(
    model: Seq<char>,
    extension: Option<Seq<char>>,
    fallback_threshold: u32,
) -> Option<Seq<char>> {
    if model.len() == 0 {
        Some("`model` is required"@)
    } else {
        match extension {
            None => Some("`model` must point to an .onnx file (no extension found)"@),
            Some(ext) => if text::lower(ext) != "onnx"@ {
                Some("`model` must point to an .onnx file, got extension `"@ + ext + "`"@)
            } else if fallback_threshold == 0 {
                Some(
                    "fallback_threshold must be >= 1; 0 means 'never tolerate' which is unintended"@,
                )
            } else {
                None
            },
        }
    }
}

/// The names of the fields of a configuration, in order.
pub open spec fn field_names() -> Seq<Seq<char>> {
    seq!["model"@, "model_config"@, "fallback_threshold"@]
}

/// What is wrong with the table `m` as a configuration, if anything is.
pub open spec fn table_complaint(m: Map<Seq<char>, ParamModel>) -> Option<Seq<char>> {
    let model = params::text_of(params::entry(m, "model"@), "model"@);
    let sidecar = params::text_of(params::entry(m, "model_config"@), "model_config"@);
    let threshold = params::integer_of(
        params::entry(m, "fallback_threshold"@),
        "fallback_threshold"@,
        DEFAULT_FALLBACK_THRESHOLD,
    );
    if model is Err {
        params::wrong(model)
    } else if sidecar is Err {
        params::wrong(sidecar)
    } else if threshold is Err {
        params::wrong(threshold)
    } else if m.remove("model"@).remove("model_config"@).remove("fallback_threshold"@)
        != params::no_entries() {
        Some("unknown field"@)
    } else if model == Ok::<Option<Seq<char>>, Seq<char>>(None) {
        Some("missing field `model`"@)
    } else {
        None
    }
}

/// What is wrong with `params` as a configuration, if anything is.
pub open spec fn parse_complaint(params: RawEffectParams) -> Option<Seq<char>> {
    match params.fields(field_names()) {
        Err(reason) => Some(reason),
        Ok(m) => table_complaint(m),
    }
}

/// Whether `r` refuses the configuration of effect `name` for `reason`, without
/// a hint.
pub open spec fn refused(r: Result<(), EffectError>, name: Seq<char>, reason: Seq<char>) -> bool {
    r matches Err(e) && (e matches EffectError::InvalidConfig { name: n, reason: t, hint } && n@
        == name && t@ == reason && hint is None)
}

impl SegmentationConfig {
    /// Path of the model's configuration, where one is given.
    pub open spec fn sidecar(&self) -> Option<Seq<char>> {
        match self.model_config {
            Some(path) => Some(path@),
            None => None,
        }
    }

    /// Why the configuration is refused, if it is.
    pub open spec fn defect(&self) -> Option<Seq<char>> {
        config_defect(
            self.model@,
            paths::path_extension(self.model@),
            self.fallback_threshold,
        )
    }

    /// Whether the configuration is what the table `m` spells.
    pub open spec fn spelled(&self, m: Map<Seq<char>, ParamModel>) -> bool {
        &&& params::text_of(params::entry(m, "model"@), "model"@) == Ok::<
            Option<Seq<char>>,
            Seq<char>,
        >(Some(self.model@))
        &&& params::text_of(params::entry(m, "model_config"@), "model_config"@) == Ok::<
            Option<Seq<char>>,
            Seq<char>,
        >(self.sidecar())
        &&& params::integer_of(
            params::entry(m, "fallback_threshold"@),
            "fallback_threshold"@,
            DEFAULT_FALLBACK_THRESHOLD,
        ) == Ok::<u32, Seq<char>>(self.fallback_threshold)
    }

    /// Read a table of fields: the model is required, the others have defaults.
    pub fn from_params(params: RawEffectParams) -> (r: Result<Self, String>)
        ensures
            match r {
                Ok(c) => parse_complaint(params) is None && c.spelled(
                    params.fields(field_names())->Ok_0,
                ),
                Err(e) => parse_complaint(params) == Some(e@),
            },
    {
        let names = ["model", "model_config", "fallback_threshold"];
        assert(params::views(names@) =~= field_names());
        let mut table = match params.into_fields(&names) {
            Ok(t) => t,
            Err(reason) => {
                return Err(reason);
            },
        };
        proof {
            reveal_strlit("model");
            reveal_strlit("model_config");
            reveal_strlit("fallback_threshold");
            assert("model"@.len() == 5);
            assert("model_config"@.len() == 12);
            assert("fallback_threshold"@.len() == 18);
        }
        let model = match params::take_text(&mut table, "model") {
            Ok(v) => v,
            Err(e) => {
                return Err(e);
            },
        };
        let model_config = match params::take_text(&mut table, "model_config") {
            Ok(v) => v,
            Err(e) => {
                return Err(e);
            },
        };
        let fallback_threshold: u32 = match params::take_integer(
            &mut table,
            "fallback_threshold",
            DEFAULT_FALLBACK_THRESHOLD,
        ) {
            Ok(v) => v,
            Err(e) => {
                return Err(e);
            },
        };
        if !params::table_is_empty(&table) {
            return Err("unknown field".to_owned());
        }
        match model {
            Some(model) => Ok(SegmentationConfig { model, model_config, fallback_threshold }),
            None => Err("missing field `model`".to_owned()),
        }
    }

    /// Check that the model is an `.onnx` file and the threshold is positive.
    pub fn validate(&self) -> (r: Result<(), EffectError>)
        ensures
            match self.defect() {
                Some(reason) => refused(r, SEGMENTATION@, reason),
                None => r is Ok,
            },
            paths::extended(self.model@) && text::lower(paths::after_dot(self.model@)) == "onnx"@
                && self.fallback_threshold > 0 ==> r is Ok,
    {
        let extension = paths::extension_of(self.model.as_str());
        proof {
            if paths::extended(self.model@) {
                assert(self.model@.len() > 0);
            }
        }
        self.validate_extension(&extension)
    }

    /// Check a model path with the given extension, and the threshold.
    pub fn validate_extension(&self, extension: &Option<String>) -> (r: Result<(), EffectError>)
        ensures
            match config_defect(
                self.model@,
                paths::string_chars(*extension),
                self.fallback_threshold,
            ) {
                Some(reason) => refused(r, SEGMENTATION@, reason),
                None => r is Ok,
            },
    {
        let reason: String = if !paths::has_text(self.model.as_str()) {
            "`model` is required".to_owned()
        } else {
            match extension {
                None => "`model` must point to an .onnx file (no extension found)".to_owned(),
                Some(ext) => {
                    let lower = text::to_lower(ext.as_str());
                    if !text::same(lower.as_str(), "onnx") {
                        let mut out =
                            "`model` must point to an .onnx file, got extension `".to_owned();
                        out.append(ext.as_str());
                        out.append("`");
                        out
                    } else if self.fallback_threshold == 0 {
                        "fallback_threshold must be >= 1; 0 means 'never tolerate' which is unintended".to_owned()
                    } else {
                        return Ok(());
                    }
                },
            }
        };
        Err(EffectError::invalid_config(SEGMENTATION, reason, None))
    }
}

/// Outcome of segmenting a frame.
#[derive(Debug)]
pub enum SegmentationOutcome {
    /// The mask is in place.
    Segmented {
        /// Mask width in pixels, that of the model input.
        width: u32,
        /// Mask height in pixels, that of the model input.
        height: u32,
    },
    /// A transient failure: pass the frame through.
    Fallback,
    /// A failure to propagate.
    Fatal(EffectError),
}

/// Segmentation stage: resize, normalise, infer, decode.
pub struct SegmentationBase<M: PixelMath, L: ModelLoader> {
    config: SegmentationConfig,
    model_config: Option<ModelConfig>,
    engine: Option<LoadedEngine>,
    math: M,
    loader: L,
    model_input_u8: Vec<u8>,
    model_input_f32: Vec<u32>,
    mask_raw: Vec<u32>,
    frame_w: u32,
    frame_h: u32,
    model_w: u32,
    model_h: u32,
    consecutive_failures: u32,
}

/// What a segmentation stage stands for.
pub ghost struct SegmentationState {
    /// Path of the model.
    pub model: Seq<char>,
    /// Path of the model's configuration, where one is given.
    pub sidecar: Option<Seq<char>>,
    /// Why the configuration is refused, if it is.
    pub defect: Option<Seq<char>>,
    /// Consecutive failures that end the pipeline.
    pub threshold: u32,
    /// Configuration of the model, once prepared.
    pub model_config: Option<ModelConfig>,
    /// The engine, if one is loaded.
    pub engine: Option<LoadedEngine>,
    /// The mask.
    pub mask: Seq<u32>,
    /// Frame width the stage is prepared for.
    pub frame_w: u32,
    /// Frame height the stage is prepared for.
    pub frame_h: u32,
    /// Width of the model input.
    pub model_w: u32,
    /// Height of the model input.
    pub model_h: u32,
    /// Failures since the last success.
    pub failures: u32,
}

impl<M: PixelMath, L: ModelLoader> View for SegmentationBase<M, L> {
    type V = SegmentationState;

    closed spec fn view(&self) -> SegmentationState {
        SegmentationState {
            model: self.config.model@,
            sidecar: self.config.sidecar(),
            defect: self.config.defect(),
            threshold: self.config.fallback_threshold,
            model_config: self.model_config,
            engine: self.engine,
            mask: self.mask_raw@,
            frame_w: self.frame_w,
            frame_h: self.frame_h,
            model_w: self.model_w,
            model_h: self.model_h,
            failures: self.consecutive_failures,
        }
    }
}

/// Whether `r` is the preparation failure of effect `name` for `reason`.
pub open spec fn unprepared(r: Result<(), EffectError>, name: Seq<char>, reason: Seq<char>) -> bool {
    r matches Err(e) && (e matches EffectError::PrepareFailed { name: n, reason: t } && n@ == name
        && t@ == reason)
}

/// Whether `e` is the inference failure `source` inside effect `name`.
pub open spec fn inference_failure(
    e: EffectError,
    name: Seq<char>,
    source: InferenceError,
) -> bool {
    e matches EffectError::Inference { name: n, source: s } && n@ == name && s == source
}

/// Whether `e` is the processing failure of effect `name` for `reason`.
pub open spec fn processing_failure(e: EffectError, name: Seq<char>, reason: Seq<char>) -> bool {
    e matches EffectError::ProcessFailed { name: n, reason: t } && n@ == name && t@ == reason
}

/// Whether the bytes of a plane of the given size can be counted.
pub open spec fn countable(w: u32, h: u32) -> bool {
    w * h * 3 <= usize::MAX
}

/// Bytes of a packed RGB plane, where they can be counted.
pub(crate) fn plane_bytes(w: u32, h: u32) -> (r: Option<usize>)
    ensures
        match r {
            Some(n) => countable(w, h) && n == w * h * 3,
            None => !countable(w, h),
        },
{
    assert(0 <= w * h <= 0xFFFF_FFFF * 0xFFFF_FFFF) by (nonlinear_arith)
        requires
            0 <= w <= 0xFFFF_FFFF,
            0 <= h <= 0xFFFF_FFFF,
    ;
    let bytes: u128 = (w as u64 * h as u64) as u128 * 3;
    if bytes <= usize::MAX as u128 {
        Some(bytes as usize)
    } else {
        None
    }
}

/// `<what> <w>x<h> is too large`.
pub open spec fn too_large(what: Seq<char>, w: u32, h: u32) -> Seq<char> {
    what + " "@ + text::decimal(w as nat) + "x"@ + text::decimal(h as nat) + " is too large"@
}

/// The complaint about a plane that is too large.
pub(crate) fn too_large_text(what: &str, w: u32, h: u32) -> (r: String)
    ensures
        r@ == too_large(what@, w, h),
{
    let mut out = what.to_owned();
    out.append(" ");
    text::push_decimal(&mut out, w as u64);
    out.append("x");
    text::push_decimal(&mut out, h as u64);
    out.append(" is too large");
    out
}

/// `<what>, got <format>`.
pub(crate) fn format_complaint(what: &str, format: PixelFormat) -> (r: String)
    ensures
        r@ == what@ + format.variant(),
{
    let mut out = what.to_owned();
    out.append(format.variant_name());
    out
}

/// `frame <w>x<h> differs from prepared <pw>x<ph>`.
pub open spec fn size_mismatch(w: u32, h: u32, pw: u32, ph: u32) -> Seq<char> {
    "frame "@ + text::decimal(w as nat) + "x"@ + text::decimal(h as nat)
        + " differs from prepared "@ + text::decimal(pw as nat) + "x"@ + text::decimal(ph as nat)
}

/// The complaint about a frame of another size.
pub(crate) fn size_mismatch_text(w: u32, h: u32, pw: u32, ph: u32) -> (r: String)
    ensures
        r@ == size_mismatch(w, h, pw, ph),
{
    let mut out = "frame ".to_owned();
    text::push_decimal(&mut out, w as u64);
    out.append("x");
    text::push_decimal(&mut out, h as u64);
    out.append(" differs from prepared ");
    text::push_decimal(&mut out, pw as u64);
    out.append("x");
    text::push_decimal(&mut out, ph as u64);
    out
}

/// A list of `n` times `value`.
pub(crate) fn filled<T: Copy>(value: T, n: usize) -> (r: Vec<T>)
    ensures
        r@ == Seq::new(n as nat, |i: int| value),
{
    let mut out: Vec<T> = Vec::new();
    let mut i: usize = 0;
    while i < n
        invariant
            i <= n,
            out@.len() == i,
            forall|k: int| 0 <= k < i ==> out@[k] == value,
        decreases n - i,
    {
        out.push(value);
        i = i + 1;
    }
    assert(out@ =~= Seq::new(n as nat, |i: int| value));
    out
}

/// Whether a context may come out of timing an inference.
pub open spec fn timed(before: FrameContext, after: FrameContext) -> bool {
    &&& after.frame_sequence == before.frame_sequence
    &&& after.frame_timestamp == before.frame_timestamp
    &&& after.fallback_active == before.fallback_active
    &&& exists|us: u64| #[trigger] after.telemetry.follows(before.telemetry, us)
}

/// Failures after one more.
pub open spec fn one_more(failures: u32) -> u32 {
    if failures == u32::MAX {
        failures
    } else {
        (failures + 1) as u32
    }
}

/// Whether a stage that was prepared, with an engine, may go from `before` to
/// `after` with the outcome `r` when the engine answers `reply`.
pub open spec fn answered<M: PixelMath>(
    math: &M,
    before: SegmentationState,
    after: SegmentationState,
    context: FrameContext,
    context_after: FrameContext,
    reply: Result<InferenceOutput, InferenceError>,
    r: SegmentationOutcome,
) -> bool {
    let config = before.model_config->0;
    match reply {
        Err(source) => {
            &&& context_after == context
            &&& after.mask == before.mask
            &&& after.failures == one_more(before.failures)
            &&& if after.failures >= before.threshold {
                r matches SegmentationOutcome::Fatal(e) && inference_failure(
                    e,
                    SEGMENTATION@,
                    source,
                )
            } else {
                r is Fallback
            }
        },
        Ok(output) => {
            &&& timed(context, context_after)
            &&& after.failures == 0
            &&& after.mask.len() == before.mask.len()
            &&& match tensor::decode_complaint(
                config,
                output.data@.len(),
                before.mask.len(),
                output.shape@,
            ) {
                Some(reason) => after.mask == before.mask && (r matches SegmentationOutcome::Fatal(
                    e,
                ) && processing_failure(e, SEGMENTATION@, reason)),
                None => {
                    &&& r == SegmentationOutcome::Segmented {
                        width: before.model_w,
                        height: before.model_h,
                    }
                    &&& forall|i: int|
                        0 <= i < after.mask.len() ==> tensor::mask_value(
                            output.data@,
                            config,
                            after.mask.len(),
                            i,
                            #[trigger] after.mask[i],
                            math,
                        )
                },
            }
        },
    }
}

/// Whether `input` is what the engine is asked about for `rgb`.
pub open spec fn asked<M: PixelMath>(
    math: &M,
    state: SegmentationState,
    rgb: Seq<u8>,
    input: Seq<u32>,
) -> bool {
    let config = state.model_config->0;
    let size = Resize {
        src_w: state.frame_w,
        src_h: state.frame_h,
        dst_w: state.model_w,
        dst_h: state.model_h,
    };
    exists|bytes: Seq<u8>| #[trigger]
        pixel_math::resized_rgb(math, rgb, size, bytes) && tensor::packed(
            bytes,
            input,
            config.input_layout,
            state.model_h * state.model_w,
            config.input_scale,
            config.input_zero_point,
            math,
        )
}

/// Shape of what the engine is asked about.
pub open spec fn asked_shape(state: SegmentationState) -> Seq<usize> {
    tensor::input_shape_spec(
        state.model_config->0.input_layout,
        state.model_h as usize,
        state.model_w as usize,
    )
}

/// Whether the engine may be asked about `rgb` and answer `reply`, where it is
/// `engine` then.
pub open spec fn may_reply<M: PixelMath>(
    math: &M,
    state: SegmentationState,
    rgb: Seq<u8>,
    engine: Option<LoadedEngine>,
    reply: Result<InferenceOutput, InferenceError>,
) -> bool {
    exists|input: Seq<u32>| #[trigger]
        asked(math, state, rgb, input) && state.engine->0.answers(
            input,
            asked_shape(state),
            engine->0,
            reply,
        )
}

/// Why a frame is not even tried, if it is not.
pub open spec fn frame_complaint(
    state: SegmentationState,
    format: PixelFormat,
    width: u32,
    height: u32,
) -> Option<Seq<char>> {
    if format != PixelFormat::Rgb {
        Some("unexpected pixel format "@ + format.variant())
    } else if width != state.frame_w || height != state.frame_h {
        Some(size_mismatch(width, height, state.frame_w, state.frame_h))
    } else if state.model_config is None || state.engine is None {
        Some("process called before prepare"@)
    } else {
        None
    }
}

/// Everything but the engine, the mask and the failures.
pub open spec fn same_setup(a: SegmentationState, b: SegmentationState) -> bool {
    &&& a.model == b.model
    &&& a.sidecar == b.sidecar
    &&& a.defect == b.defect
    &&& a.threshold == b.threshold
    &&& a.model_config == b.model_config
    &&& a.frame_w == b.frame_w
    &&& a.frame_h == b.frame_h
    &&& a.model_w == b.model_w
    &&& a.model_h == b.model_h
    &&& a.engine is Some <==> b.engine is Some
}

/// Whether segmenting a frame may lead from `before` to `after` with the
/// outcome `r`.
pub open spec fn segmented<M: PixelMath>(
    math: &M,
    before: SegmentationState,
    after: SegmentationState,
    frame: VideoFrame,
    context: FrameContext,
    context_after: FrameContext,
    r: SegmentationOutcome,
) -> bool {
    &&& same_setup(before, after)
    &&& match frame_complaint(before, frame.format, frame.width, frame.height) {
        Some(reason) => {
            &&& after == before
            &&& context_after == context
            &&& r matches SegmentationOutcome::Fatal(e) && processing_failure(
                e,
                SEGMENTATION@,
                reason,
            )
        },
        None => exists|reply: Result<InferenceOutput, InferenceError>| #[trigger]
            may_reply(math, before, frame.data@, after.engine, reply) && answered(
                math,
                before,
                after,
                context,
                context_after,
                reply,
                r,
            ),
    }
}

/// The bit patterns of `n` zeros.
pub open spec fn zeros(n: nat) -> Seq<u32> {
    Seq::new(n, |i: int| float_bits::ZERO)
}

/// Whether running `engine` once on zeros, whatever it answers, may leave it as
/// `after`.
pub open spec fn warmed(
    engine: LoadedEngine,
    config: ModelConfig,
    after: Option<LoadedEngine>,
) -> bool {
    &&& after is Some
    &&& exists|reply: Result<InferenceOutput, InferenceError>| #[trigger]
        engine.answers(
            zeros((config.input_width * config.input_height * 3) as nat),
            tensor::input_shape_spec(
                config.input_layout,
                config.input_height as usize,
                config.input_width as usize,
            ),
            after->0,
            reply,
        )
}

/// A stage that was `before`, prepared for a model and a stream with `engine`.
pub open spec fn ready(
    before: SegmentationState,
    after: SegmentationState,
    config: ModelConfig,
    engine: LoadedEngine,
    context: ProcessingContext,
) -> bool {
    &&& after.model == before.model
    &&& after.sidecar == before.sidecar
    &&& after.defect == before.defect
    &&& after.threshold == before.threshold
    &&& after.model_config == Some(config)
    &&& warmed(engine, config, after.engine)
    &&& after.mask == zeros((config.input_width * config.input_height) as nat)
    &&& after.frame_w == context.width
    &&& after.frame_h == context.height
    &&& after.model_w == config.input_width
    &&& after.model_h == config.input_height
    &&& after.failures == 0
}

/// Whether preparing may lead from `before` to `after` with the outcome `r`
/// where the model's configuration is `config` and the loader answers a request
/// for an engine with `built`.
pub open spec fn built_with(
    before: SegmentationState,
    after: SegmentationState,
    config: ModelConfig,
    context: ProcessingContext,
    built: Result<LoadedEngine, InferenceError>,
    r: Result<(), EffectError>,
) -> bool {
    match built {
        Ok(engine) => r is Ok && ready(before, after, config, engine, context),
        Err(source) => after == before && (r matches Err(e) && inference_failure(
            e,
            SEGMENTATION@,
            source,
        )),
    }
}

/// Whether preparing may lead from `before` to `after` with the outcome `r`
/// where the loader answers a request for the model's configuration with
/// `loaded`.
pub open spec fn loaded_with<L: ModelLoader>(
    loader: &L,
    before: SegmentationState,
    after: SegmentationState,
    context: ProcessingContext,
    loaded: Result<ModelConfig, InferenceError>,
    r: Result<(), EffectError>,
) -> bool {
    match loaded {
        Err(source) => after == before && unprepared(r, SEGMENTATION@, source.display()),
        Ok(config) => if !countable(config.input_width, config.input_height) {
            after == before && unprepared(
                r,
                SEGMENTATION@,
                too_large("model input"@, config.input_width, config.input_height),
            )
        } else {
            exists|built: Result<LoadedEngine, InferenceError>| #[trigger]
                traits::may_build(loader, before.model, config, context.counters, built)
                    && built_with(before, after, config, context, built, r)
        },
    }
}

/// Whether preparing may lead from `before` to `after` with the outcome `r`.
pub open spec fn prepared<L: ModelLoader>(
    loader: &L,
    before: SegmentationState,
    after: SegmentationState,
    context: ProcessingContext,
    r: Result<(), EffectError>,
) -> bool {
    if context.format != PixelFormat::Rgb {
        after == before && refused(
            r,
            SEGMENTATION@,
            "segmentation requires RGB input, got "@ + context.format.variant(),
        )
    } else {
        match before.defect {
            Some(reason) => after == before && refused(r, SEGMENTATION@, reason),
            None => exists|loaded: Result<ModelConfig, InferenceError>| #[trigger]
                traits::may_load(loader, before.model, before.sidecar, loaded) && loaded_with(
                    loader,
                    before,
                    after,
                    context,
                    loaded,
                    r,
                ),
        }
    }
}

/// The engine that was loaded answers every frame: segmenting a frame leaves an
/// engine in place that goes by the same rules.
pub proof fn law_engine_stays<M: PixelMath>(
    math: &M,
    before: SegmentationState,
    after: SegmentationState,
    frame: VideoFrame,
    context: FrameContext,
    context_after: FrameContext,
    r: SegmentationOutcome,
)
    requires
        segmented(math, before, after, frame, context, context_after, r),
        before.engine is Some,
    ensures
        after.engine is Some,
        after.engine->0.engine.rules() == before.engine->0.engine.rules(),
{
}

/// A failing engine is tolerated until it has failed as many times in a row as
/// the threshold says; then every further failure is fatal, and one success
/// starts the count anew.
pub proof fn law_failure_budget<M: PixelMath>(
    math: &M,
    before: SegmentationState,
    after: SegmentationState,
    context: FrameContext,
    context_after: FrameContext,
    reply: Result<InferenceOutput, InferenceError>,
    r: SegmentationOutcome,
)
    requires
        answered(math, before, after, context, context_after, reply, r),
        before.failures < u32::MAX,
    ensures
        reply is Err ==> after.failures == before.failures + 1 && (r is Fatal <==> before.failures
            + 1 >= before.threshold) && (r is Fallback <==> before.failures + 1
            < before.threshold),
        reply is Ok ==> after.failures == 0 && !(r is Fallback),
{
}

impl<M: PixelMath, L: ModelLoader> SegmentationBase<M, L> {
    /// Whether the buffers fit the model, once there is one.
    pub closed spec fn wf(&self) -> bool {
        self.model_config is Some ==> {
            &&& countable(self.model_w, self.model_h)
            &&& self.model_w == self.model_config->0.input_width
            &&& self.model_h == self.model_config->0.input_height
            &&& self.model_input_u8@.len() == self.model_h * self.model_w * 3
            &&& self.model_input_f32@.len() == self.model_h * self.model_w * 3
            &&& self.mask_raw@.len() == self.model_w * self.model_h
        }
    }

    /// The pixel arithmetic.
    pub closed spec fn pixel_math(&self) -> &M {
        &self.math
    }

    /// Where models come from.
    pub closed spec fn source(&self) -> &L {
        &self.loader
    }

    /// An unprepared stage.
    #[must_use]
    pub fn new(config: SegmentationConfig, math: M, loader: L) -> (r: Self)
        ensures
            r.wf(),
            r@.model == config.model@,
            r@.sidecar == config.sidecar(),
            r@.defect == config.defect(),
            r@.threshold == config.fallback_threshold,
            r@.model_config is None,
            r@.engine is None,
            r@.mask.len() == 0,
            r@.frame_w == 0 && r@.frame_h == 0,
            r@.model_w == 0 && r@.model_h == 0,
            r@.failures == 0,
            *r.pixel_math() == math,
            *r.source() == loader,
    {
        SegmentationBase {
            config,
            model_config: None,
            engine: None,
            math,
            loader,
            model_input_u8: Vec::new(),
            model_input_f32: Vec::new(),
            mask_raw: Vec::new(),
            frame_w: 0,
            frame_h: 0,
            model_w: 0,
            model_h: 0,
            consecutive_failures: 0,
        }
    }

    /// Size of the model input, once prepared.
    #[must_use]
    pub fn model_dimensions(&self) -> (r: (u32, u32))
        ensures
            r == (self@.model_w, self@.model_h),
    {
        (self.model_w, self.model_h)
    }

    /// The pixel arithmetic.
    pub(crate) fn math(&self) -> (r: &M)
        ensures
            r == self.pixel_math(),
    {
        &self.math
    }

    /// The mask of the last segmented frame.
    #[must_use]
    pub fn mask(&self) -> (r: &[u32])
        ensures
            r@ == self@.mask,
    {
        self.mask_raw.as_slice()
    }

    /// The mask of the last segmented frame, to change in place.
    #[must_use]
    pub fn mask_mut(&mut self) -> (r: &mut [u32])
        requires
            old(self).wf(),
        ensures
            r@ == old(self)@.mask,
            final(self)@ == (SegmentationState { mask: final(r)@, ..old(self)@ }),
            final(self).pixel_math() == old(self).pixel_math(),
            final(self).source() == old(self).source(),
            final(r)@.len() == old(self)@.mask.len() ==> final(self).wf(),
    {
        self.mask_raw.as_mut_slice()
    }

    /// Take the engine out, if there is one.  Frames cannot be segmented until
    /// another is installed.
    #[must_use]
    pub fn take_engine(&mut self) -> (r: Option<LoadedEngine>)
        requires
            old(self).wf(),
        ensures
            final(self).wf(),
            r == old(self)@.engine,
            final(self)@ == (SegmentationState { engine: None, ..old(self)@ }),
            final(self).pixel_math() == old(self).pixel_math(),
            final(self).source() == old(self).source(),
    {
        self.engine.take()
    }

    /// Install an engine in place of the one there may be.
    pub fn install_engine(&mut self, engine: LoadedEngine)
        requires
            old(self).wf(),
        ensures
            final(self).wf(),
            final(self)@ == (SegmentationState { engine: Some(engine), ..old(self)@ }),
            final(self).pixel_math() == old(self).pixel_math(),
            final(self).source() == old(self).source(),
    {
        self.engine = Some(engine);
    }

    /// Whether an engine is loaded.
    #[must_use]
    pub fn engine_loaded(&self) -> (r: bool)
        ensures
            r == self@.engine is Some,
    {
        self.engine.is_some()
    }

    /// Path of the model.
    #[must_use]
    pub fn model_path(&self) -> (r: &str)
        ensures
            r@ == self@.model,
    {
        self.config.model.as_str()
    }

    /// Configuration of the model, once prepared.
    #[must_use]
    pub fn model_config(&self) -> (r: Option<&ModelConfig>)
        ensures
            match r {
                Some(c) => self@.model_config == Some(*c),
                None => self@.model_config is None,
            },
    {
        match &self.model_config {
            Some(c) => Some(c),
            None => None,
        }
    }

    /// Load the model's configuration, build an engine, allocate the buffers and
    /// run the engine once on zeros, whatever comes of that.  A stream that is
    /// not RGB is an invalid configuration, a configuration of the model that
    /// cannot be read is a failed preparation, and an engine that cannot be built
    /// is an inference error.  A failure leaves the stage as it was.
    pub fn prepare(&mut self, context: &ProcessingContext) -> (r: Result<(), EffectError>)
        requires
            old(self).wf(),
        ensures
            final(self).wf(),
            final(self).pixel_math() == old(self).pixel_math(),
            final(self).source() == old(self).source(),
            prepared(old(self).source(), old(self)@, final(self)@, *context, r),
    {
        if context.format != PixelFormat::Rgb {
            let reason = format_complaint("segmentation requires RGB input, got ", context.format);
            return Err(EffectError::invalid_config(SEGMENTATION, reason, None));
        }
        let valid = self.config.validate();
        if valid.is_err() {
            return valid;
        }
        let ghost start = self@;
        let given = match &self.config.model_config {
            Some(path) => Some(path.as_str()),
            None => None,
        };
        let loaded = loader::load_model_config(&self.loader, self.config.model.as_str(), given);
        assert(traits::may_load(&self.loader, start.model, start.sidecar, loaded));
        let model_config = match loaded {
            Ok(c) => c,
            Err(e) => {
                let r: Result<(), EffectError> = Err(
                    EffectError::prepare_failed(SEGMENTATION, e.to_string()),
                );
                assert(loaded_with(&self.loader, start, self@, *context, loaded, r));
                return r;
            },
        };
        let ghost config = model_config;
        let bytes: usize = match plane_bytes(model_config.input_width, model_config.input_height) {
            Some(n) => n,
            None => {
                let reason = too_large_text(
                    "model input",
                    model_config.input_width,
                    model_config.input_height,
                );
                let r: Result<(), EffectError> = Err(
                    EffectError::prepare_failed(SEGMENTATION, reason),
                );
                assert(loaded_with(&self.loader, start, self@, *context, loaded, r));
                return r;
            },
        };
        let counters = match &context.counters {
            Some(c) => Some(c.clone()),
            None => None,
        };
        let built = self.loader.build_engine(
            self.config.model.as_str(),
            model_config.clone(),
            counters,
        );
        let ghost offered = built;
        assert(traits::may_build(&self.loader, start.model, config, context.counters, offered));
        let mut engine = match built {
            Ok(engine) => engine,
            Err(e) => {
                let r: Result<(), EffectError> = Err(
                    EffectError::Inference { name: SEGMENTATION.to_owned(), source: e },
                );
                assert(built_with(start, self@, config, *context, offered, r));
                assert(loaded_with(&self.loader, start, self@, *context, loaded, r));
                return r;
            },
        };
        let w: u32 = model_config.input_width;
        let h: u32 = model_config.input_height;
        assert(w * h * 3 == h * w * 3) by (nonlinear_arith);
        let pixels: usize = bytes / 3;
        let input = filled(float_bits::ZERO, bytes);
        let shape = tensor::input_shape(model_config.input_layout, h, w);
        let warm = engine.engine.infer(
            InferenceInput { data: input.as_slice(), shape: shape.as_slice() },
        );
        self.engine = Some(engine);
        proof {
            assert(input@ =~= zeros((config.input_width * config.input_height * 3) as nat));
            assert(offered->Ok_0.answers(
                zeros((config.input_width * config.input_height * 3) as nat),
                tensor::input_shape_spec(
                    config.input_layout,
                    config.input_height as usize,
                    config.input_width as usize,
                ),
                self.engine->0,
                warm,
            ));
            assert(warmed(offered->Ok_0, config, self.engine));
        }
        self.model_config = Some(model_config);
        self.model_w = w;
        self.model_h = h;
        self.frame_w = context.width;
        self.frame_h = context.height;
        self.model_input_u8 = filled(0u8, bytes);
        self.model_input_f32 = input;
        self.mask_raw = filled(float_bits::ZERO, pixels);
        self.consecutive_failures = 0;
        let r: Result<(), EffectError> = Ok(());
        assert(built_with(start, self@, config, *context, offered, r));
        assert(loaded_with(&self.loader, start, self@, *context, loaded, r));
        r
    }

    /// Segment a frame: ask the engine about the frame, resized and packed, and
    /// decode the answer into the mask.  Failures below the threshold in a row
    /// are transient.
    pub fn process(&mut self, frame: &VideoFrame, context: &mut FrameContext) -> (r:
        SegmentationOutcome)
        requires
            old(self).wf(),
        ensures
            final(self).wf(),
            final(self).pixel_math() == old(self).pixel_math(),
            final(self).source() == old(self).source(),
            segmented(
                old(self).pixel_math(),
                old(self)@,
                final(self)@,
                *frame,
                *old(context),
                *final(context),
                r,
            ),
            r matches SegmentationOutcome::Segmented { width, height } ==> final(self)@.mask.len()
                == width * height,
    {
        if frame.format != PixelFormat::Rgb {
            let reason = format_complaint("unexpected pixel format ", frame.format);
            return SegmentationOutcome::Fatal(EffectError::process_failed(SEGMENTATION, reason));
        }
        if frame.width != self.frame_w || frame.height != self.frame_h {
            let reason = size_mismatch_text(frame.width, frame.height, self.frame_w, self.frame_h);
            return SegmentationOutcome::Fatal(EffectError::process_failed(SEGMENTATION, reason));
        }
        let model_config: &ModelConfig = match &self.model_config {
            Some(c) => c,
            None => {
                let reason = "process called before prepare".to_owned();
                return SegmentationOutcome::Fatal(
                    EffectError::process_failed(SEGMENTATION, reason),
                );
            },
        };
        if self.engine.is_none() {
            let reason = "process called before prepare".to_owned();
            return SegmentationOutcome::Fatal(EffectError::process_failed(SEGMENTATION, reason));
        }
        let ghost start = self@;
        let ghost config = *model_config;
        let size = Resize {
            src_w: frame.width,
            src_h: frame.height,
            dst_w: self.model_w,
            dst_h: self.model_h,
        };
        assert(self.model_w * self.model_h * 3 == self.model_h * self.model_w * 3)
            by (nonlinear_arith);
        pixel_math::resize_rgb(&self.math, frame.data.as_slice(), size, &mut self.model_input_u8);
        let ghost bytes = self.model_input_u8@;
        tensor::pack_input(
            self.model_input_u8.as_slice(),
            &mut self.model_input_f32,
            model_config.input_layout,
            self.model_h,
            self.model_w,
            model_config.input_scale,
            model_config.input_zero_point,
            &self.math,
        );
        let ghost input = self.model_input_f32@;
        proof {
            assert(pixel_math::resized_rgb(&self.math, frame.data@, size, bytes));
            assert(asked(&self.math, start, frame.data@, input));
        }
        let shape = tensor::input_shape(model_config.input_layout, self.model_h, self.model_w);
        let started = now();
        let reply = match &mut self.engine {
            Some(loaded) => loaded.engine.infer(
                InferenceInput { data: self.model_input_f32.as_slice(), shape: shape.as_slice() },
            ),
            None => {
                let reason = "process called before prepare".to_owned();
                return SegmentationOutcome::Fatal(
                    EffectError::process_failed(SEGMENTATION, reason),
                );
            },
        };
        assert(may_reply(&self.math, start, frame.data@, self.engine, reply));
        let ghost answer = reply;
        let r = match reply {
            Err(e) => {
                self.consecutive_failures = self.consecutive_failures.saturating_add(1);
                if self.consecutive_failures >= self.config.fallback_threshold {
                    SegmentationOutcome::Fatal(
                        EffectError::Inference { name: SEGMENTATION.to_owned(), source: e },
                    )
                } else {
                    SegmentationOutcome::Fallback
                }
            },
            Ok(output) => {
                self.consecutive_failures = 0;
                let spent = elapsed(started);
                context.telemetry.record_inference(spent);
                assert(context.telemetry.follows(
                    old(context).telemetry,
                    metrics::saturated(frame::duration_micros(spent)),
                ));
                let decoded = tensor::decode_mask(
                    SEGMENTATION,
                    output.data.as_slice(),
                    output.shape.as_slice(),
                    self.mask_raw.as_mut_slice(),
                    model_config,
                    &self.math,
                );
                match decoded {
                    Err(e) => SegmentationOutcome::Fatal(e),
                    Ok(()) => SegmentationOutcome::Segmented {
                        width: self.model_w,
                        height: self.model_h,
                    },
                }
            },
        };
        assert(answered(&self.math, start, self@, *old(context), *context, answer, r));
        r
    }
}

} // verus!
