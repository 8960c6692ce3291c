//! Public trait surface: effects, inference engines, sources and sinks.

use vstd::prelude::*;
use crate::background_blur::effect::BlurState;
use crate::composite::effect::CompositeState;
use crate::context::{EffectState, FrameContext, ProcessingContext};
use crate::error::{EffectError, InferenceError, PipelineError};
use crate::frame::{PixelFormat, VideoFrame};
use crate::metrics::{CounterValues, Counters};
use crate::ml::loader;
use crate::ml::model_config::ModelConfig;
use crate::params::RawEffectParams;

verus! {

/// What an effect of the top-level chain holds between two calls.
pub ghost enum VideoState {
    /// Settings and what is kept of earlier frames.
    Plain(EffectState),
    /// A background blur: its configuration, its engine, its masks.
    Blur(BlurState),
    /// A composite effect: its segmentation stage and its four sub-chains.
    Composite(CompositeState),
}

/// A frame before and after an effect.
pub ghost struct VideoCall {
    /// The frame.
    pub frame: VideoFrame,
    /// Its context.
    pub context: FrameContext,
    /// The frame afterwards.
    pub frame_after: VideoFrame,
    /// Its context afterwards.
    pub context_after: FrameContext,
}

/// What an effect of the top-level chain may do: its name, and for each operation
/// the outcomes that are allowed from a state to a next one.  The rules of an
/// effect never change.
pub ghost struct VideoRules {
    /// Registry name.
    pub id: Seq<char>,
    /// Taking parameters.
    pub configure: spec_fn(
        VideoState,
        RawEffectParams,
        VideoState,
        Result<(), EffectError>,
    ) -> bool,
    /// Preparing for a stream.
    pub prepare: spec_fn(
        VideoState,
        ProcessingContext,
        VideoState,
        Result<(), EffectError>,
    ) -> bool,
    /// Processing a frame.
    pub process: spec_fn(VideoState, VideoCall, VideoState, Result<(), EffectError>) -> bool,
    /// Releasing resources.
    pub shut_down: spec_fn(VideoState, VideoState, Result<(), EffectError>) -> bool,
}

/// Rules that allow everything.
pub open spec fn no_video_rules() -> VideoRules {
    VideoRules {
        id: arbitrary(),
        configure: |s: VideoState, p: RawEffectParams, t: VideoState, r: Result<(), EffectError>|
            true,
        prepare: |s: VideoState, c: ProcessingContext, t: VideoState, r: Result<(), EffectError>|
            true,
        process: |s: VideoState, c: VideoCall, t: VideoState, r: Result<(), EffectError>| true,
        shut_down: |s: VideoState, t: VideoState, r: Result<(), EffectError>| true,
    }
}

/// Implemented by every effect of the top-level chain.
///
/// Lifecycle: `configure`, `prepare`, repeated `process`, `shutdown`.  An effect
/// is specified as a transition system: its `rules` say which outcomes each
/// operation allows from what the effect holds (`state`) to what it holds
/// afterwards, and no operation changes the rules.
pub trait VideoEffect: Send {
    /// What the effect may do.
    open spec fn rules(&self) -> VideoRules {
        no_video_rules()
    }

    /// What the effect holds.
    open spec fn state(&self) -> VideoState {
        arbitrary()
    }

    /// What every method keeps.
    open spec fn wf(&self) -> bool {
        true
    }

    /// Stable identifier used by the registry and the configuration.
    fn name(&self) -> (r: &'static str)
        ensures
            r@ == self.rules().id,
    ;

    /// Apply user-supplied parameters.
    fn configure(&mut self, params: RawEffectParams) -> (r: Result<(), EffectError>)
        requires
            old(self).wf(),
        ensures
            final(self).wf(),
            (old(self).rules().configure)(old(self).state(), params, final(self).state(), r),
            final(self).rules() == old(self).rules(),
    ;

    /// Acquire runtime resources once the stream is negotiated.
    fn prepare(&mut self, context: &ProcessingContext) -> (r: Result<(), EffectError>)
        requires
            old(self).wf(),
        ensures
            final(self).wf(),
            (old(self).rules().prepare)(old(self).state(), *context, final(self).state(), r),
            final(self).rules() == old(self).rules(),
    ;

    /// Process a single frame in place.
    fn process(&mut self, frame: &mut VideoFrame, context: &mut FrameContext) -> (r: Result<
        (),
        EffectError,
    >)
        requires
            old(self).wf(),
        ensures
            final(self).wf(),
            (old(self).rules().process)(
                old(self).state(),
                (VideoCall {
                    frame: *old(frame),
                    context: *old(context),
                    frame_after: *final(frame),
                    context_after: *final(context),
                }),
                final(self).state(),
                r,
            ),
            final(self).rules() == old(self).rules(),
    ;

    /// Release runtime resources.
    fn shutdown(&mut self) -> (r: Result<(), EffectError>)
        requires
            old(self).wf(),
        ensures
            final(self).wf(),
            (old(self).rules().shut_down)(old(self).state(), final(self).state(), r),
            final(self).rules() == old(self).rules(),
    ;
}

/// Static description of an inference model.
#[derive(Debug)]
pub struct ModelInfo {
    /// Human-readable model identifier.
    pub name: String,
    /// Expected input tensor width in pixels.
    pub input_width: u32,
    /// Expected input tensor height in pixels.
    pub input_height: u32,
    /// Pixel format the engine expects for raw image input.
    pub input_format: PixelFormat,
}

impl Clone for ModelInfo {
    fn clone(&self) -> (r: Self)
        ensures
            r == *self,
    {
        ModelInfo {
            name: self.name.clone(),
            input_width: self.input_width,
            input_height: self.input_height,
            input_format: self.input_format,
        }
    }
}

/// Tensor input for inference, as single-precision bit patterns.
#[derive(Debug, Clone, Copy)]
pub struct InferenceInput<'a> {
    /// Flattened tensor data.
    pub data: &'a [u32],
    /// Tensor shape in row-major order.
    pub shape: &'a [usize],
}

/// Tensor output from inference, as single-precision bit patterns.
#[derive(Debug)]
pub struct InferenceOutput {
    /// Flattened result tensor.
    pub data: Vec<u32>,
    /// Result tensor shape in row-major order.
    pub shape: Vec<usize>,
}

/// What an engine holds between calls.
pub ghost struct EngineState {
    /// The loaded model.
    pub info: ModelInfo,
    /// What the engine has counted, if it counts.
    pub tally: Option<CounterValues>,
    /// What the engines inside hold, the one that answers first.
    pub parts: Seq<EngineState>,
    /// Whether the engines inside are those it was built with.
    pub intact: bool,
}

/// An engine for a model, with no engine inside, that counts nothing.
pub open spec fn single(info: ModelInfo) -> EngineState {
    EngineState { info, tally: None, parts: Seq::empty(), intact: true }
}

/// A question to an engine, and the answer.
pub ghost struct EngineCall {
    /// The input values.
    pub data: Seq<u32>,
    /// The input shape.
    pub shape: Seq<usize>,
    /// The answer.
    pub r: Result<InferenceOutput, InferenceError>,
}

/// What an engine may do: the answers that are allowed from a state to a next
/// one.  The rules of an engine never change.
pub ghost struct EngineRules {
    /// Running a forward pass.
    pub infer: spec_fn(EngineState, EngineCall, EngineState) -> bool,
}

/// Machine-learning inference abstraction.
pub trait InferenceEngine: Send {
    /// What the engine may do.
    open spec fn rules(&self) -> EngineRules {
        EngineRules { infer: |s: EngineState, c: EngineCall, t: EngineState| true }
    }

    /// What the engine holds.
    open spec fn state(&self) -> EngineState {
        arbitrary()
    }

    /// Static information about the loaded model.
    fn model_info(&self) -> (r: ModelInfo)
        ensures
            r == self.state().info,
    ;

    /// Run a single forward pass.
    fn infer(&mut self, input: InferenceInput<'_>) -> (r: Result<InferenceOutput, InferenceError>)
        ensures
            (old(self).rules().infer)(
                old(self).state(),
                (EngineCall { data: input.data@, shape: input.shape@, r }),
                final(self).state(),
            ),
            final(self).rules() == old(self).rules(),
    ;

    /// Counters that the engine keeps, if it keeps any.
    fn published(&self) -> (r: Option<&Counters>)
        ensures
            match r {
                Some(c) => self.state().tally == Some(c@),
                None => self.state().tally is None,
            },
    ;
}

/// An engine, ready to run.
pub struct LoadedEngine {
    /// The engine.
    pub engine: Box<dyn InferenceEngine>,
}

impl LoadedEngine {
    /// Whether the engine may answer a question with `r` and be `after` then.
    pub open spec fn answers(
        &self,
        data: Seq<u32>,
        shape: Seq<usize>,
        after: LoadedEngine,
        r: Result<InferenceOutput, InferenceError>,
    ) -> bool {
        &&& (self.engine.rules().infer)(
            self.engine.state(),
            EngineCall { data, shape, r },
            after.engine.state(),
        )
        &&& after.engine.rules() == self.engine.rules()
    }
}

/// Finds models and builds engines for them.
pub trait ModelLoader: Send {
    /// Read the configuration at `path`.
    fn read_config(&self, path: &str) -> Result<ModelConfig, InferenceError>;

    /// Read the configuration next to the model at `model`, if there is one.
    fn find_config(&self, model: &str) -> Option<Result<ModelConfig, InferenceError>>;

    /// Build an engine for the model at `model`.
    fn build_engine(
        &self,
        model: &str,
        config: ModelConfig,
        counters: Option<Counters>,
    ) -> Result<LoadedEngine, InferenceError>;
}

/// Whether `loader` may find `found` for the model at `model`: the configuration
/// at the path `given`, or else the one next to the model.
pub open spec fn may_find<L: ModelLoader>(
    loader: &L,
    model: Seq<char>,
    given: Option<Seq<char>>,
    found: Option<Result<ModelConfig, InferenceError>>,
) -> bool {
    match given {
        Some(path) => found is Some && exists|p: &str|
            p@ == path && #[trigger] call_ensures(L::read_config, (loader, p), found->0),
        None => exists|m: &str|
            m@ == model && #[trigger] call_ensures(L::find_config, (loader, m), found),
    }
}

/// Whether the configuration of the model at `model` may come out as `r` where
/// `given` is the path of the configuration, if one is given.
pub open spec fn may_load<L: ModelLoader>(
    loader: &L,
    model: Seq<char>,
    given: Option<Seq<char>>,
    r: Result<ModelConfig, InferenceError>,
) -> bool {
    exists|found: Option<Result<ModelConfig, InferenceError>>| #[trigger]
        may_find(loader, model, given, found) && loader::supplied(found, r)
}

/// Whether `loader` may answer a request for an engine with `r`.
pub open spec fn may_build<L: ModelLoader>(
    loader: &L,
    model: Seq<char>,
    config: ModelConfig,
    counters: Option<Counters>,
    r: Result<LoadedEngine, InferenceError>,
) -> bool {
    exists|m: &str|
        m@ == model && #[trigger] call_ensures(L::build_engine, (loader, m, config, counters), r)
}

/// Abstraction over video capture backends.
pub trait VideoSource: Send {
    /// Begin capturing; returns once frames are flowing.
    fn start(&mut self) -> Result<(), PipelineError>;

    /// Stop capture and release device resources.
    fn stop(&mut self) -> Result<(), PipelineError>;
}

/// Abstraction over video output backends.
pub trait VideoSink: Send {
    /// Open the output device.
    fn start(&mut self) -> Result<(), PipelineError>;

    /// Deliver a processed frame.
    fn push(&mut self, frame: &VideoFrame) -> Result<(), PipelineError>;

    /// Tear down the sink and release device resources.
    fn stop(&mut self) -> Result<(), PipelineError>;
}

} // verus!
