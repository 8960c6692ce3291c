//! ONNX inference engine.
//!
//! The engine finds its ports when it is loaded, and checks every input against
//! its shape.  What needs the runtime library is an [`OnnxRuntime`]: a session
//! comes out of the builder that was opened and the file that was found, and a
//! run takes the session and everything it runs on.

use vstd::prelude::*;
use crate::error::InferenceError;
use crate::metrics::Counters;
use crate::ml::engine::{self, RawOutput};
use crate::ml::model_config::ModelConfig;
use crate::text;
use crate::traits::{
    self, EngineCall, EngineRules, EngineState, InferenceEngine, InferenceInput, InferenceOutput,
    ModelInfo,
};

verus! {

/// Why a path has no canonical form.
#[derive(Debug)]
pub struct PathProblem {
    /// Whether there is nothing at the path.
    pub missing: bool,
    /// What the system says.
    pub message: String,
}

/// A session with a model in it.
pub struct CommittedModel<S> {
    /// The session.
    pub session: S,
    /// Names of the model's inputs.
    pub inputs: Vec<String>,
    /// Names of the model's outputs.
    pub outputs: Vec<String>,
}

/// Why a run gives no outputs.
#[derive(Debug)]
pub enum RunProblem {
    /// The input tensor cannot be made.
    Tensor(String),
    /// The session fails.
    Session(String),
}

/// The runtime library.  Failures are messages.
pub trait OnnxRuntime: Send {
    /// A session without a model.
    type Builder;

    /// A session with a model.
    type Session: Send;

    /// Canonical form of a path.
    fn canonicalize(&self, path: &str) -> Result<String, PathProblem>;

    /// Load the library and start a session.
    fn open(&self) -> Result<Self::Builder, String>;

    /// Read a model into a session.
    fn commit(&self, builder: Self::Builder, path: &str) -> Result<
        CommittedModel<Self::Session>,
        String,
    >;

    /// Run a session on the tensor of a shape and its values, under the name of
    /// an input; all outputs.
    fn run(&self, session: &Self::Session, input: &str, shape: &[usize], data: &[u32]) -> Result<
        Vec<Result<RawOutput, String>>,
        RunProblem,
    >;
}

/// Hint for a library that cannot be loaded.
pub const LIBRARY_HINT: &'static str =
    "set ORT_DYLIB_PATH to the libonnxruntime.so path (e.g. /gnu/store/.../lib/libonnxruntime.so)";

/// Whether a message is about the library rather than the model.
pub open spec fn about_library(message: Seq<char>) -> bool {
    let lower = text::lower(message);
    ||| text::occurs(lower, "libonnxruntime"@)
    ||| text::occurs(lower, "ort_dylib_path"@)
    ||| text::occurs(lower, "dylib"@)
    ||| text::occurs(lower, "library"@)
}

/// Tell a library that cannot be loaded from a session that cannot be started.
#[must_use]
pub fn map_backend_or_load_error(message: &str) -> (r: InferenceError)
    ensures
        if about_library(message@) {
            engine::unavailable(r, message@, LIBRARY_HINT@)
        } else {
            engine::load_failure(r, "session builder: "@ + message@)
        },
{
    let lower = text::to_lower(message);
    if text::contains(lower.as_str(), "libonnxruntime") || text::contains(
        lower.as_str(),
        "ort_dylib_path",
    ) || text::contains(lower.as_str(), "dylib") || text::contains(lower.as_str(), "library") {
        InferenceError::BackendUnavailable {
            reason: message.to_owned(),
            hint: LIBRARY_HINT.to_owned(),
        }
    } else {
        engine::load_failed(engine::joined("session builder: ", message))
    }
}

/// ONNX inference engine.
pub struct OnnxEngine<R: OnnxRuntime> {
    runtime: R,
    session: R::Session,
    config: ModelConfig,
    info: ModelInfo,
    input_name: String,
    output_name: String,
    output_index: usize,
    input_count: usize,
    output_count: usize,
}

/// `output_index <i> out of range; model has <n> outputs`.
pub open spec fn no_such_output(index: usize, count: nat) -> Seq<char> {
    "output_index "@ + text::decimal(index as nat) + " out of range; model has "@ + text::decimal(
        count,
    ) + " outputs"@
}

/// `output_index <i> out of range at infer time; session returned <n> outputs`.
pub open spec fn no_output(index: usize, count: nat) -> Seq<char> {
    "output_index "@ + text::decimal(index as nat)
        + " out of range at infer time; session returned "@ + text::decimal(count)
        + " outputs"@
}

/// Dimensions as lengths.
pub open spec fn lengths(dims: Seq<i64>) -> Seq<usize> {
    dims.map_values(|d: i64| d as usize)
}

/// Whether a model that was read leads to `r`.
pub open spec fn ports_found<R: OnnxRuntime>(
    runtime: R,
    read: CommittedModel<R::Session>,
    config: ModelConfig,
    r: Result<OnnxEngine<R>, InferenceError>,
) -> bool {
    if read.inputs@.len() == 0 {
        r matches Err(e) && engine::load_failure(e, "model has no inputs"@)
    } else if config.output_index >= read.outputs@.len() {
        r matches Err(e) && engine::config_failure(
            e,
            no_such_output(config.output_index, read.outputs@.len()),
        )
    } else {
        r matches Ok(loaded) && {
            &&& loaded.library() == runtime
            &&& loaded.session() == read.session
            &&& loaded.model() == config
            &&& loaded.ports() == (
                read.inputs@[0]@,
                read.outputs@[config.output_index as int]@,
            )
            &&& loaded.counts() == (read.inputs@.len(), read.outputs@.len())
            &&& loaded.index() == config.output_index
            &&& engine::describes(loaded.described(), config)
        }
    }
}

/// Whether loading a model may lead to `r`.
pub open spec fn may_load<R: OnnxRuntime>(
    runtime: R,
    path: &str,
    config: ModelConfig,
    r: Result<OnnxEngine<R>, InferenceError>,
) -> bool {
    exists|canonical: Result<String, PathProblem>| #[trigger]
        call_ensures(R::canonicalize, (&runtime, path), canonical) && match canonical {
            Err(p) => r matches Err(e) && if p.missing {
                engine::missing_model(e, path@)
            } else {
                engine::load_failure(e, "cannot canonicalize "@ + path@ + ": "@ + p.message@)
            },
            Ok(file) => exists|opened: Result<R::Builder, String>| #[trigger]
                call_ensures(R::open, (&runtime,), opened) && match opened {
                    Err(m) => r matches Err(e) && if about_library(m@) {
                        engine::unavailable(e, m@, LIBRARY_HINT@)
                    } else {
                        engine::load_failure(e, "session builder: "@ + m@)
                    },
                    Ok(builder) => committed(runtime, builder, file@, config, r),
                },
        }
}

/// Whether reading the model file may lead to `r`.
pub open spec fn committed<R: OnnxRuntime>(
    runtime: R,
    builder: R::Builder,
    file: Seq<char>,
    config: ModelConfig,
    r: Result<OnnxEngine<R>, InferenceError>,
) -> bool {
    exists|f: &str, read: Result<CommittedModel<R::Session>, String>|
        f@ == file && #[trigger] call_ensures(R::commit, (&runtime, builder, f), read)
            && match read {
            Err(m) => r matches Err(e) && engine::load_failure(
                e,
                "commit_from_file"@ + "("@ + file + "): "@ + m@,
            ),
            Ok(model) => ports_found(runtime, model, config, r),
        }
}

impl<R: OnnxRuntime> OnnxEngine<R> {
    /// The runtime library.
    pub closed spec fn library(&self) -> R {
        self.runtime
    }

    /// The session with the model.
    pub closed spec fn session(&self) -> R::Session {
        self.session
    }

    /// What the engine says of its model.
    pub closed spec fn described(&self) -> ModelInfo {
        self.info
    }

    /// Configuration of the model.
    pub closed spec fn model(&self) -> ModelConfig {
        self.config
    }

    /// Names of the input and the output in use.
    pub closed spec fn ports(&self) -> (Seq<char>, Seq<char>) {
        (self.input_name@, self.output_name@)
    }

    /// Numbers of inputs and outputs of the model.
    pub closed spec fn counts(&self) -> (nat, nat) {
        (self.input_count as nat, self.output_count as nat)
    }

    /// Index of the output in use.
    pub closed spec fn index(&self) -> usize {
        self.output_index
    }

    /// Load a model: find the file, start a session, read the model, find its
    /// ports.
    pub fn load(runtime: R, model_path: &str, config: ModelConfig) -> (r: Result<
        Self,
        InferenceError,
    >)
        ensures
            may_load(runtime, model_path, config, r),
    {
        let canonical = runtime.canonicalize(model_path);
        let file = match canonical {
            Ok(file) => file,
            Err(problem) => {
                if problem.missing {
                    return Err(InferenceError::ModelNotFound { path: model_path.to_owned() });
                }
                let mut reason = "cannot canonicalize ".to_owned();
                reason.append(model_path);
                reason.append(": ");
                reason.append(problem.message.as_str());
                return Err(engine::load_failed(reason));
            },
        };
        let opened = runtime.open();
        let builder = match opened {
            Ok(builder) => builder,
            Err(message) => {
                return Err(map_backend_or_load_error(message.as_str()));
            },
        };
        let read = runtime.commit(builder, file.as_str());
        let model = match read {
            Ok(model) => model,
            Err(message) => {
                let reason = engine::called("commit_from_file", file.as_str(), message.as_str());
                return Err(engine::load_failed(reason));
            },
        };
        let CommittedModel { session, inputs, outputs } = model;
        if inputs.len() == 0 {
            return Err(engine::load_failed("model has no inputs".to_owned()));
        }
        let output_index: usize = config.output_index;
        if output_index >= outputs.len() {
            let mut reason = "output_index ".to_owned();
            text::push_decimal(&mut reason, output_index as u64);
            reason.append(" out of range; model has ");
            text::push_decimal(&mut reason, outputs.len() as u64);
            reason.append(" outputs");
            return Err(InferenceError::InvalidModelConfig { reason });
        }
        let info = engine::model_info_of(&config);
        let input_name = inputs[0].clone();
        let output_name = outputs[output_index].clone();
        Ok(
            OnnxEngine {
                runtime,
                session,
                config,
                info,
                input_name,
                output_name,
                output_index,
                input_count: inputs.len(),
                output_count: outputs.len(),
            },
        )
    }

    /// Number of inputs of the model.
    #[must_use]
    pub fn input_count(&self) -> (r: usize)
        ensures
            r == self.counts().0,
    {
        self.input_count
    }

    /// Number of outputs of the model.
    #[must_use]
    pub fn output_count(&self) -> (r: usize)
        ensures
            r == self.counts().1,
    {
        self.output_count
    }

    /// Configuration of the model.
    #[must_use]
    pub fn config(&self) -> (r: &ModelConfig)
        ensures
            *r == self.model(),
    {
        &self.config
    }
}

/// Whether the outputs of a run lead to `r`.
pub open spec fn selected(
    ran: Result<Vec<Result<RawOutput, String>>, RunProblem>,
    index: usize,
    r: Result<InferenceOutput, InferenceError>,
) -> bool {
    match ran {
        Err(RunProblem::Tensor(m)) => r matches Err(e) && engine::run_failure(
            e,
            "tensor build: "@ + m@,
        ),
        Err(RunProblem::Session(m)) => r matches Err(e) && engine::run_failure(
            e,
            "session.run: "@ + m@,
        ),
        Ok(outputs) => if index >= outputs@.len() {
            r matches Err(e) && engine::run_failure(e, no_output(index, outputs@.len()))
        } else {
            match outputs@[index as int] {
                Err(m) => r matches Err(e) && engine::run_failure(e, "extract f32 tensor: "@ + m@),
                Ok(raw) => r matches Ok(o) && o.data@ == raw.data@ && o.shape@ == lengths(
                    raw.dims@,
                ),
            }
        },
    }
}

/// The chosen output of a run.
pub fn select_output(
    ran: Result<Vec<Result<RawOutput, String>>, RunProblem>,
    index: usize,
) -> (r: Result<InferenceOutput, InferenceError>)
    ensures
        selected(ran, index, r),
{
    let mut outputs = match ran {
        Ok(outputs) => outputs,
        Err(RunProblem::Tensor(message)) => {
            return Err(engine::run_failed(engine::joined("tensor build: ", message.as_str())));
        },
        Err(RunProblem::Session(message)) => {
            return Err(engine::run_failed(engine::joined("session.run: ", message.as_str())));
        },
    };
    if index >= outputs.len() {
        let mut reason = "output_index ".to_owned();
        text::push_decimal(&mut reason, index as u64);
        reason.append(" out of range at infer time; session returned ");
        text::push_decimal(&mut reason, outputs.len() as u64);
        reason.append(" outputs");
        return Err(engine::run_failed(reason));
    }
    match outputs.swap_remove(index) {
        Ok(raw) => {
            let shape = lengths_of(&raw.dims);
            Ok(InferenceOutput { data: raw.data, shape })
        },
        Err(message) => Err(
            engine::run_failed(engine::joined("extract f32 tensor: ", message.as_str())),
        ),
    }
}

/// Dimensions as lengths.
fn lengths_of(dims: &Vec<i64>) -> (r: Vec<usize>)
    ensures
        r@ == lengths(dims@),
{
    let mut out: Vec<usize> = Vec::new();
    let mut i: usize = 0;
    while i < dims.len()
        invariant
            i <= dims@.len(),
            out@.len() == i,
            forall|k: int| 0 <= k < i ==> #[trigger] out@[k] == dims@[k] as usize,
        decreases dims@.len() - i,
    {
        out.push(dims[i] as usize);
        i = i + 1;
    }
    assert(out@ =~= lengths(dims@));
    out
}

/// Whether a session may answer a question about its input `input` with `r`, the
/// output at `index`.
pub open spec fn may_infer<R: OnnxRuntime>(
    runtime: R,
    session: R::Session,
    input: Seq<char>,
    index: usize,
    data: Seq<u32>,
    shape: Seq<usize>,
    r: Result<InferenceOutput, InferenceError>,
) -> bool {
    match engine::input_complaint(data.len(), shape) {
        Some(reason) => r matches Err(e) && engine::run_failure(e, reason),
        None => exists|
            name: &str,
            s: &[usize],
            d: &[u32],
            ran: Result<Vec<Result<RawOutput, String>>, RunProblem>,
        |
            name@ == input && s@ == shape && d@ == data && #[trigger] call_ensures(
                R::run,
                (&runtime, &session, name, s, d),
                ran,
            ) && selected(ran, index, r),
    }
}

/// What an engine on a session may do.
pub open spec fn session_rules<R: OnnxRuntime>(
    runtime: R,
    session: R::Session,
    input: Seq<char>,
    index: usize,
) -> EngineRules {
    EngineRules {
        infer: |s: EngineState, c: EngineCall, t: EngineState|
            t == s && may_infer(runtime, session, input, index, c.data, c.shape, c.r),
    }
}

impl<R: OnnxRuntime> InferenceEngine for OnnxEngine<R> {
    open spec fn rules(&self) -> EngineRules {
        session_rules(self.library(), self.session(), self.ports().0, self.index())
    }

    open spec fn state(&self) -> EngineState {
        traits::single(self.described())
    }

    fn model_info(&self) -> (r: ModelInfo) {
        self.info.clone()
    }

    fn published(&self) -> (r: Option<&Counters>) {
        None
    }

    fn infer(&mut self, input: InferenceInput<'_>) -> (r: Result<InferenceOutput, InferenceError>)
        ensures
            *final(self) == *old(self),
    {
        match engine::check_input(input.data.len(), input.shape) {
            Ok(()) => {},
            Err(e) => {
                return Err(e);
            },
        }
        let ran = self.runtime.run(
            &self.session,
            self.input_name.as_str(),
            input.shape,
            input.data,
        );
        let ghost answer = ran;
        assert(exists|name: &str|
            name@ == self.ports().0 && #[trigger] call_ensures(
                R::run,
                (&self.library(), &self.session(), name, input.shape, input.data),
                answer,
            ));
        select_output(ran, self.output_index)
    }
}

} // verus!
