//! OpenVINO inference engine.
//!
//! The engine finds its ports when it is loaded, and checks every input against
//! its shape.  What needs the runtime library is an [`OpenVinoRuntime`]: every
//! step takes what the step before it gave, and a run takes the tensor that it
//! runs on.

use vstd::prelude::*;
use crate::error::InferenceError;
use crate::metrics::Counters;
use crate::ml::engine::{self, RawOutput};
use crate::ml::model_config::ModelConfig;
use crate::text;
use crate::traits::{
    self, EngineCall, EngineRules, EngineState, InferenceEngine, InferenceInput, InferenceOutput,
    ModelInfo,
};

verus! {

/// Why a request gives no output.
#[derive(Debug)]
pub enum RequestProblem {
    /// The tensor cannot be bound to the input.
    Bind(String),
    /// The run fails.
    Run(String),
    /// The output cannot be fetched.
    Fetch(String),
    /// The dimensions of the output cannot be read.
    Shape(String),
    /// The values of the output cannot be read.
    Data(String),
}

/// The runtime library.  Failures are messages.
pub trait OpenVinoRuntime: Send {
    /// The library in use.
    type Core: Send;

    /// A model that was read.
    type Model;

    /// A model that was compiled for a device.
    type Compiled: Send;

    /// A request for a compiled model.
    type Request: Send;

    /// A shape.
    type Shape;

    /// A tensor.
    type Tensor;

    /// Whether there is a file at the path.
    fn model_exists(&self, path: &str) -> bool;

    /// Load the library.
    fn start(&self) -> Result<Self::Core, String>;

    /// Read a model.
    fn read_model(&self, core: &Self::Core, path: &str) -> Result<Self::Model, String>;

    /// Name of an input of a model.
    fn input_name(&self, model: &Self::Model, index: usize) -> Result<String, String>;

    /// Name of an output of a model.
    fn output_name(&self, model: &Self::Model, index: usize) -> Result<String, String>;

    /// Compile a model for a device.
    fn compile(&self, core: &Self::Core, model: &Self::Model, device: &str) -> Result<
        Self::Compiled,
        String,
    >;

    /// Make a request for a compiled model.
    fn create_request(&self, compiled: &Self::Compiled) -> Result<Self::Request, String>;

    /// Make a shape.
    fn new_shape(&self, dims: &[i64]) -> Result<Self::Shape, String>;

    /// Make a tensor of a shape.
    fn new_tensor(&self, shape: &Self::Shape) -> Result<Self::Tensor, String>;

    /// Fill a tensor.
    fn fill_tensor(&self, tensor: Self::Tensor, data: &[u32]) -> Result<Self::Tensor, String>;

    /// Bind a tensor to an input of a request, run the request and read an output.
    fn run(
        &self,
        request: &Self::Request,
        input: &str,
        tensor: &Self::Tensor,
        output: &str,
    ) -> Result<RawOutput, RequestProblem>;
}

/// Hint for a library that cannot be loaded.
pub const LIBRARY_HINT: &'static str =
    "ensure the OpenVINO runtime is on the loader path. With Guix Home: run `guix home reconfigure` so `OPENVINO_INSTALL_DIR` and `libopenvino_c.so` are exported by the `openvino-full` package. Without Guix: set `LD_LIBRARY_PATH` to a directory containing `libopenvino_c.so` (e.g. a pip-installed openvino's `libs/` dir, after creating unversioned symlinks)";

/// OpenVINO inference engine.
///
/// Fields are dropped in order: the request before the compiled model, that
/// before the library.
pub struct OpenVinoEngine<R: OpenVinoRuntime> {
    request: R::Request,
    compiled: R::Compiled,
    core: R::Core,
    runtime: R,
    config: ModelConfig,
    info: ModelInfo,
    input_name: String,
    output_name: String,
    device: String,
}

/// Whether `e` is a library that cannot be loaded.
pub open spec fn setup_failure(e: InferenceError, detail: Seq<char>) -> bool {
    engine::unavailable(e, "openvino Core::new failed: "@ + detail, LIBRARY_HINT@)
}

/// A library that cannot be loaded.
#[must_use]
pub fn map_setup_error(detail: &str) -> (r: InferenceError)
    ensures
        setup_failure(r, detail@),
{
    InferenceError::BackendUnavailable {
        reason: engine::joined("openvino Core::new failed: ", detail),
        hint: LIBRARY_HINT.to_owned(),
    }
}

/// Whether loading a model may lead to `r`.
pub open spec fn may_load<R: OpenVinoRuntime>(
    runtime: R,
    path: &str,
    config: ModelConfig,
    device: &str,
    r: Result<OpenVinoEngine<R>, InferenceError>,
) -> bool {
    exists|found: bool| #[trigger]
        call_ensures(R::model_exists, (&runtime, path), found) && if !found {
            r matches Err(e) && engine::missing_model(e, path@)
        } else {
            exists|started: Result<R::Core, String>| #[trigger]
                call_ensures(R::start, (&runtime,), started) && match started {
                    Err(m) => r matches Err(e) && setup_failure(e, m@),
                    Ok(core) => exists|read: Result<R::Model, String>| #[trigger]
                        call_ensures(R::read_model, (&runtime, &core, path), read) && match read {
                            Err(m) => r matches Err(e) && engine::load_failure(
                                e,
                                "read_model_from_file"@ + "("@ + path@ + "): "@ + m@,
                            ),
                            Ok(model) => ports_found(runtime, core, model, config, device, r),
                        },
                }
        }
}

/// Whether finding the ports, compiling and making a request may lead to `r`.
pub open spec fn ports_found<R: OpenVinoRuntime>(
    runtime: R,
    core: R::Core,
    model: R::Model,
    config: ModelConfig,
    device: &str,
    r: Result<OpenVinoEngine<R>, InferenceError>,
) -> bool {
    exists|input: Result<String, String>| #[trigger]
        call_ensures(R::input_name, (&runtime, &model, 0usize), input) && match input {
            Err(m) => r matches Err(e) && engine::load_failure(
                e,
                "cannot read input port name: "@ + m@,
            ),
            Ok(i) => exists|output: Result<String, String>| #[trigger]
                call_ensures(
                    R::output_name,
                    (&runtime, &model, config.output_index),
                    output,
                ) && match output {
                    Err(m) => r matches Err(e) && engine::config_failure(
                        e,
                        "cannot read output port name at index "@ + text::decimal(
                            config.output_index as nat,
                        ) + ": "@ + m@,
                    ),
                    Ok(o) => compiled(runtime, core, model, config, device, i@, o@, r),
                },
        }
}

/// Whether compiling and making a request may lead to `r`.
pub open spec fn compiled<R: OpenVinoRuntime>(
    runtime: R,
    core: R::Core,
    model: R::Model,
    config: ModelConfig,
    device: &str,
    input: Seq<char>,
    output: Seq<char>,
    r: Result<OpenVinoEngine<R>, InferenceError>,
) -> bool {
    exists|done: Result<R::Compiled, String>| #[trigger]
        call_ensures(R::compile, (&runtime, &core, &model, device), done) && match done {
            Err(m) => r matches Err(e) && engine::load_failure(
                e,
                "compile_model(device="@ + device@ + "): "@ + m@,
            ),
            Ok(ready) => exists|made: Result<R::Request, String>| #[trigger]
                call_ensures(R::create_request, (&runtime, &ready), made) && match made {
                    Err(m) => r matches Err(e) && engine::load_failure(
                        e,
                        "create_infer_request: "@ + m@,
                    ),
                    Ok(request) => r matches Ok(loaded) && {
                        &&& loaded.library() == runtime
                        &&& loaded.pending() == request
                        &&& loaded.model() == config
                        &&& loaded.ports() == (input, output)
                        &&& loaded.target() == device@
                        &&& engine::describes(loaded.described(), config)
                    },
                },
        }
}

impl<R: OpenVinoRuntime> OpenVinoEngine<R> {
    /// The library.
    pub closed spec fn library(&self) -> R {
        self.runtime
    }

    /// The request that runs.
    pub closed spec fn pending(&self) -> R::Request {
        self.request
    }

    /// What the engine says of its model.
    pub closed spec fn described(&self) -> ModelInfo {
        self.info
    }

    /// Configuration of the model.
    pub closed spec fn model(&self) -> ModelConfig {
        self.config
    }

    /// Names of the input and the output in use.
    pub closed spec fn ports(&self) -> (Seq<char>, Seq<char>) {
        (self.input_name@, self.output_name@)
    }

    /// The device the model is compiled for.
    pub closed spec fn target(&self) -> Seq<char> {
        self.device@
    }

    /// Load a model for a device: find the file, load the library, read the
    /// model, find its ports, compile, make a request.
    pub fn load(runtime: R, model_path: &str, config: ModelConfig, device: &str) -> (r: Result<
        Self,
        InferenceError,
    >)
        ensures
            may_load(runtime, model_path, config, device, r),
    {
        let found: bool = runtime.model_exists(model_path);
        if !found {
            return Err(InferenceError::ModelNotFound { path: model_path.to_owned() });
        }
        let started = runtime.start();
        let core = match started {
            Ok(core) => core,
            Err(message) => {
                return Err(map_setup_error(message.as_str()));
            },
        };
        let read = runtime.read_model(&core, model_path);
        let model = match read {
            Ok(model) => model,
            Err(message) => {
                let reason = engine::called("read_model_from_file", model_path, message.as_str());
                return Err(engine::load_failed(reason));
            },
        };
        let input = runtime.input_name(&model, 0);
        let input_name = match input {
            Ok(name) => name,
            Err(message) => {
                let reason = engine::joined("cannot read input port name: ", message.as_str());
                return Err(engine::load_failed(reason));
            },
        };
        let output = runtime.output_name(&model, config.output_index);
        let output_name = match output {
            Ok(name) => name,
            Err(message) => {
                let mut reason = "cannot read output port name at index ".to_owned();
                text::push_decimal(&mut reason, config.output_index as u64);
                reason.append(": ");
                reason.append(message.as_str());
                return Err(InferenceError::InvalidModelConfig { reason });
            },
        };
        let done = runtime.compile(&core, &model, device);
        let compiled = match done {
            Ok(compiled) => compiled,
            Err(message) => {
                let mut reason = "compile_model(device=".to_owned();
                reason.append(device);
                reason.append("): ");
                reason.append(message.as_str());
                return Err(engine::load_failed(reason));
            },
        };
        let made = runtime.create_request(&compiled);
        let request = match made {
            Ok(request) => request,
            Err(message) => {
                let reason = engine::joined("create_infer_request: ", message.as_str());
                return Err(engine::load_failed(reason));
            },
        };
        let info = engine::model_info_of(&config);
        Ok(
            OpenVinoEngine {
                request,
                compiled,
                core,
                runtime,
                config,
                info,
                input_name,
                output_name,
                device: device.to_owned(),
            },
        )
    }
}

/// Lengths as dimensions, where every one of the first `n` is in range.
pub open spec fn in_range(shape: Seq<usize>, n: int) -> bool {
    forall|i: int| 0 <= i < n ==> #[trigger] shape[i] <= i64::MAX
}

/// Dimensions as lengths; a negative one is none.
pub open spec fn lengths(dims: Seq<i64>) -> Seq<usize> {
    dims.map_values(
        |d: i64|
            if d < 0 {
                0
            } else {
                d as usize
            },
    )
}

/// Whether `dims` are the lengths of `shape`.
pub open spec fn dims_of(shape: Seq<usize>, dims: Seq<i64>) -> bool {
    &&& dims.len() == shape.len()
    &&& forall|i: int| 0 <= i < dims.len() ==> #[trigger] dims[i] == shape[i]
}

/// Dimensions for a shape.
fn dimensions(shape: &[usize]) -> (r: Result<Vec<i64>, InferenceError>)
    ensures
        match r {
            Ok(dims) => dims_of(shape@, dims@),
            Err(e) => !in_range(shape@, shape@.len() as int) && engine::run_failure(
                e,
                "shape dimension overflow: out of range integral type conversion attempted"@,
            ),
        },
{
    let mut out: Vec<i64> = Vec::new();
    let mut i: usize = 0;
    while i < shape.len()
        invariant
            i <= shape@.len(),
            out@.len() == i,
            forall|k: int| 0 <= k < i ==> #[trigger] out@[k] == shape@[k],
        decreases shape@.len() - i,
    {
        if shape[i] as u64 > i64::MAX as u64 {
            assert(!in_range(shape@, shape@.len() as int)) by {
                assert(shape@[i as int] > i64::MAX);
            }
            return Err(
                engine::run_failed(
                    "shape dimension overflow: out of range integral type conversion attempted".to_owned(),
                ),
            );
        }
        out.push(shape[i] as i64);
        i = i + 1;
    }
    Ok(out)
}

/// Dimensions as lengths; a negative one is none.
fn lengths_of(dims: &Vec<i64>) -> (r: Vec<usize>)
    ensures
        r@ == lengths(dims@),
{
    let mut out: Vec<usize> = Vec::new();
    let mut i: usize = 0;
    while i < dims.len()
        invariant
            i <= dims@.len(),
            out@.len() == i,
            forall|k: int| 0 <= k < i ==> #[trigger] out@[k] == lengths(dims@)[k],
        decreases dims@.len() - i,
    {
        let d: i64 = dims[i];
        out.push(
            if d < 0 {
                0
            } else {
                d as usize
            },
        );
        i = i + 1;
    }
    assert(out@ =~= lengths(dims@));
    out
}

/// `<what>(<prefix><shape>): <detail>`.
fn shape_reason(what: &str, shape: &[usize], detail: &str) -> (r: String)
    ensures
        r@ == what@ + text::decimal_list(shape@) + "): "@ + detail@,
{
    let mut out = what.to_owned();
    text::push_decimal_list(&mut out, shape);
    out.append("): ");
    out.append(detail);
    out
}

/// Whether running a request on a tensor and reading the output may lead to `r`.
pub open spec fn may_run<R: OpenVinoRuntime>(
    runtime: &R,
    request: &R::Request,
    ports: (Seq<char>, Seq<char>),
    tensor: R::Tensor,
    r: Result<InferenceOutput, InferenceError>,
) -> bool {
    exists|input: &str, output: &str, ran: Result<RawOutput, RequestProblem>|
        (input@, output@) == ports && #[trigger] call_ensures(
            R::run,
            (runtime, request, input, &tensor, output),
            ran,
        ) && match ran {
            Err(RequestProblem::Bind(m)) => r matches Err(e) && engine::run_failure(
                e,
                "set_tensor"@ + "("@ + ports.0 + "): "@ + m@,
            ),
            Err(RequestProblem::Run(m)) => r matches Err(e) && engine::run_failure(
                e,
                "infer: "@ + m@,
            ),
            Err(RequestProblem::Fetch(m)) => r matches Err(e) && engine::run_failure(
                e,
                "get_tensor"@ + "("@ + ports.1 + "): "@ + m@,
            ),
            Err(RequestProblem::Shape(m)) => r matches Err(e) && engine::run_failure(
                e,
                "output tensor get_shape: "@ + m@,
            ),
            Err(RequestProblem::Data(m)) => r matches Err(e) && engine::run_failure(
                e,
                "output tensor get_data: "@ + m@,
            ),
            Ok(raw) => r matches Ok(o) && o.data == raw.data && o.shape@ == lengths(raw.dims@),
        }
}

/// Whether making and filling a tensor of a shape and what follows may lead to
/// `r`.
pub open spec fn may_fill<R: OpenVinoRuntime>(
    runtime: &R,
    request: &R::Request,
    ports: (Seq<char>, Seq<char>),
    made_shape: R::Shape,
    data: Seq<u32>,
    shape: Seq<usize>,
    r: Result<InferenceOutput, InferenceError>,
) -> bool {
    exists|made: Result<R::Tensor, String>| #[trigger]
        call_ensures(R::new_tensor, (runtime, &made_shape), made) && match made {
            Err(m) => r matches Err(e) && engine::run_failure(
                e,
                "Tensor::new(F32, "@ + text::decimal_list(shape) + "): "@ + m@,
            ),
            Ok(tensor) => exists|d: &[u32], filled: Result<R::Tensor, String>|
                d@ == data && #[trigger] call_ensures(R::fill_tensor, (runtime, tensor, d), filled)
                    && match filled {
                    Err(m) => r matches Err(e) && engine::run_failure(
                        e,
                        "tensor.get_data_mut: "@ + m@,
                    ),
                    Ok(full) => may_run(runtime, request, ports, full, r),
                },
        }
}

/// Whether making the shape and what follows may lead to `r`.
pub open spec fn may_shape<R: OpenVinoRuntime>(
    runtime: &R,
    request: &R::Request,
    ports: (Seq<char>, Seq<char>),
    data: Seq<u32>,
    shape: Seq<usize>,
    r: Result<InferenceOutput, InferenceError>,
) -> bool {
    exists|dims: &[i64], made: Result<R::Shape, String>|
        dims_of(shape, dims@) && #[trigger] call_ensures(R::new_shape, (runtime, dims), made)
            && match made {
            Err(m) => r matches Err(e) && engine::run_failure(
                e,
                "Shape::new("@ + text::decimal_list(shape) + "): "@ + m@,
            ),
            Ok(s) => may_fill(runtime, request, ports, s, data, shape, r),
        }
}

/// Whether a request may answer a question with `r`.
pub open spec fn may_infer<R: OpenVinoRuntime>(
    runtime: &R,
    request: &R::Request,
    ports: (Seq<char>, Seq<char>),
    data: Seq<u32>,
    shape: Seq<usize>,
    r: Result<InferenceOutput, InferenceError>,
) -> bool {
    match engine::input_complaint(data.len(), shape) {
        Some(reason) => r matches Err(e) && engine::run_failure(e, reason),
        None => if !in_range(shape, shape.len() as int) {
            r matches Err(e) && engine::run_failure(
                e,
                "shape dimension overflow: out of range integral type conversion attempted"@,
            )
        } else {
            may_shape(runtime, request, ports, data, shape, r)
        },
    }
}

/// What an engine on a request may do.
pub open spec fn request_rules<R: OpenVinoRuntime>(
    runtime: R,
    request: R::Request,
    ports: (Seq<char>, Seq<char>),
) -> EngineRules {
    EngineRules {
        infer: |s: EngineState, c: EngineCall, t: EngineState|
            t == s && may_infer(&runtime, &request, ports, c.data, c.shape, c.r),
    }
}

impl<R: OpenVinoRuntime> InferenceEngine for OpenVinoEngine<R> {
    open spec fn rules(&self) -> EngineRules {
        request_rules(self.library(), self.pending(), self.ports())
    }

    open spec fn state(&self) -> EngineState {
        traits::single(self.described())
    }

    fn model_info(&self) -> (r: ModelInfo) {
        self.info.clone()
    }

    fn published(&self) -> (r: Option<&Counters>) {
        None
    }

    fn infer(&mut self, input: InferenceInput<'_>) -> (r: Result<InferenceOutput, InferenceError>)
        ensures
            *final(self) == *old(self),
    {
        match engine::check_input(input.data.len(), input.shape) {
            Ok(()) => {},
            Err(e) => {
                return Err(e);
            },
        }
        let dims = match dimensions(input.shape) {
            Ok(dims) => dims,
            Err(e) => {
                return Err(e);
            },
        };
        proof {
            assert forall|i: int| 0 <= i < input.shape@.len() implies #[trigger] input.shape@[i]
                <= i64::MAX by {
                assert(dims@[i] == input.shape@[i]);
            }
        }
        let wanted = dims.as_slice();
        let shaped = self.runtime.new_shape(wanted);
        assert(call_ensures(R::new_shape, (&self.library(), wanted), shaped));
        let made_shape = match shaped {
            Ok(made_shape) => made_shape,
            Err(message) => {
                return Err(
                    engine::run_failed(
                        shape_reason("Shape::new(", input.shape, message.as_str()),
                    ),
                );
            },
        };
        self.fill_and_run(made_shape, input.data, input.shape)
    }
}

impl<R: OpenVinoRuntime> OpenVinoEngine<R> {
    /// Make a tensor of a shape, fill it and run the request on it.
    fn fill_and_run(&self, made_shape: R::Shape, data: &[u32], shape: &[usize]) -> (r: Result<
        InferenceOutput,
        InferenceError,
    >)
        ensures
            may_fill(
                &self.library(),
                &self.pending(),
                self.ports(),
                made_shape,
                data@,
                shape@,
                r,
            ),
    {
        let made = self.runtime.new_tensor(&made_shape);
        let tensor = match made {
            Ok(tensor) => tensor,
            Err(message) => {
                let reason = shape_reason("Tensor::new(F32, ", shape, message.as_str());
                return Err(engine::run_failed(reason));
            },
        };
        let filled = self.runtime.fill_tensor(tensor, data);
        assert(call_ensures(R::fill_tensor, (&self.library(), tensor, data), filled));
        match filled {
            Ok(full) => self.run_request(full),
            Err(message) => {
                let reason = engine::joined("tensor.get_data_mut: ", message.as_str());
                Err(engine::run_failed(reason))
            },
        }
    }

    /// Run the request on a tensor and read the output.
    fn run_request(&self, tensor: R::Tensor) -> (r: Result<InferenceOutput, InferenceError>)
        ensures
            may_run(&self.library(), &self.pending(), self.ports(), tensor, r),
    {
        let ran = self.runtime.run(
            &self.request,
            self.input_name.as_str(),
            &tensor,
            self.output_name.as_str(),
        );
        match ran {
            Ok(raw) => {
                let shape = lengths_of(&raw.dims);
                Ok(InferenceOutput { data: raw.data, shape })
            },
            Err(RequestProblem::Bind(message)) => {
                let reason = engine::called(
                    "set_tensor",
                    self.input_name.as_str(),
                    message.as_str(),
                );
                Err(engine::run_failed(reason))
            },
            Err(RequestProblem::Run(message)) => {
                Err(engine::run_failed(engine::joined("infer: ", message.as_str())))
            },
            Err(RequestProblem::Fetch(message)) => {
                let reason = engine::called(
                    "get_tensor",
                    self.output_name.as_str(),
                    message.as_str(),
                );
                Err(engine::run_failed(reason))
            },
            Err(RequestProblem::Shape(message)) => {
                let reason = engine::joined("output tensor get_shape: ", message.as_str());
                Err(engine::run_failed(reason))
            },
            Err(RequestProblem::Data(message)) => {
                let reason = engine::joined("output tensor get_data: ", message.as_str());
                Err(engine::run_failed(reason))
            },
        }
    }
}

} // verus!
