//! What the inference engines and their configuration promise.

use vstd::prelude::*;
use crate::error::InferenceError;
use crate::float_bits;
use crate::ml::engine;
use crate::ml::engine::RawOutput;
use crate::ml::loader;
use crate::ml::model_config::{ModelConfig, OutputType};
use crate::ml::onnx;
use crate::ml::onnx::{CommittedModel, OnnxEngine, OnnxRuntime, PathProblem, RunProblem};
use crate::ml::openvino_engine;
use crate::ml::openvino_engine::{OpenVinoEngine, OpenVinoRuntime, RequestProblem};
use crate::traits::{InferenceEngine, InferenceInput, InferenceOutput, ModelLoader};

verus! {

/// Number of elements of a shape.
pub open spec fn volume(shape: Seq<usize>) -> int
    decreases shape.len(),
{
    if shape.len() == 0 {
        1
    } else {
        volume(shape.drop_last()) * shape.last()
    }
}

/// What the first dimensions count.
proof fn lemma_elements(shape: Seq<usize>, n: int)
    requires
        0 <= n <= shape.len(),
    ensures
        engine::elements(shape, n) matches Some(k) ==> k == volume(shape.take(n)),
        (forall|i: int| 0 <= i <= n ==> volume(#[trigger] shape.take(i)) <= usize::MAX)
            ==> engine::elements(shape, n) is Some,
    decreases n,
{
    if n > 0 {
        lemma_elements(shape, n - 1);
        assert(shape.take(n).drop_last() =~= shape.take(n - 1));
        assert(shape.take(n).last() == shape[n - 1]);
        assert(volume(shape.take(n)) == volume(shape.take(n - 1)) * shape[n - 1]);
    }
}

/// An input passes where it has as many values as its shape has elements, and fails
/// where it has another number.
pub proof fn law_input_fits_shape(len: usize, shape: &[usize], r: Result<(), InferenceError>)
    requires
        call_ensures(engine::check_input, (len, shape), r),
    ensures
        r is Ok ==> len == volume(shape@),
        len == volume(shape@) && (forall|i: int|
            0 <= i <= shape@.len() ==> volume(#[trigger] shape@.take(i)) <= usize::MAX) ==> r is Ok,
{
    lemma_elements(shape@, shape@.len() as int);
    assert(shape@.take(shape@.len() as int) =~= shape@);
}

/// Whether a run of the session hands over the question as it was asked, and output
/// `index` of the run is the answer.
pub open spec fn session_ran<R: OnnxRuntime>(
    runtime: R,
    session: R::Session,
    name: &str,
    shape: &[usize],
    data: &[u32],
    outputs: Vec<Result<RawOutput, String>>,
) -> bool {
    call_ensures(
        R::run,
        (&runtime, &session, name, shape, data),
        Ok::<Vec<Result<RawOutput, String>>, RunProblem>(outputs),
    )
}

/// An ONNX engine answers with the values of the output that its configuration names,
/// from a run of its session on the input port, with the shape and the values that it
/// was asked about; every dimension that is not negative comes out as it is.  The
/// engine itself stays as it is, and an input that does not fit its shape is refused.
pub proof fn law_onnx_answer<R: OnnxRuntime>(
    e: &mut OnnxEngine<R>,
    input: InferenceInput<'_>,
    r: Result<InferenceOutput, InferenceError>,
)
    requires
        call_ensures(<OnnxEngine<R> as InferenceEngine>::infer, (e, input), r),
    ensures
        *final(e) == *old(e),
        input.data@.len() != volume(input.shape@) ==> r is Err,
        r matches Ok(o) ==> exists|
            name: &str,
            shape: &[usize],
            data: &[u32],
            outputs: Vec<Result<RawOutput, String>>,
        | #[trigger]
            session_ran(old(e).library(), old(e).session(), name, shape, data, outputs) && name@
                == old(e).ports().0 && shape@ == input.shape@ && data@ == input.data@ && old(e).index()
                < outputs@.len() && (outputs@[old(e).index() as int] matches Ok(raw) && o.data@
                == raw.data@ && o.shape@.len() == raw.dims@.len() && forall|i: int|
                0 <= i < raw.dims@.len() && 0 <= #[trigger] raw.dims@[i] <= usize::MAX
                    ==> o.shape@[i] == raw.dims@[i]),
{
    lemma_elements(input.shape@, input.shape@.len() as int);
    assert(input.shape@.take(input.shape@.len() as int) =~= input.shape@);
    if r is Ok {
        let (name, shape, data, ran) = choose|
            name: &str,
            s: &[usize],
            d: &[u32],
            ran: Result<Vec<Result<RawOutput, String>>, RunProblem>,
        |
            name@ == old(e).ports().0 && s@ == input.shape@ && d@ == input.data@
                && #[trigger] call_ensures(
                R::run,
                (&old(e).library(), &old(e).session(), name, s, d),
                ran,
            ) && onnx::selected(ran, old(e).index(), r);
        assert(session_ran(old(e).library(), old(e).session(), name, shape, data, ran->Ok_0));
    }
}

/// Whether reading a model file gave `read`.
pub open spec fn model_read<R: OnnxRuntime>(
    runtime: R,
    path: &str,
    file: String,
    builder: R::Builder,
    f: &str,
    read: CommittedModel<R::Session>,
) -> bool {
    &&& call_ensures(R::canonicalize, (&runtime, path), Ok::<String, PathProblem>(file))
    &&& call_ensures(R::open, (&runtime,), Ok::<R::Builder, String>(builder))
    &&& call_ensures(
        R::commit,
        (&runtime, builder, f),
        Ok::<CommittedModel<R::Session>, String>(read),
    )
    &&& f@ == file@
}

/// A loaded ONNX engine runs the model of the canonical path, takes the model's first
/// input and the output that the configuration names, and describes itself by the
/// configuration.
pub proof fn law_onnx_load<R: OnnxRuntime>(
    runtime: R,
    path: &str,
    config: ModelConfig,
    r: Result<OnnxEngine<R>, InferenceError>,
)
    requires
        call_ensures(OnnxEngine::<R>::load, (runtime, path, config), r),
    ensures
        r matches Ok(e) ==> exists|
            file: String,
            builder: R::Builder,
            f: &str,
            read: CommittedModel<R::Session>,
        | #[trigger]
            model_read(runtime, path, file, builder, f, read) && e.session() == read.session
                && e.library() == runtime && e.index() == config.output_index
                && config.output_index < read.outputs@.len() && read.inputs@.len() > 0
                && e.ports().0 == read.inputs@[0]@ && e.ports().1
                == read.outputs@[config.output_index as int]@ && e.model() == config
                && e.described().name == config.name && e.described().input_width
                == config.input_width && e.described().input_height == config.input_height
                && e.described().input_format == config.input_color,
{
    if r is Ok {
        let canonical = choose|canonical: Result<String, PathProblem>| #[trigger]
            call_ensures(R::canonicalize, (&runtime, path), canonical) && match canonical {
                Err(p) => false,
                Ok(file) => exists|opened: Result<R::Builder, String>| #[trigger]
                    call_ensures(R::open, (&runtime,), opened) && match opened {
                        Err(m) => false,
                        Ok(builder) => onnx::committed(runtime, builder, file@, config, r),
                    },
            };
        let file = canonical->Ok_0;
        let opened = choose|opened: Result<R::Builder, String>| #[trigger]
            call_ensures(R::open, (&runtime,), opened) && match opened {
                Err(m) => false,
                Ok(builder) => onnx::committed(runtime, builder, file@, config, r),
            };
        let builder = opened->Ok_0;
        let (f, read) = choose|f: &str, read: Result<CommittedModel<R::Session>, String>|
            f@ == file@ && #[trigger] call_ensures(R::commit, (&runtime, builder, f), read)
                && match read {
                Err(m) => false,
                Ok(model) => onnx::ports_found(runtime, model, config, r),
            };
        assert(model_read(runtime, path, file, builder, f, read->Ok_0));
    }
}

/// Whether the library was led from dimensions over a shape and a filled tensor to an
/// output.
pub open spec fn request_ran<R: OpenVinoRuntime>(
    runtime: R,
    request: R::Request,
    dims: &[i64],
    shape: R::Shape,
    blank: R::Tensor,
    data: &[u32],
    full: R::Tensor,
    input: &str,
    output: &str,
    raw: RawOutput,
) -> bool {
    &&& call_ensures(R::new_shape, (&runtime, dims), Ok::<R::Shape, String>(shape))
    &&& call_ensures(R::new_tensor, (&runtime, &shape), Ok::<R::Tensor, String>(blank))
    &&& call_ensures(R::fill_tensor, (&runtime, blank, data), Ok::<R::Tensor, String>(full))
    &&& call_ensures(
        R::run,
        (&runtime, &request, input, &full, output),
        Ok::<RawOutput, RequestProblem>(raw),
    )
}

/// An OpenVINO engine answers with the values of its output port, from a run of its
/// request on a tensor of the shape and the values that it was asked about; a negative
/// dimension comes out as zero.  The engine itself stays as it is, and an input that
/// does not fit its shape is refused.
pub proof fn law_openvino_answer<R: OpenVinoRuntime>(
    e: &mut OpenVinoEngine<R>,
    asked: InferenceInput<'_>,
    r: Result<InferenceOutput, InferenceError>,
)
    requires
        call_ensures(<OpenVinoEngine<R> as InferenceEngine>::infer, (e, asked), r),
    ensures
        *final(e) == *old(e),
        asked.data@.len() != volume(asked.shape@) ==> r is Err,
        r matches Ok(o) ==> exists|
            dims: &[i64],
            shape: R::Shape,
            blank: R::Tensor,
            data: &[u32],
            full: R::Tensor,
            input: &str,
            output: &str,
            raw: RawOutput,
        | #[trigger]
            request_ran(
                old(e).library(),
                old(e).pending(),
                dims,
                shape,
                blank,
                data,
                full,
                input,
                output,
                raw,
            ) && dims@.len() == asked.shape@.len() && (forall|i: int|
                0 <= i < dims@.len() ==> #[trigger] dims@[i] == asked.shape@[i]) && data@
                == asked.data@ && input@ == old(e).ports().0 && output@ == old(e).ports().1 && o.data@
                == raw.data@ && o.shape@.len() == raw.dims@.len() && forall|i: int|
                0 <= i < raw.dims@.len() && #[trigger] raw.dims@[i] <= usize::MAX ==> o.shape@[i]
                    == (if raw.dims@[i] < 0 {
                    0
                } else {
                    raw.dims@[i] as int
                }),
{
    lemma_elements(asked.shape@, asked.shape@.len() as int);
    assert(asked.shape@.take(asked.shape@.len() as int) =~= asked.shape@);
    if r is Ok {
        let runtime = old(e).library();
        let request = old(e).pending();
        let ports = old(e).ports();
        let (dims, made) = choose|dims: &[i64], made: Result<R::Shape, String>|
            openvino_engine::dims_of(asked.shape@, dims@) && #[trigger] call_ensures(
                R::new_shape,
                (&runtime, dims),
                made,
            ) && match made {
                Err(m) => false,
                Ok(s) => openvino_engine::may_fill(
                    &runtime,
                    &request,
                    ports,
                    s,
                    asked.data@,
                    asked.shape@,
                    r,
                ),
            };
        let shape = made->Ok_0;
        let blank = choose|blank: Result<R::Tensor, String>| #[trigger]
            call_ensures(R::new_tensor, (&runtime, &shape), blank) && match blank {
                Err(m) => false,
                Ok(tensor) => exists|d: &[u32], filled: Result<R::Tensor, String>|
                    d@ == asked.data@ && #[trigger] call_ensures(
                        R::fill_tensor,
                        (&runtime, tensor, d),
                        filled,
                    ) && match filled {
                        Err(m) => false,
                        Ok(full) => openvino_engine::may_run(&runtime, &request, ports, full, r),
                    },
            };
        let (data, filled) = choose|d: &[u32], filled: Result<R::Tensor, String>|
            d@ == asked.data@ && #[trigger] call_ensures(
                R::fill_tensor,
                (&runtime, blank->Ok_0, d),
                filled,
            ) && match filled {
                Err(m) => false,
                Ok(full) => openvino_engine::may_run(&runtime, &request, ports, full, r),
            };
        let full = filled->Ok_0;
        let (input, output, ran) = choose|
            input: &str,
            output: &str,
            ran: Result<RawOutput, RequestProblem>,
        |
            (input@, output@) == ports && #[trigger] call_ensures(
                R::run,
                (&runtime, &request, input, &full, output),
                ran,
            ) && match ran {
                Err(_) => false,
                Ok(raw) => r matches Ok(o) && o.data == raw.data && o.shape@
                    == openvino_engine::lengths(raw.dims@),
            };
        assert(request_ran(
            runtime,
            request,
            dims,
            shape,
            blank->Ok_0,
            data,
            full,
            input,
            output,
            ran->Ok_0,
        ));
    }
}

/// Whether the library was led from a file to a request on a device.
pub open spec fn model_compiled<R: OpenVinoRuntime>(
    runtime: R,
    path: &str,
    device: &str,
    core: R::Core,
    model: R::Model,
    index: usize,
    input: String,
    output: String,
    ready: R::Compiled,
    request: R::Request,
) -> bool {
    &&& call_ensures(R::model_exists, (&runtime, path), true)
    &&& call_ensures(R::start, (&runtime,), Ok::<R::Core, String>(core))
    &&& call_ensures(R::read_model, (&runtime, &core, path), Ok::<R::Model, String>(model))
    &&& call_ensures(R::input_name, (&runtime, &model, 0usize), Ok::<String, String>(input))
    &&& call_ensures(R::output_name, (&runtime, &model, index), Ok::<String, String>(output))
    &&& call_ensures(
        R::compile,
        (&runtime, &core, &model, device),
        Ok::<R::Compiled, String>(ready),
    )
    &&& call_ensures(R::create_request, (&runtime, &ready), Ok::<R::Request, String>(request))
}

/// A loaded OpenVINO engine runs the model of the path on the device, takes the
/// model's first input and the output that the configuration names, and describes
/// itself by the configuration.
pub proof fn law_openvino_load<R: OpenVinoRuntime>(
    runtime: R,
    path: &str,
    config: ModelConfig,
    device: &str,
    r: Result<OpenVinoEngine<R>, InferenceError>,
)
    requires
        call_ensures(OpenVinoEngine::<R>::load, (runtime, path, config, device), r),
    ensures
        r matches Ok(e) ==> exists|
            core: R::Core,
            model: R::Model,
            input: String,
            output: String,
            ready: R::Compiled,
            request: R::Request,
        | #[trigger]
            model_compiled(
                runtime,
                path,
                device,
                core,
                model,
                config.output_index,
                input,
                output,
                ready,
                request,
            ) && e.pending() == request && e.library() == runtime && e.ports() == (input@, output@)
                && e.target() == device@ && e.model() == config && e.described().name == config.name
                && e.described().input_width == config.input_width && e.described().input_height
                == config.input_height && e.described().input_format == config.input_color,
{
    if r is Ok {
        let found = choose|found: bool| #[trigger]
            call_ensures(R::model_exists, (&runtime, path), found) && found && exists|
                started: Result<R::Core, String>,
            | #[trigger]
                call_ensures(R::start, (&runtime,), started) && match started {
                    Err(m) => false,
                    Ok(core) => exists|read: Result<R::Model, String>| #[trigger]
                        call_ensures(R::read_model, (&runtime, &core, path), read) && match read {
                            Err(m) => false,
                            Ok(model) => openvino_engine::ports_found(
                                runtime,
                                core,
                                model,
                                config,
                                device,
                                r,
                            ),
                        },
                };
        let started = choose|started: Result<R::Core, String>| #[trigger]
            call_ensures(R::start, (&runtime,), started) && match started {
                Err(m) => false,
                Ok(core) => exists|read: Result<R::Model, String>| #[trigger]
                    call_ensures(R::read_model, (&runtime, &core, path), read) && match read {
                        Err(m) => false,
                        Ok(model) => openvino_engine::ports_found(
                            runtime,
                            core,
                            model,
                            config,
                            device,
                            r,
                        ),
                    },
            };
        let core = started->Ok_0;
        let read = choose|read: Result<R::Model, String>| #[trigger]
            call_ensures(R::read_model, (&runtime, &core, path), read) && match read {
                Err(m) => false,
                Ok(model) => openvino_engine::ports_found(runtime, core, model, config, device, r),
            };
        let model = read->Ok_0;
        let input = choose|input: Result<String, String>| #[trigger]
            call_ensures(R::input_name, (&runtime, &model, 0usize), input) && match input {
                Err(m) => false,
                Ok(i) => exists|output: Result<String, String>| #[trigger]
                    call_ensures(R::output_name, (&runtime, &model, config.output_index), output)
                        && match output {
                        Err(m) => false,
                        Ok(o) => openvino_engine::compiled(
                            runtime,
                            core,
                            model,
                            config,
                            device,
                            i@,
                            o@,
                            r,
                        ),
                    },
            };
        let output = choose|output: Result<String, String>| #[trigger]
            call_ensures(R::output_name, (&runtime, &model, config.output_index), output)
                && match output {
                Err(m) => false,
                Ok(o) => openvino_engine::compiled(
                    runtime,
                    core,
                    model,
                    config,
                    device,
                    (input->Ok_0)@,
                    o@,
                    r,
                ),
            };
        let done = choose|done: Result<R::Compiled, String>| #[trigger]
            call_ensures(R::compile, (&runtime, &core, &model, device), done) && match done {
                Err(m) => false,
                Ok(ready) => exists|made: Result<R::Request, String>| #[trigger]
                    call_ensures(R::create_request, (&runtime, &ready), made) && made is Ok
                        && r->Ok_0.pending() == made->Ok_0,
            };
        let made = choose|made: Result<R::Request, String>| #[trigger]
            call_ensures(R::create_request, (&runtime, &(done->Ok_0)), made) && made is Ok
                && r->Ok_0.pending() == made->Ok_0;
        assert(model_compiled(
            runtime,
            path,
            device,
            core,
            model,
            config.output_index,
            input->Ok_0,
            output->Ok_0,
            done->Ok_0,
            made->Ok_0,
        ));
    }
}

/// A configuration is valid where its input has an area, its scale is a finite number
/// other than zero, a category mask names its class, and its threshold, if there is
/// one, lies between zero and one.
pub proof fn law_model_config_valid(c: &ModelConfig, r: Result<(), InferenceError>)
    requires
        call_ensures(ModelConfig::validate, (c,), r),
    ensures
        r is Ok <==> {
            &&& c.input_width > 0
            &&& c.input_height > 0
            &&& c.input_scale != 0u32
            &&& c.input_scale != 0x8000_0000u32
            &&& (c.input_scale as int) % 0x8000_0000 < 0x7F80_0000
            &&& (c.output_type == OutputType::CategoryMask ==> c.person_class_index is Some)
            &&& (c.threshold matches Some(t) ==> float_bits::value_at_least(t, 0u32)
                && float_bits::value_at_least(0x3F80_0000u32, t))
        },
        r matches Err(e) ==> e is InvalidModelConfig,
{
}

/// A configuration that was found is used as it is where it is valid and refused where
/// it is not; without one a placeholder of one pixel stands in, and a failure to read
/// one is the outcome.
pub proof fn law_sidecar(
    found: Option<Result<ModelConfig, InferenceError>>,
    r: Result<ModelConfig, InferenceError>,
    valid: Result<(), InferenceError>,
)
    requires
        call_ensures(loader::load_sidecar_or_placeholder, (found,), r),
        found matches Some(Ok(c)) ==> call_ensures(ModelConfig::validate, (&c,), valid),
    ensures
        found is None ==> (r matches Ok(c) && c.input_width == 1 && c.input_height == 1),
        found matches Some(Err(e)) ==> r == Err::<ModelConfig, InferenceError>(e),
        found matches Some(Ok(c)) ==> (valid is Ok ==> r == Ok::<ModelConfig, InferenceError>(c))
            && (valid is Err ==> r is Err),
{
}

/// The configuration that is given by path is the one that is read; only without one
/// is the file next to the model asked for.
pub proof fn law_model_config_source<L: ModelLoader>(
    l: &L,
    model: &str,
    given: Option<&str>,
    r: Result<ModelConfig, InferenceError>,
)
    requires
        call_ensures(loader::load_model_config::<L>, (l, model, given), r),
        r is Ok,
    ensures
        given matches Some(path) ==> exists|p: &str|
            p@ == path@ && #[trigger] call_ensures(L::read_config, (l, p), r),
        given is None ==> exists|m: &str, found: Option<Result<ModelConfig, InferenceError>>|
            m@ == model@ && #[trigger] call_ensures(L::find_config, (l, m), found) && (found is Some
                ==> found == Some(r)),
{
}

} // verus!
