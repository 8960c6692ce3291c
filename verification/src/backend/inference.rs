//! Choice of an inference engine, and a fallback from one engine to another.

use vstd::prelude::*;
use crate::backend::overrides::{BackendOverrides, InferenceBackendChoice};
use crate::error::InferenceError;
use crate::metrics::{CounterValues, Counters};
use crate::ml::engine;
use crate::ml::model_config::ModelConfig;
use crate::ml::onnx::{self, OnnxEngine, OnnxRuntime};
use crate::ml::openvino_engine::{self, OpenVinoEngine, OpenVinoRuntime};
use crate::traits::{
    EngineCall, EngineRules, EngineState, InferenceEngine, InferenceInput, InferenceOutput, LoadedEngine, ModelInfo,
};

verus! {

/// Environment variable for the OpenVINO device.
pub const ENV_OPENVINO_DEVICE: &'static str = "FLUXFRAME_OPENVINO_DEVICE";

/// OpenVINO device where none is given: the best accelerator at hand.
pub const DEFAULT_OPENVINO_DEVICE: &'static str = "AUTO:NPU,GPU,CPU";

/// The OpenVINO device for the value of its environment variable.
#[must_use]
pub fn openvino_device(value: Option<String>) -> (r: String)
    ensures
        r@ == (match value {
            Some(v) => v@,
            None => DEFAULT_OPENVINO_DEVICE@,
        }),
{
    match value {
        Some(v) => v,
        None => DEFAULT_OPENVINO_DEVICE.to_owned(),
    }
}

/// An engine, and what runs it.
pub struct BuiltEngine {
    /// The engine.
    pub engine: LoadedEngine,
    /// Name of the backend, for logs.
    pub backend: String,
}

/// Whether `l` is the engine `e` behind a pointer.
pub open spec fn holds<E: InferenceEngine>(l: LoadedEngine, e: E) -> bool {
    l.engine.rules() == e.rules() && l.engine.state() == e.state()
}

/// Whether `r` is the engine `e` on `backend`.
pub open spec fn built_on<E: InferenceEngine>(
    r: Result<BuiltEngine, InferenceError>,
    e: E,
    backend: Seq<char>,
) -> bool {
    r matches Ok(b) && holds(b.engine, e) && b.backend@ == backend
}

/// Whether loading with the ONNX runtime may lead to `r`.
pub open spec fn onnx_built<O: OnnxRuntime>(
    runtime: O,
    path: &str,
    config: ModelConfig,
    r: Result<BuiltEngine, InferenceError>,
) -> bool {
    exists|loaded: Result<OnnxEngine<O>, InferenceError>| #[trigger]
        onnx::may_load(runtime, path, config, loaded) && match loaded {
            Ok(e) => built_on(r, e, "cpu"@),
            Err(e) => r == Err::<BuiltEngine, InferenceError>(e),
        }
}

/// Name of the OpenVINO backend on a device.
pub open spec fn openvino_name(device: Seq<char>) -> Seq<char> {
    "openvino["@ + device + "]"@
}

fn build_onnx<O: OnnxRuntime + 'static>(runtime: O, path: &str, config: ModelConfig) -> (r: Result<
    BuiltEngine,
    InferenceError,
>)
    ensures
        onnx_built(runtime, path, config, r),
{
    let loaded = OnnxEngine::load(runtime, path, config);
    match loaded {
        Ok(e) => Ok(
            BuiltEngine {
                engine: LoadedEngine { engine: Box::new(e) },
                backend: "cpu".to_owned(),
            },
        ),
        Err(e) => Err(e),
    }
}

fn built_openvino<V: OpenVinoRuntime + 'static>(loaded: OpenVinoEngine<V>, device: &str) -> (r:
    BuiltEngine)
    ensures
        holds(r.engine, loaded),
        r.backend@ == openvino_name(device@),
{
    let mut backend = "openvino[".to_owned();
    backend.append(device);
    backend.append("]");
    BuiltEngine { engine: LoadedEngine { engine: Box::new(loaded) }, backend }
}

/// Whether `e` reports that OpenVINO is not built in.
pub open spec fn not_built_in(e: InferenceError) -> bool {
    engine::unavailable(
        e,
        "FLUXFRAME_FORCE_INFERENCE_BACKEND=openvino but the `openvino` Cargo feature is disabled in this build"@,
        "rebuild with `--features fluxframe-effects/openvino` or unset the override"@,
    )
}

/// Choose and load an inference engine.
///
/// `Cpu` gives the ONNX runtime, `OpenVino` gives OpenVINO on `device` or its
/// error, `Auto` tries OpenVINO first and takes the ONNX runtime where that
/// fails.  Without an OpenVINO runtime the backend is not built in.  Each choice
/// gives exactly one engine, so there is no transition to count.
pub fn build_inference_engine<O: OnnxRuntime + 'static, V: OpenVinoRuntime + 'static>(
    model_path: &str,
    config: ModelConfig,
    overrides: BackendOverrides,
    device: &str,
    onnx_runtime: O,
    openvino_runtime: Option<V>,
    _counters: Option<Counters>,
) -> (r: Result<BuiltEngine, InferenceError>)
    ensures
        match overrides.inference {
            InferenceBackendChoice::Cpu => onnx_built(onnx_runtime, model_path, config, r),
            InferenceBackendChoice::OpenVino => match openvino_runtime {
                None => r matches Err(e) && not_built_in(e),
                Some(v) => exists|loaded: Result<OpenVinoEngine<V>, InferenceError>| #[trigger]
                    openvino_engine::may_load(v, model_path, config, device, loaded)
                        && match loaded {
                        Ok(e) => built_on(r, e, openvino_name(device@)),
                        Err(e) => r == Err::<BuiltEngine, InferenceError>(e),
                    },
            },
            InferenceBackendChoice::Auto => match openvino_runtime {
                None => onnx_built(onnx_runtime, model_path, config, r),
                Some(v) => exists|loaded: Result<OpenVinoEngine<V>, InferenceError>| #[trigger]
                    openvino_engine::may_load(v, model_path, config, device, loaded)
                        && match loaded {
                        Ok(e) => built_on(r, e, openvino_name(device@)),
                        Err(_) => onnx_built(onnx_runtime, model_path, config, r),
                    },
            },
        },
{
    match overrides.inference {
        InferenceBackendChoice::Cpu => build_onnx(onnx_runtime, model_path, config),
        InferenceBackendChoice::OpenVino => match openvino_runtime {
            None => Err(
                InferenceError::BackendUnavailable {
                    reason: "FLUXFRAME_FORCE_INFERENCE_BACKEND=openvino but the `openvino` Cargo feature is disabled in this build".to_owned(),
                    hint: "rebuild with `--features fluxframe-effects/openvino` or unset the override".to_owned(),
                },
            ),
            Some(v) => {
                let loaded = OpenVinoEngine::load(v, model_path, config, device);
                match loaded {
                    Ok(e) => Ok(built_openvino(e, device)),
                    Err(e) => Err(e),
                }
            },
        },
        InferenceBackendChoice::Auto => match openvino_runtime {
            None => build_onnx(onnx_runtime, model_path, config),
            Some(v) => {
                let loaded = OpenVinoEngine::load(v, model_path, config.clone(), device);
                match loaded {
                    Ok(e) => Ok(built_openvino(e, device)),
                    Err(_) => build_onnx(onnx_runtime, model_path, config),
                }
            },
        },
    }
}

/// Sticky one-way fallback from a primary engine to a secondary.
///
/// The first error of the primary is counted, the primary is dropped, and the
/// same call goes to the secondary; so does every later one.
pub struct StickyInferenceFallback {
    primary: Option<LoadedEngine>,
    secondary: LoadedEngine,
    primary_name: &'static str,
    secondary_name: &'static str,
    counters: Counters,
    plan: Ghost<(EngineRules, EngineRules)>,
}

/// The counters after one more fallback.
pub open spec fn one_more_fallback(c: CounterValues) -> CounterValues {
    CounterValues {
        inference_runtime_fallback_gpu_to_cpu: c.inference_runtime_fallback_gpu_to_cpu.wrapping_add(
            1,
        ),
        ..c
    }
}

/// Whether a fallback from an engine with the rules `first` to one with the rules
/// `second` may answer a question: while the primary is there its success is the
/// answer, and its failure drops it, is counted, and sends the same question to
/// the secondary; later questions go to the secondary.
pub open spec fn falls_back(
    first: EngineRules,
    second: EngineRules,
    s: EngineState,
    c: EngineCall,
    t: EngineState,
) -> bool {
    s.intact ==> {
        &&& t.intact
        &&& t.info == t.parts[0].info
        &&& if s.parts.len() == 2 {
            exists|q: EngineCall, left: EngineState|
                {
                    &&& #[trigger] (first.infer)(s.parts[0], q, left)
                    &&& q.data == c.data
                    &&& q.shape == c.shape
                    &&& if q.r is Ok {
                        &&& c.r == q.r
                        &&& t.parts == seq![left, s.parts[1]]
                        &&& t.tally == s.tally
                    } else {
                        &&& (second.infer)(s.parts[1], c, t.parts[0])
                        &&& t.parts.len() == 1
                        &&& t.tally == Some(one_more_fallback(s.tally->0))
                    }
                }
        } else {
            &&& (second.infer)(s.parts[0], c, t.parts[0])
            &&& t.parts.len() == 1
            &&& t.tally == s.tally
        }
    }
}

/// What a fallback may do.
pub open spec fn fallback_rules(first: EngineRules, second: EngineRules) -> EngineRules {
    EngineRules {
        infer: |s: EngineState, c: EngineCall, t: EngineState| falls_back(first, second, s, c, t),
    }
}

impl StickyInferenceFallback {
    /// The primary, until it has failed.
    pub closed spec fn first(&self) -> Option<LoadedEngine> {
        self.primary
    }

    /// The secondary.
    pub closed spec fn second(&self) -> LoadedEngine {
        self.secondary
    }

    /// The counters.
    pub closed spec fn counted(&self) -> Counters {
        self.counters
    }

    /// Wrap two engines; the names are those of the transition's diagnostics.
    #[must_use]
    pub fn new(
        primary: LoadedEngine,
        secondary: LoadedEngine,
        primary_name: &'static str,
        secondary_name: &'static str,
        counters: Counters,
    ) -> (r: Self)
        ensures
            r.first() == Some(primary),
            r.second() == secondary,
            r.counted() == counters,
            r.names() == (primary_name@, secondary_name@),
            r.built_with() == (primary.engine.rules(), secondary.engine.rules()),
            r.intact(),
    {
        StickyInferenceFallback {
            primary: Some(primary),
            secondary,
            primary_name,
            secondary_name,
            counters,
            plan: Ghost((primary.engine.rules(), secondary.engine.rules())),
        }
    }

    /// Rules of the two engines that the fallback was built with.
    pub closed spec fn built_with(&self) -> (EngineRules, EngineRules) {
        self.plan@
    }

    /// Whether the engines are those that the fallback was built with.
    pub open spec fn intact(&self) -> bool {
        &&& self.second().engine.rules() == self.built_with().1
        &&& self.first() matches Some(p) ==> p.engine.rules() == self.built_with().0
    }

    /// Whether the primary has failed.
    #[must_use]
    pub fn has_fallen_back(&self) -> (r: bool)
        ensures
            r == self.first() is None,
    {
        self.primary.is_none()
    }

    /// The counters.
    #[must_use]
    pub fn counters(&self) -> (r: &Counters)
        ensures
            *r == self.counted(),
    {
        &self.counters
    }

    /// Names of the primary and the secondary.
    pub closed spec fn names(&self) -> (Seq<char>, Seq<char>) {
        (self.primary_name@, self.secondary_name@)
    }

    /// Names of the primary and the secondary for diagnostics.
    #[must_use]
    pub fn labels(&self) -> (r: (&'static str, &'static str))
        ensures
            (r.0@, r.1@) == self.names(),
    {
        (self.primary_name, self.secondary_name)
    }
}

/// Whether a call may leave `after` of `before` and answer `r` where the primary,
/// if it is there, answers `q`: its success is the answer, its failure drops it,
/// is counted, and sends the same call to the secondary.
pub open spec fn answered(
    before: &StickyInferenceFallback,
    after: &StickyInferenceFallback,
    data: Seq<u32>,
    shape: Seq<usize>,
    q: Result<InferenceOutput, InferenceError>,
    r: Result<InferenceOutput, InferenceError>,
) -> bool {
    &&& after.names() == before.names()
    &&& after.built_with() == before.built_with()
    &&& match before.first() {
        Some(p) => if q is Ok {
            &&& r == q
            &&& after.first() matches Some(kept) && p.answers(data, shape, kept, q)
            &&& after.second() == before.second()
            &&& after.counted() == before.counted()
        } else {
            &&& exists|left: LoadedEngine| #[trigger] p.answers(data, shape, left, q)
            &&& before.second().answers(data, shape, after.second(), r)
            &&& after.first() is None
            &&& after.counted()@ == one_more_fallback(before.counted()@)
        },
        None => {
            &&& before.second().answers(data, shape, after.second(), r)
            &&& after.first() is None
            &&& after.counted() == before.counted()
        },
    }
}

/// What a fallback does is what its rules allow.
proof fn lemma_answered(
    before: &StickyInferenceFallback,
    after: &StickyInferenceFallback,
    data: Seq<u32>,
    shape: Seq<usize>,
    q: Result<InferenceOutput, InferenceError>,
    r: Result<InferenceOutput, InferenceError>,
)
    requires
        answered(before, after, data, shape, q, r),
    ensures
        falls_back(
            before.built_with().0,
            before.built_with().1,
            before.state(),
            (EngineCall { data, shape, r }),
            after.state(),
        ),
{
    if before.intact() {
        let s = before.state();
        let t = after.state();
        match before.first() {
            Some(p) => {
                let asked = EngineCall { data, shape, r: q };
                if q is Ok {
                    let kept = after.first()->0;
                    assert(p.answers(data, shape, kept, q));
                    assert((before.built_with().0.infer)(s.parts[0], asked, kept.engine.state()));
                    assert(t.parts =~= seq![kept.engine.state(), s.parts[1]]);
                } else {
                    let left = choose|left: LoadedEngine| #[trigger]
                        p.answers(data, shape, left, q);
                    assert((before.built_with().0.infer)(s.parts[0], asked, left.engine.state()));
                }
            },
            None => {},
        }
    }
}

impl InferenceEngine for StickyInferenceFallback {
    open spec fn rules(&self) -> EngineRules {
        fallback_rules(self.built_with().0, self.built_with().1)
    }

    open spec fn state(&self) -> EngineState {
        let second = self.second().engine.state();
        let parts = match self.first() {
            Some(p) => seq![p.engine.state(), second],
            None => seq![second],
        };
        EngineState {
            info: parts[0].info,
            tally: Some(self.counted()@),
            parts,
            intact: self.intact(),
        }
    }

    fn model_info(&self) -> (r: ModelInfo) {
        match &self.primary {
            Some(p) => p.engine.model_info(),
            None => self.secondary.engine.model_info(),
        }
    }

    fn infer(&mut self, input: InferenceInput<'_>) -> (r: Result<InferenceOutput, InferenceError>)
        ensures
            exists|q: Result<InferenceOutput, InferenceError>| #[trigger]
                answered(old(self), final(self), input.data@, input.shape@, q, r),
    {
        let r = match &mut self.primary {
            None => self.secondary.engine.infer(input),
            Some(p) => {
                let ghost asked = *p;
                let q = p.engine.infer(input);
                assert(asked.answers(input.data@, input.shape@, *p, q));
                if q.is_ok() {
                    assert(answered(old(self), self, input.data@, input.shape@, q, q));
                    proof {
                        lemma_answered(old(self), self, input.data@, input.shape@, q, q);
                    }
                    return q;
                }
                self.counters.inc_inference_runtime_fallback_gpu_to_cpu();
                self.primary = None;
                let r = self.secondary.engine.infer(input);
                assert(answered(old(self), self, input.data@, input.shape@, q, r));
                proof {
                    lemma_answered(old(self), self, input.data@, input.shape@, q, r);
                }
                return r;
            },
        };
        assert(answered(old(self), self, input.data@, input.shape@, r, r));
        proof {
            lemma_answered(old(self), self, input.data@, input.shape@, r, r);
        }
        r
    }

    fn published(&self) -> (r: Option<&Counters>)
        ensures
            r matches Some(c) && *c == self.counted(),
    {
        Some(&self.counters)
    }
}

/// A call on a fallback, and what came of it.
pub ghost struct StickyCall {
    /// The input values.
    pub data: Seq<u32>,
    /// The input shape.
    pub shape: Seq<usize>,
    /// What the primary answers, if it is there.
    pub first: Result<InferenceOutput, InferenceError>,
    /// What is answered.
    pub r: Result<InferenceOutput, InferenceError>,
}

/// Whether call `i` leads from state `i` to the next.
pub open spec fn stepped_at(
    states: Seq<StickyInferenceFallback>,
    calls: Seq<StickyCall>,
    i: int,
) -> bool {
    let call = calls[i];
    answered(&states[i], &states[i + 1], call.data, call.shape, call.first, call.r)
}

/// Whether `calls` may lead through `states`.
pub open spec fn history(states: Seq<StickyInferenceFallback>, calls: Seq<StickyCall>) -> bool {
    &&& states.len() == calls.len() + 1
    &&& forall|i: int| 0 <= i < calls.len() ==> #[trigger] stepped_at(states, calls, i)
}

/// Whether call `i` is one that the primary fails.
pub open spec fn primary_fails_at(
    states: Seq<StickyInferenceFallback>,
    calls: Seq<StickyCall>,
    i: int,
) -> bool {
    states[i].first() is Some && calls[i].first is Err
}

/// Over any calls, a fallback leaves the primary exactly when the primary fails,
/// never goes back to it, and counts that once.
pub proof fn law_falls_back_once(states: Seq<StickyInferenceFallback>, calls: Seq<StickyCall>)
    requires
        history(states, calls),
        states[0].first() is Some,
    ensures
        states.last().first() is None <==> exists|i: int|
            0 <= i < calls.len() && #[trigger] primary_fails_at(states, calls, i),
        forall|i: int, j: int|
            0 <= i <= j < states.len() && (#[trigger] states[i]).first() is None ==> (
            #[trigger] states[j]).first() is None,
        states.last().counted()@.inference_runtime_fallback_gpu_to_cpu == (
        if states.last().first() is None {
            states[0].counted()@.inference_runtime_fallback_gpu_to_cpu.wrapping_add(1)
        } else {
            states[0].counted()@.inference_runtime_fallback_gpu_to_cpu
        }),
    decreases calls.len(),
{
    if calls.len() > 0 {
        let n = calls.len() - 1;
        let earlier = states.drop_last();
        let fewer = calls.drop_last();
        assert forall|i: int| 0 <= i < fewer.len() implies #[trigger] stepped_at(
            earlier,
            fewer,
            i,
        ) by {
            assert(stepped_at(states, calls, i));
        }
        law_falls_back_once(earlier, fewer);
        assert(stepped_at(states, calls, n));
        assert(earlier.last() == states[n]);
        assert forall|i: int| 0 <= i < n implies #[trigger] primary_fails_at(states, calls, i)
            == primary_fails_at(earlier, fewer, i) by {}
        if earlier.last().first() is None {
            let i = choose|i: int| 0 <= i < n && #[trigger] primary_fails_at(earlier, fewer, i);
            assert(primary_fails_at(states, calls, i));
        } else if states.last().first() is None {
            assert(primary_fails_at(states, calls, n));
        }
        assert forall|i: int, j: int|
            0 <= i <= j < states.len() && (#[trigger] states[i]).first() is None implies (
        #[trigger] states[j]).first() is None by {
            if j < states.len() - 1 {
                assert(earlier[i].first() is None);
                assert(earlier[j].first() is None);
            } else if i < j {
                assert(earlier[i].first() is None);
                assert(earlier[n].first() is None);
            }
        }
    }
}

} // verus!
