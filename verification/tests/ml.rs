//! Model configuration, tensors and inference engines.

use fluxframe::error::InferenceError;
use fluxframe::frame::PixelFormat;
use fluxframe::ml::engine::RawOutput;
use fluxframe::ml::loader::load_sidecar_or_placeholder;
use fluxframe::ml::model_config::{
    ModelConfig, OutputLayout, OutputType, TensorDType, TensorLayout,
};
use fluxframe::ml::onnx::{
    map_backend_or_load_error, CommittedModel, OnnxEngine, OnnxRuntime, PathProblem, RunProblem,
};
use fluxframe::ml::openvino_engine::{
    map_setup_error, OpenVinoEngine, OpenVinoRuntime, RequestProblem,
};
use fluxframe::ml::tensor::{decode_mask, input_shape, pack_input};
use fluxframe::pixel_math::{PixelMath, Resize};
use fluxframe::traits::{InferenceEngine, InferenceInput};

struct Math;

impl PixelMath for Math {
    fn normalise(&self, v: u8, scale: u32, zero: u32) -> u32 {
        ((f32::from(v) - f32::from_bits(zero)) * f32::from_bits(scale)).to_bits()
    }

    fn sigmoid(&self, x: u32) -> u32 {
        (1.0 / (1.0 + (-f32::from_bits(x)).exp())).to_bits()
    }

    fn softmax(&self, background: u32, foreground: u32) -> u32 {
        let (b, f) = (f32::from_bits(background), f32::from_bits(foreground));
        let max = b.max(f);
        let n = (f - max).exp();
        (n / ((b - max).exp() + n)).to_bits()
    }

    fn is_class(&self, v: u32, class: u32) -> bool {
        (f32::from_bits(v) - class as f32).abs() < 0.5
    }

    fn sample_rgb(&self, src: &[u8], _size: Resize, i: usize) -> u8 {
        src[i]
    }

    fn sample_mask(&self, src: &[u32], _size: Resize, i: usize) -> u32 {
        src[i]
    }

    fn blend(&self, foreground: u8, _background: u8, _confidence: u32) -> u8 {
        foreground
    }

    fn smooth(&self, _previous: u32, current: u32, _factor: u32) -> u32 {
        current
    }

    fn feather(&self, src: &[u32], _w: u32, _h: u32, _radius: u32, i: usize) -> u32 {
        src[i]
    }
}

fn bits(values: &[f32]) -> Vec<u32> {
    values.iter().map(|v| v.to_bits()).collect()
}

fn decode(config: &ModelConfig, data: &[f32], shape: &[usize], pixels: usize) -> Vec<f32> {
    let mut dst = vec![0u32; pixels];
    decode_mask("test", &bits(data), shape, &mut dst, config, &Math).expect("ok");
    dst.iter().map(|b| f32::from_bits(*b)).collect()
}

fn pack(src: &[u8], layout: TensorLayout, h: u32, w: u32, scale: f32, zero: f32) -> Vec<f32> {
    let mut dst = vec![0u32; src.len()];
    pack_input(src, &mut dst, layout, h, w, scale.to_bits(), zero.to_bits(), &Math);
    dst.iter().map(|b| f32::from_bits(*b)).collect()
}

// ---------------------------------------------------------------------------
// Decoding
// ---------------------------------------------------------------------------

fn check_mask_output() {
    let cfg = ModelConfig::new("t", 2, 2);
    let data = vec![0.1_f32, 0.9, 0.5, 0.0];
    assert_eq!(decode(&cfg, &data, &[2, 2], 4), data);
}

fn check_category_mask() {
    let mut cfg = ModelConfig::new("t", 2, 2);
    cfg.output_type = OutputType::CategoryMask;
    cfg.person_class_index = Some(15);
    let data = vec![0.0_f32, 15.0, 7.0, 15.0];
    assert_eq!(decode(&cfg, &data, &[2, 2], 4), vec![0.0, 1.0, 0.0, 1.0]);
}

fn check_two_channel_logits_nhwc() {
    let mut cfg = ModelConfig::new("t", 1, 1);
    cfg.output_type = OutputType::Logits;
    cfg.output_layout = OutputLayout::Nhwc;
    let dst = decode(&cfg, &[-10.0, 10.0], &[1, 1, 1, 2], 1);
    assert!(dst[0] > 0.99, "got {}", dst[0]);
}

fn check_nhwc_identity() {
    let src = vec![0u8, 1, 2, 3, 4, 5, 6, 7, 8, 9, 10, 11];
    let expected: Vec<f32> = src.iter().map(|&v| f32::from(v)).collect();
    assert_eq!(pack(&src, TensorLayout::Nhwc, 2, 2, 1.0, 0.0), expected);
}

fn check_nchw_transposes() {
    let src = vec![10u8, 20, 30, 40, 50, 60];
    assert_eq!(
        pack(&src, TensorLayout::Nchw, 1, 2, 1.0, 0.0),
        vec![10.0, 40.0, 20.0, 50.0, 30.0, 60.0]
    );
}

#[test]
fn background_blur_decode_mask_passes_through_mask_output() {
    check_mask_output();
}

#[test]
fn segmentation_decode_mask_passes_through_mask_output() {
    check_mask_output();
}

#[test]
fn background_blur_decode_mask_handles_category_mask() {
    check_category_mask();
}

#[test]
fn segmentation_decode_mask_handles_category_mask() {
    check_category_mask();
}

#[test]
fn background_blur_decode_mask_softmaxes_two_channel_logits_nhwc() {
    check_two_channel_logits_nhwc();
}

#[test]
fn segmentation_decode_mask_softmaxes_two_channel_logits_nhwc() {
    check_two_channel_logits_nhwc();
}

#[test]
fn decode_mask_handles_nhwc_probabilities() {
    let mut cfg = ModelConfig::new("t", 2, 2);
    cfg.output_type = OutputType::Probabilities;
    cfg.output_layout = OutputLayout::Nhwc;
    let data = vec![0.2_f32, 0.8, 0.7, 0.3, 0.1, 0.9, 0.5, 0.5];
    let dst = decode(&cfg, &data, &[1, 2, 2, 2], 4);
    assert!((dst[0] - 0.8).abs() < 1e-6, "p0 got {}", dst[0]);
    assert!((dst[1] - 0.3).abs() < 1e-6, "p1 got {}", dst[1]);
    assert!((dst[2] - 0.9).abs() < 1e-6, "p2 got {}", dst[2]);
    assert!((dst[3] - 0.5).abs() < 1e-6, "p3 got {}", dst[3]);
}

#[test]
fn decode_mask_handles_hw_logits() {
    let mut cfg = ModelConfig::new("t", 2, 2);
    cfg.output_type = OutputType::Logits;
    cfg.output_layout = OutputLayout::Hw;
    let dst = decode(&cfg, &[2.0, -2.0, 0.0, 1.0], &[2, 2], 4);
    assert!(dst[0] > 0.85, "p0 got {}", dst[0]);
    assert!(dst[1] < 0.15, "p1 got {}", dst[1]);
    assert!((dst[2] - 0.5).abs() < 1e-6, "p2 got {}", dst[2]);
    assert!(dst[3] > dst[2] && dst[3] < dst[0], "p3 got {}", dst[3]);
    assert!(dst[1] < dst[2], "monotone: dst[1] !< dst[2]");
    assert!(dst[2] < dst[3], "monotone: dst[2] !< dst[3]");
    assert!(dst[3] < dst[0], "monotone: dst[3] !< dst[0]");
}

#[test]
fn decode_mask_softmaxes_two_channel_logits_nchw() {
    let mut cfg = ModelConfig::new("t", 2, 1);
    cfg.output_type = OutputType::Logits;
    cfg.output_layout = OutputLayout::Nchw;
    let dst = decode(&cfg, &[-10.0, 10.0, 10.0, -10.0], &[1, 2, 1, 2], 2);
    assert!(dst[0] > 0.99, "p0 got {}", dst[0]);
    assert!(dst[1] < 0.01, "p1 got {}", dst[1]);
}

#[test]
fn decode_mask_refuses_short_outputs() {
    let mut cfg = ModelConfig::new("t", 2, 2);
    let mut dst = vec![7u32; 4];
    let err = decode_mask("seg", &[0; 3], &[3], &mut dst, &cfg, &Math).expect_err("short");
    assert_eq!(
        err.to_string(),
        "effect 'seg' failed while processing frame: model output has 3 elements, expected at least 4"
    );
    assert_eq!(dst, vec![7u32; 4]);
    cfg.output_type = OutputType::CategoryMask;
    let err = decode_mask("seg", &[0; 3], &[3], &mut dst, &cfg, &Math).expect_err("short");
    assert!(err.to_string().contains("category mask shorter than expected"));
    cfg.output_type = OutputType::Probabilities;
    cfg.output_layout = OutputLayout::Nchw;
    let err = decode_mask("seg", &[0; 7], &[1, 7], &mut dst, &cfg, &Math).expect_err("neither");
    assert!(
        err.to_string().contains(
            "NCHW output has 7 elements; expected 4 (C=1) or 8 (C=2) — shape [1, 7]"
        ),
        "{}",
        err.to_string()
    );
}

// ---------------------------------------------------------------------------
// Packing
// ---------------------------------------------------------------------------

#[test]
fn background_blur_pack_input_nhwc_matches_identity() {
    check_nhwc_identity();
}

#[test]
fn segmentation_pack_input_nhwc_matches_identity() {
    check_nhwc_identity();
}

#[test]
fn background_blur_pack_input_nchw_transposes_channels() {
    check_nchw_transposes();
}

#[test]
fn segmentation_pack_input_nchw_transposes_channels() {
    check_nchw_transposes();
}

#[test]
fn pack_input_applies_scale_and_zero() {
    let dst = pack(&[10u8, 110, 210], TensorLayout::Nhwc, 1, 1, 0.01, 10.0);
    assert!((dst[0] - 0.0).abs() < 1e-6);
    assert!((dst[1] - 1.0).abs() < 1e-6);
    assert!((dst[2] - 2.0).abs() < 1e-6);
}

#[test]
fn packing_uses_every_place_once() {
    let src: Vec<u8> = (0..(4 * 3 * 3)).collect();
    let mut packed: Vec<u8> = pack(&src, TensorLayout::Nchw, 3, 4, 1.0, 0.0)
        .iter()
        .map(|v| *v as u8)
        .collect();
    packed.sort_unstable();
    assert_eq!(packed, src);
}

#[test]
fn input_shapes_follow_the_layout() {
    assert_eq!(input_shape(TensorLayout::Nhwc, 144, 256), vec![1, 144, 256, 3]);
    assert_eq!(input_shape(TensorLayout::Nchw, 144, 256), vec![1, 3, 144, 256]);
}

// ---------------------------------------------------------------------------
// Model configuration
// ---------------------------------------------------------------------------

fn refusal(cfg: &ModelConfig) -> String {
    cfg.validate().expect_err("must fail").to_string()
}

#[test]
fn parses_full_config() {
    let mut cfg = ModelConfig::new("person-seg", 256, 144);
    cfg.input_scale = 0.003921568627_f32.to_bits();
    cfg.threshold = Some(0.5_f32.to_bits());
    let cfg = load_sidecar_or_placeholder(Some(Ok(cfg))).expect("valid");
    assert_eq!(cfg.name, "person-seg");
    assert_eq!(cfg.input_width, 256);
    assert_eq!(cfg.input_layout, TensorLayout::Nhwc);
    assert_eq!(cfg.output_type, OutputType::Mask);
    assert_eq!(cfg.threshold.map(f32::from_bits), Some(0.5));
}

#[test]
fn applies_defaults_when_omitted() {
    let cfg = ModelConfig::new("minimal", 64, 48);
    assert!(cfg.validate().is_ok());
    assert_eq!(cfg.input_layout, TensorLayout::Nhwc);
    assert_eq!(cfg.input_dtype, TensorDType::F32);
    assert_eq!(cfg.input_color, PixelFormat::Rgb);
    assert!((f32::from_bits(cfg.input_scale) - 1.0 / 255.0).abs() < 1e-6);
    assert!(f32::from_bits(cfg.input_zero_point).abs() < f32::EPSILON);
    assert_eq!(cfg.output_layout, OutputLayout::Hw);
    assert_eq!(cfg.output_type, OutputType::Mask);
    assert!(cfg.threshold.is_none());
}

#[test]
fn rejects_zero_dimensions() {
    let msg = refusal(&ModelConfig::new("bad", 0, 1));
    assert!(msg.contains("input_width"), "got: {msg}");
}

#[test]
fn rejects_nonfinite_scale() {
    let mut cfg = ModelConfig::new("x", 1, 1);
    cfg.input_scale = f32::NAN.to_bits();
    assert!(cfg.validate().is_err());
    cfg.input_scale = 0.0_f32.to_bits();
    assert!(cfg.validate().is_err());
    cfg.input_scale = (-0.0_f32).to_bits();
    assert!(cfg.validate().is_err());
    cfg.input_scale = f32::NEG_INFINITY.to_bits();
    assert!(cfg.validate().is_err());
}

#[test]
fn rejects_category_mask_without_class_index() {
    let mut cfg = ModelConfig::new("x", 1, 1);
    cfg.output_type = OutputType::CategoryMask;
    let msg = refusal(&cfg);
    assert!(msg.contains("person_class_index"), "got: {msg}");
}

#[test]
fn rejects_out_of_range_threshold() {
    let mut cfg = ModelConfig::new("x", 1, 1);
    cfg.threshold = Some(1.5_f32.to_bits());
    let msg = refusal(&cfg);
    assert!(msg.contains("threshold"), "got: {msg}");
}

#[test]
fn accepts_threshold_in_range() {
    let mut cfg = ModelConfig::new("x", 1, 1);
    cfg.threshold = Some(0.0_f32.to_bits());
    assert!(cfg.validate().is_ok());
    assert_eq!(cfg.threshold.map(f32::from_bits), Some(0.0));
}

#[test]
fn a_missing_sidecar_gives_a_placeholder() {
    let cfg = load_sidecar_or_placeholder(None).expect("placeholder");
    assert_eq!((cfg.input_width, cfg.input_height), (1, 1));
    assert_eq!(cfg.name, "<unknown>");
    let err = load_sidecar_or_placeholder(Some(Ok(ModelConfig::new("bad", 0, 0))))
        .expect_err("invalid");
    assert!(matches!(err, InferenceError::InvalidModelConfig { .. }));
}

// ---------------------------------------------------------------------------
// ONNX Runtime
// ---------------------------------------------------------------------------

/// A scripted runtime that answers with the tensor it is run on.
struct Script {
    path: Result<String, bool>,
    open: Result<(), &'static str>,
    commit: Result<(), &'static str>,
    inputs: usize,
    outputs: usize,
    returned: usize,
    run: Result<(), RunProblem>,
}

/// A session that remembers the file it was read from.
struct Opened {
    file: String,
}

fn script() -> Script {
    Script {
        path: Ok("/abs/m.onnx".to_string()),
        open: Ok(()),
        commit: Ok(()),
        inputs: 1,
        outputs: 2,
        returned: 2,
        run: Ok(()),
    }
}

impl OnnxRuntime for Script {
    type Builder = u8;
    type Session = Opened;

    fn canonicalize(&self, _path: &str) -> Result<String, PathProblem> {
        match &self.path {
            Ok(p) => Ok(p.clone()),
            Err(missing) => Err(PathProblem {
                missing: *missing,
                message: "os error".to_string(),
            }),
        }
    }

    fn open(&self) -> Result<u8, String> {
        self.open.map(|()| 7).map_err(str::to_string)
    }

    fn commit(&self, builder: u8, path: &str) -> Result<CommittedModel<Opened>, String> {
        assert_eq!(builder, 7);
        self.commit.map_err(str::to_string)?;
        Ok(CommittedModel {
            session: Opened {
                file: path.to_string(),
            },
            inputs: (0..self.inputs).map(|_| "pixels".to_string()).collect(),
            outputs: (0..self.outputs).map(|i| format!("out{i}")).collect(),
        })
    }

    fn run(
        &self,
        session: &Opened,
        input: &str,
        shape: &[usize],
        data: &[u32],
    ) -> Result<Vec<Result<RawOutput, String>>, RunProblem> {
        assert_eq!(session.file, "/abs/m.onnx");
        assert_eq!(input, "pixels");
        match &self.run {
            Ok(()) => {}
            Err(RunProblem::Tensor(m)) => return Err(RunProblem::Tensor(m.clone())),
            Err(RunProblem::Session(m)) => return Err(RunProblem::Session(m.clone())),
        }
        Ok((0..self.returned)
            .map(|index| {
                if shape.is_empty() {
                    return Err("no floats".to_string());
                }
                Ok(RawOutput {
                    dims: vec![1, index as i64],
                    data: data.to_vec(),
                })
            })
            .collect())
    }
}

fn second_output() -> ModelConfig {
    let mut cfg = ModelConfig::new("m", 1, 1);
    cfg.output_index = 1;
    cfg
}

#[test]
fn rejects_missing_model_file() {
    let mut s = script();
    s.path = Err(true);
    match OnnxEngine::load(s, "/nonexistent/model.onnx", ModelConfig::new("x", 1, 1)) {
        Ok(_) => panic!("expected error for missing model"),
        Err(InferenceError::ModelNotFound { path }) => assert_eq!(path, "/nonexistent/model.onnx"),
        Err(other) => panic!("unexpected error variant: {other:?}"),
    }
}

#[test]
fn onnx_engine_runs_the_selected_output() {
    let mut engine = match OnnxEngine::load(script(), "m.onnx", second_output()) {
        Ok(e) => e,
        Err(e) => panic!("loads: {e:?}"),
    };
    assert_eq!(engine.input_count(), 1);
    assert_eq!(engine.output_count(), 2);
    assert_eq!(engine.config().output_index, 1);
    assert_eq!(engine.model_info().name, "m");
    let out = engine
        .infer(InferenceInput {
            data: &[5, 6],
            shape: &[1, 2],
        })
        .expect("runs");
    assert_eq!(out.data, vec![5, 6]);
    assert_eq!(out.shape, vec![1, 1]);
    let err = engine
        .infer(InferenceInput {
            data: &[5, 6],
            shape: &[1, 3],
        })
        .expect_err("wrong shape");
    assert_eq!(
        err.to_string(),
        "inference failed: input length 2 mismatches shape [1, 3] (= 3)"
    );
}

#[test]
fn onnx_engine_reports_each_failure() {
    let mut s = script();
    s.path = Err(false);
    let err = OnnxEngine::load(s, "m.onnx", second_output()).err().expect("denied");
    assert!(err.to_string().contains("cannot canonicalize m.onnx: os error"));

    let mut s = script();
    s.open = Err("cannot dlopen libonnxruntime.so");
    let err = OnnxEngine::load(s, "m.onnx", second_output()).err().expect("no library");
    assert!(matches!(err, InferenceError::BackendUnavailable { .. }));

    let mut s = script();
    s.outputs = 1;
    let err = OnnxEngine::load(s, "m.onnx", second_output()).err().expect("one output");
    assert!(matches!(err, InferenceError::InvalidModelConfig { .. }));

    let mut s = script();
    s.commit = Err("bad opset");
    let err = OnnxEngine::load(s, "m.onnx", second_output()).err().expect("no model");
    assert!(err.to_string().contains("commit_from_file(/abs/m.onnx): bad opset"));

    let mut s = script();
    s.inputs = 0;
    let err = OnnxEngine::load(s, "m.onnx", second_output()).err().expect("no inputs");
    assert!(err.to_string().contains("model has no inputs"));

    for (problem, text) in [
        (RunProblem::Tensor("odd".to_string()), "tensor build: odd"),
        (RunProblem::Session("lost".to_string()), "session.run: lost"),
    ] {
        let mut s = script();
        s.run = Err(problem);
        let mut engine = match OnnxEngine::load(s, "m.onnx", second_output()) {
            Ok(e) => e,
            Err(e) => panic!("loads: {e:?}"),
        };
        let input = InferenceInput {
            data: &[1],
            shape: &[1],
        };
        assert!(engine.infer(input).expect_err("fails").to_string().contains(text));
    }

    let mut engine = match OnnxEngine::load(script(), "m.onnx", second_output()) {
        Ok(e) => e,
        Err(e) => panic!("loads: {e:?}"),
    };
    let input = InferenceInput {
        data: &[1],
        shape: &[],
    };
    let err = engine.infer(input).expect_err("no floats");
    assert!(err.to_string().contains("extract f32 tensor: no floats"));

    let mut s = script();
    s.returned = 1;
    let mut engine = match OnnxEngine::load(s, "m.onnx", second_output()) {
        Ok(e) => e,
        Err(e) => panic!("loads: {e:?}"),
    };
    let err = engine
        .infer(InferenceInput {
            data: &[1],
            shape: &[1],
        })
        .expect_err("fewer outputs");
    assert!(err.to_string().contains("output_index 1 out of range at infer time"));
}

#[test]
fn load_errors_are_told_apart() {
    assert!(matches!(
        map_backend_or_load_error("ORT_DYLIB_PATH is not set"),
        InferenceError::BackendUnavailable { .. }
    ));
    match map_backend_or_load_error("bad opset") {
        InferenceError::ModelLoadFailed { reason } => assert_eq!(reason, "session builder: bad opset"),
        other => panic!("{other:?}"),
    }
}

// ---------------------------------------------------------------------------
// OpenVINO
// ---------------------------------------------------------------------------

/// A library whose handles say how they were made, and which fails at one step.
struct Library {
    there: bool,
    fails_at: &'static str,
}

impl Library {
    fn step(&self, name: &str) -> Result<(), String> {
        if self.fails_at == name {
            Err("no".to_string())
        } else {
            Ok(())
        }
    }
}

/// A tensor: its dimensions and its values.
struct Values {
    dims: Vec<i64>,
    data: Vec<u32>,
}

impl OpenVinoRuntime for Library {
    type Core = &'static str;
    type Model = String;
    type Compiled = String;
    type Request = String;
    type Shape = Vec<i64>;
    type Tensor = Values;

    fn model_exists(&self, _path: &str) -> bool {
        self.there
    }

    fn start(&self) -> Result<&'static str, String> {
        self.step("start")?;
        Ok("core")
    }

    fn read_model(&self, core: &&'static str, path: &str) -> Result<String, String> {
        self.step("read")?;
        Ok(format!("{core}/{path}"))
    }

    fn input_name(&self, model: &String, index: usize) -> Result<String, String> {
        assert_eq!((model.as_str(), index), ("core/m.onnx", 0));
        self.step("input")?;
        Ok("in".to_string())
    }

    fn output_name(&self, model: &String, index: usize) -> Result<String, String> {
        assert_eq!(model, "core/m.onnx");
        if index < 2 {
            Ok(format!("out{index}"))
        } else {
            Err("no such port".to_string())
        }
    }

    fn compile(&self, core: &&'static str, model: &String, device: &str) -> Result<String, String> {
        self.step("compile")?;
        Ok(format!("{core}:{model}@{device}"))
    }

    fn create_request(&self, compiled: &String) -> Result<String, String> {
        self.step("request")?;
        Ok(compiled.clone())
    }

    fn new_shape(&self, dims: &[i64]) -> Result<Vec<i64>, String> {
        self.step("shape")?;
        Ok(dims.to_vec())
    }

    fn new_tensor(&self, shape: &Vec<i64>) -> Result<Values, String> {
        self.step("tensor")?;
        Ok(Values {
            dims: shape.clone(),
            data: Vec::new(),
        })
    }

    fn fill_tensor(&self, tensor: Values, data: &[u32]) -> Result<Values, String> {
        self.step("fill")?;
        Ok(Values {
            dims: tensor.dims,
            data: data.to_vec(),
        })
    }

    fn run(
        &self,
        request: &String,
        input: &str,
        tensor: &Values,
        output: &str,
    ) -> Result<RawOutput, RequestProblem> {
        assert_eq!(request, "core:core/m.onnx@CPU");
        assert_eq!((input, output), ("in", "out1"));
        self.step("bind").map_err(RequestProblem::Bind)?;
        self.step("run").map_err(RequestProblem::Run)?;
        self.step("fetch").map_err(RequestProblem::Fetch)?;
        self.step("dims").map_err(RequestProblem::Shape)?;
        self.step("data").map_err(RequestProblem::Data)?;
        let mut dims = tensor.dims.clone();
        dims.reverse();
        dims.push(-1);
        Ok(RawOutput {
            dims,
            data: tensor.data.clone(),
        })
    }
}

fn library(there: bool) -> Library {
    Library {
        there,
        fails_at: "",
    }
}

#[test]
fn openvino_engine_loads_and_runs() {
    let mut engine = match OpenVinoEngine::load(library(true), "m.onnx", second_output(), "CPU") {
        Ok(e) => e,
        Err(e) => panic!("loads: {e:?}"),
    };
    assert_eq!(engine.model_info().input_width, 1);
    let out = engine
        .infer(InferenceInput {
            data: &[8, 9],
            shape: &[1, 2],
        })
        .expect("runs");
    assert_eq!(out.data, vec![8, 9]);
    assert_eq!(out.shape, vec![2, 1, 0]);
}

#[test]
fn openvino_engine_reports_failures() {
    let err = OpenVinoEngine::load(library(false), "/gone.onnx", second_output(), "CPU")
        .err()
        .expect("missing");
    assert!(matches!(err, InferenceError::ModelNotFound { .. }));
    let mut cfg = second_output();
    cfg.output_index = 2;
    let err = OpenVinoEngine::load(library(true), "m.onnx", cfg, "CPU").err().expect("port");
    assert!(!err.to_string().is_empty());
    assert!(matches!(
        map_setup_error("cannot load"),
        InferenceError::BackendUnavailable { .. }
    ));
}

#[test]
fn openvino_engine_names_the_step_that_fails() {
    for (step, text) in [
        ("start", "openvino Core::new failed: no"),
        ("read", "read_model_from_file(m.onnx): no"),
        ("input", "cannot read input port name: no"),
        ("compile", "compile_model(device=CPU): no"),
        ("request", "create_infer_request: no"),
    ] {
        let library = Library {
            there: true,
            fails_at: step,
        };
        let err = OpenVinoEngine::load(library, "m.onnx", second_output(), "CPU")
            .err()
            .expect("load fails");
        assert!(err.to_string().contains(text), "{step}: {}", err.to_string());
    }
    for (step, text) in [
        ("shape", "Shape::new([1, 2]): no"),
        ("tensor", "Tensor::new(F32, [1, 2]): no"),
        ("fill", "tensor.get_data_mut: no"),
        ("bind", "set_tensor(in): no"),
        ("run", "infer: no"),
        ("fetch", "get_tensor(out1): no"),
        ("dims", "output tensor get_shape: no"),
        ("data", "output tensor get_data: no"),
    ] {
        let library = Library {
            there: true,
            fails_at: step,
        };
        let mut engine = match OpenVinoEngine::load(library, "m.onnx", second_output(), "CPU") {
            Ok(e) => e,
            Err(e) => panic!("loads: {e:?}"),
        };
        let input = InferenceInput {
            data: &[8, 9],
            shape: &[1, 2],
        };
        let err = engine.infer(input).expect_err("run fails");
        assert!(err.to_string().contains(text), "{step}: {}", err.to_string());
    }
}
