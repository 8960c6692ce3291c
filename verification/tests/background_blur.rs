//! Background blur: parameters and the per-frame pipeline.

use fluxframe::background_blur::config::{MAX_BLUR_RADIUS, MAX_FEATHER_RADIUS};
use fluxframe::background_blur::{defaults, BackgroundBlurEffect, BlurConfig};
use fluxframe::context::{FrameContext, ProcessingContext};
use fluxframe::error::{EffectError, InferenceError};
use fluxframe::frame::{FrameBuffer, FrameMeta, PixelFormat, VideoFrame};
use fluxframe::metrics::Counters;
use fluxframe::ml::model_config::ModelConfig;
use fluxframe::params::{ParamTable, ParamValue, RawEffectParams};
use fluxframe::pixel_math::{PixelMath, Resize};
use fluxframe::traits::{
    InferenceEngine, InferenceInput, InferenceOutput, LoadedEngine, ModelInfo, ModelLoader,
    VideoEffect,
};
use std::sync::atomic::{AtomicU32, Ordering};
use std::sync::Arc;

struct Math;

fn nearest(size: Resize, i: usize) -> usize {
    let (x, y) = (i % size.dst_w as usize, i / size.dst_w as usize);
    let sx = x * size.src_w as usize / size.dst_w as usize;
    let sy = y * size.src_h as usize / size.dst_h as usize;
    sy * size.src_w as usize + sx
}

impl PixelMath for Math {
    fn normalise(&self, v: u8, scale: u32, zero: u32) -> u32 {
        ((f32::from(v) - f32::from_bits(zero)) * f32::from_bits(scale)).to_bits()
    }

    fn sigmoid(&self, x: u32) -> u32 {
        x
    }

    fn softmax(&self, _background: u32, foreground: u32) -> u32 {
        foreground
    }

    fn is_class(&self, v: u32, class: u32) -> bool {
        (f32::from_bits(v) - class as f32).abs() < 0.5
    }

    fn sample_rgb(&self, src: &[u8], size: Resize, i: usize) -> u8 {
        src[nearest(size, i / 3) * 3 + i % 3]
    }

    fn sample_mask(&self, src: &[u32], size: Resize, i: usize) -> u32 {
        src[nearest(size, i)]
    }

    fn blend(&self, foreground: u8, background: u8, confidence: u32) -> u8 {
        let c = f32::from_bits(confidence);
        (f32::from(foreground) * c + f32::from(background) * (1.0 - c)).round() as u8
    }

    fn smooth(&self, previous: u32, current: u32, factor: u32) -> u32 {
        let f = f32::from_bits(factor);
        (f * f32::from_bits(previous) + (1.0 - f) * f32::from_bits(current)).to_bits()
    }

    fn feather(&self, src: &[u32], w: u32, h: u32, radius: u32, i: usize) -> u32 {
        let (w, h, r) = (i64::from(w), i64::from(h), i64::from(radius));
        let (x, y) = (i as i64 % w, i as i64 / w);
        let mut sum = 0.0;
        for dy in -r..=r {
            for dx in -r..=r {
                let at = (y + dy).clamp(0, h - 1) * w + (x + dx).clamp(0, w - 1);
                sum += f32::from_bits(src[at as usize]);
            }
        }
        (sum / ((2 * r + 1) * (2 * r + 1)) as f32).to_bits()
    }
}

struct MockEngine {
    mask: Vec<f32>,
    failing: Arc<AtomicU32>,
}

impl InferenceEngine for MockEngine {
    fn model_info(&self) -> ModelInfo {
        ModelInfo {
            name: "mock".to_string(),
            input_width: 2,
            input_height: 2,
            input_format: PixelFormat::Rgb,
        }
    }

    fn infer(&mut self, input: InferenceInput<'_>) -> Result<InferenceOutput, InferenceError> {
        assert_eq!(input.shape, &[1, 2, 2, 3]);
        assert_eq!(input.data.len(), 12);
        if self.failing.load(Ordering::SeqCst) > 0 {
            self.failing.fetch_sub(1, Ordering::SeqCst);
            return Err(InferenceError::InferenceFailed {
                reason: "synthetic".to_string(),
            });
        }
        Ok(InferenceOutput {
            data: self.mask.iter().map(|v| v.to_bits()).collect(),
            shape: vec![2, 2],
        })
    }

    fn published(&self) -> Option<&Counters> {
        None
    }
}

struct MockLoader {
    mask: Vec<f32>,
    failing: Arc<AtomicU32>,
}

impl ModelLoader for MockLoader {
    fn read_config(&self, path: &str) -> Result<ModelConfig, InferenceError> {
        if path == "/own.toml" {
            return Ok(ModelConfig::new("own", 2, 2));
        }
        Err(InferenceError::InvalidModelConfig {
            reason: format!("cannot read model config {path}"),
        })
    }

    fn find_config(&self, model: &str) -> Option<Result<ModelConfig, InferenceError>> {
        if model == "/broken.onnx" {
            return Some(Err(InferenceError::InvalidModelConfig {
                reason: "no".to_string(),
            }));
        }
        if model == "/alone.onnx" {
            return None;
        }
        Some(Ok(ModelConfig::new("mock", 2, 2)))
    }

    fn build_engine(
        &self,
        model: &str,
        _config: ModelConfig,
        _counters: Option<Counters>,
    ) -> Result<LoadedEngine, InferenceError> {
        if model == "/gone.onnx" {
            return Err(InferenceError::ModelNotFound {
                path: model.to_string(),
            });
        }
        Ok(LoadedEngine {
            engine: Box::new(MockEngine {
                mask: self.mask.clone(),
                failing: Arc::clone(&self.failing),
            }),
        })
    }
}

type Effect = BackgroundBlurEffect<Math, MockLoader>;

fn effect(failures: u32) -> (Effect, Arc<AtomicU32>) {
    let failing = Arc::new(AtomicU32::new(failures));
    let e = BackgroundBlurEffect::new(
        Math,
        MockLoader {
            mask: vec![1.0, 0.0, 0.0, 0.0],
            failing: Arc::clone(&failing),
        },
    );
    (e, failing)
}

fn params(entries: Vec<(&str, ParamValue)>) -> RawEffectParams {
    let mut t = ParamTable::new();
    for (k, v) in entries {
        t.insert(k.to_string(), v);
    }
    RawEffectParams::Table(t)
}

fn model(path: &str) -> (&'static str, ParamValue) {
    ("model", ParamValue::Text(path.to_string()))
}

fn stream(width: u32, height: u32, format: PixelFormat) -> ProcessingContext {
    ProcessingContext {
        width,
        height,
        format,
        fps: 30,
        counters: None,
    }
}

fn colours() -> Vec<u8> {
    vec![200, 50, 50, 50, 200, 50, 50, 50, 200, 200, 200, 50]
}

fn frame(pixels: Vec<u8>) -> VideoFrame {
    VideoFrame::new_packed(
        FrameBuffer::Owned(pixels),
        2,
        2,
        PixelFormat::Rgb,
        FrameMeta::default(),
    )
    .expect("packed frame ok")
}

fn ready(failures: u32, extra: Vec<(&str, ParamValue)>) -> (Effect, Arc<AtomicU32>) {
    let (mut e, failing) = effect(failures);
    let mut list = vec![model("/tmp/dummy.onnx")];
    list.extend(extra);
    e.configure(params(list)).expect("configure");
    e.prepare(&stream(2, 2, PixelFormat::Rgb)).expect("prepare");
    (e, failing)
}

// ---------------------------------------------------------------------------
// Parameters
// ---------------------------------------------------------------------------

fn valid_blur_config() -> BlurConfig {
    BlurConfig {
        model: "/tmp/dummy.onnx".to_string(),
        model_config: None,
        blur_radius: defaults::BLUR_RADIUS,
        blur_passes: defaults::BLUR_PASSES,
        mask_threshold: defaults::MASK_THRESHOLD,
        mask_smoothing: defaults::MASK_SMOOTHING,
        mask_feather_radius: defaults::MASK_FEATHER_RADIUS,
        mask_dilate: defaults::MASK_DILATE,
        fallback_threshold: defaults::FALLBACK_THRESHOLD,
    }
}

#[test]
fn background_blur_config_parses_with_defaults() {
    let parsed = BlurConfig::from_params(params(vec![model("/tmp/dummy.onnx")])).expect("parse ok");
    assert_eq!(parsed.blur_radius, defaults::BLUR_RADIUS);
    assert_eq!(parsed.blur_passes, defaults::BLUR_PASSES);
    let difference = f32::from_bits(parsed.mask_threshold) - f32::from_bits(defaults::MASK_THRESHOLD);
    assert!(difference.abs() < 1e-6);
    assert_eq!(f32::from_bits(defaults::MASK_THRESHOLD), 0.5);
    assert_eq!(f32::from_bits(defaults::MASK_SMOOTHING), 0.65);
}

#[test]
fn config_refuses_what_it_does_not_know() {
    let bad = |entries| BlurConfig::from_params(params(entries)).expect_err("refused");
    assert_eq!(bad(vec![]), "missing field `model`");
    assert_eq!(
        bad(vec![model("/m.onnx"), ("blur_raduis", ParamValue::Integer(3))]),
        "unknown field"
    );
    assert_eq!(
        bad(vec![model("/m.onnx"), ("blur_radius", ParamValue::Integer(-1))]),
        "`blur_radius` is out of range: -1"
    );
    assert_eq!(
        bad(vec![("model", ParamValue::Integer(1))]),
        "`model` must be a string, got integer"
    );
    assert_eq!(
        bad(vec![model("/m.onnx"), ("mask_threshold", ParamValue::Boolean(true))]),
        "`mask_threshold` must be a number, got boolean"
    );
    let c = BlurConfig::from_params(params(vec![
        model("/m.onnx"),
        ("mask_smoothing", ParamValue::Integer(1)),
        ("mask_dilate", ParamValue::Integer(4)),
        ("model_config", ParamValue::Text("/m.toml".to_string())),
    ]))
    .expect("accepted");
    assert_eq!(f32::from_bits(c.mask_smoothing), 1.0);
    assert_eq!(c.mask_dilate, 4);
    assert_eq!(c.model_config.as_deref(), Some("/m.toml"));
}

#[test]
fn background_blur_validate_rejects_missing_model() {
    let mut cfg = valid_blur_config();
    cfg.model = String::new();
    assert!(cfg.validate().is_err());
}

#[test]
fn validate_rejects_non_onnx_extension() {
    let mut cfg = valid_blur_config();
    cfg.model = "/tmp/model.toml".to_string();
    let err = cfg.validate().expect_err("non-onnx must fail");
    assert!(err.to_string().contains("onnx"));
}

#[test]
fn validate_rejects_no_extension() {
    let mut cfg = valid_blur_config();
    cfg.model = "/tmp/model".to_string();
    let err = cfg.validate().expect_err("no extension must fail");
    assert!(err.to_string().contains("extension"));
}

#[test]
fn validate_rejects_out_of_range_threshold() {
    let mut cfg = valid_blur_config();
    cfg.mask_threshold = 1.5_f32.to_bits();
    assert!(cfg.validate().is_err());
}

#[test]
fn validate_rejects_excessive_blur_radius() {
    let mut cfg = valid_blur_config();
    cfg.blur_radius = MAX_BLUR_RADIUS + 1;
    assert!(cfg.validate().is_err());
}

#[test]
fn validate_rejects_excessive_feather_radius() {
    let mut cfg = valid_blur_config();
    cfg.mask_feather_radius = MAX_FEATHER_RADIUS + 1;
    assert!(cfg.validate().is_err());
}

#[test]
fn validate_rejects_zero_fallback_threshold() {
    let mut cfg = valid_blur_config();
    cfg.fallback_threshold = 0;
    assert!(cfg.validate().is_err());
}

#[test]
fn validate_names_each_bound() {
    let mut cfg = valid_blur_config();
    cfg.mask_smoothing = (-0.5_f32).to_bits();
    assert!(cfg.validate().expect_err("smoothing").to_string().contains("mask_smoothing"));
    let mut cfg = valid_blur_config();
    cfg.blur_passes = 17;
    let msg = cfg.validate().expect_err("passes").to_string();
    assert!(msg.contains("blur_passes must be <= 16, got 17"), "{msg}");
    let mut cfg = valid_blur_config();
    cfg.mask_dilate = 33;
    let msg = cfg.validate().expect_err("dilate").to_string();
    assert!(msg.contains("mask_dilate must be <= 32, got 33"), "{msg}");
}

#[test]
fn validate_passes_with_sane_values() {
    assert!(valid_blur_config().validate().is_ok());
}

// ---------------------------------------------------------------------------
// Pipeline
// ---------------------------------------------------------------------------

#[test]
fn background_blur_name_is_stable() {
    let (e, _) = effect(0);
    assert_eq!(e.name(), "background_blur");
}

#[test]
fn process_with_mock_engine_blends_known_mask() {
    let (mut e, _) = ready(0, vec![]);
    let pixels = colours();
    let mut f = frame(pixels.clone());
    let mut ctx = FrameContext::default();
    e.process(&mut f, &mut ctx).expect("process ok");
    let out = f.data.as_slice();
    assert_eq!(out.len(), 12);
    assert_ne!(out, &pixels[..], "frame was not modified by composite");
}

/// Without smoothing, dilation and feathering the mask is the model's, so the
/// foreground pixel keeps its colour and the others are blurred.
#[test]
fn the_person_stays_sharp() {
    let (mut e, _) = ready(
        0,
        vec![
            ("mask_smoothing", ParamValue::Integer(0)),
            ("mask_dilate", ParamValue::Integer(0)),
            ("mask_feather_radius", ParamValue::Integer(0)),
            ("blur_radius", ParamValue::Integer(1)),
            ("blur_passes", ParamValue::Integer(1)),
        ],
    );
    let mut f = frame(colours());
    e.process(&mut f, &mut FrameContext::default()).expect("process ok");
    let out = f.data.as_slice();
    assert_eq!(&out[0..3], &[200, 50, 50]);
    assert_ne!(&out[3..6], &[50, 200, 50]);
    assert_ne!(&out[9..12], &[200, 200, 50]);
}

/// The first mask after a reset is smoothed with a blank one: with the default
/// weight it stays below the threshold, and everything is blurred.
#[test]
fn smoothing_starts_from_a_blank_mask() {
    let (mut e, failing) = ready(0, vec![("mask_feather_radius", ParamValue::Integer(0))]);
    let mut first = frame(colours());
    e.process(&mut first, &mut FrameContext::default()).expect("process ok");
    let mut second = frame(colours());
    e.process(&mut second, &mut FrameContext::default()).expect("process ok");
    assert_ne!(first.data.as_slice(), second.data.as_slice());
    assert_eq!(second.data.as_slice(), &colours()[..], "dilated to the whole frame");

    failing.store(1, Ordering::SeqCst);
    let mut ctx = FrameContext::default();
    e.process(&mut frame(colours()), &mut ctx).expect("passed through");
    assert!(ctx.fallback_active);
    let mut third = frame(colours());
    e.process(&mut third, &mut FrameContext::default()).expect("process ok");
    assert_eq!(third.data.as_slice(), first.data.as_slice());
}

#[test]
fn failures_are_tolerated_up_to_the_threshold() {
    let (mut e, _) = ready(3, vec![]);
    for _ in 0..2 {
        let mut f = frame(colours());
        let mut ctx = FrameContext::default();
        e.process(&mut f, &mut ctx).expect("passed through");
        assert!(ctx.fallback_active);
        assert_eq!(f.data.as_slice(), &colours()[..]);
    }
    let mut ctx = FrameContext::default();
    match e.process(&mut frame(colours()), &mut ctx) {
        Err(EffectError::Inference { name, .. }) => assert_eq!(name, "background_blur"),
        other => panic!("{other:?}"),
    }
    e.process(&mut frame(colours()), &mut ctx).expect("recovered");
}

#[test]
fn preparation_reports_each_failure() {
    let (mut e, _) = effect(0);
    let err = e.prepare(&stream(2, 2, PixelFormat::Rgb)).expect_err("unconfigured");
    assert!(err.to_string().contains("prepare called before configure"));
    let err = e.prepare(&stream(2, 2, PixelFormat::Nv12)).expect_err("format");
    assert!(err.to_string().contains("background_blur requires RGB input, got Nv12"));
    e.configure(params(vec![model("/broken.onnx")])).expect("configure");
    let err = e.prepare(&stream(2, 2, PixelFormat::Rgb)).expect_err("sidecar");
    assert!(matches!(err, EffectError::PrepareFailed { .. }));
    assert!(err.to_string().contains("model config invalid: no"));
    e.configure(params(vec![model("/gone.onnx")])).expect("configure");
    let err = e.prepare(&stream(2, 2, PixelFormat::Rgb)).expect_err("engine");
    assert!(matches!(err, EffectError::Inference { .. }));
    e.configure(params(vec![model("/m.onnx")])).expect("configure");
    e.prepare(&stream(1, 5, PixelFormat::Rgb)).expect("a frame of one column is prepared for");
    let err = e.configure(params(vec![model("/m.bin")])).expect_err("extension");
    assert!(err.to_string().contains("got extension `bin`"));
}

#[test]
fn other_frames_are_refused() {
    let (mut e, _) = ready(0, vec![]);
    let mut ctx = FrameContext::default();
    let mut gray = VideoFrame::new_packed(
        FrameBuffer::Owned(vec![0; 4]),
        2,
        2,
        PixelFormat::Gray8,
        FrameMeta::default(),
    )
    .expect("packed");
    let err = e.process(&mut gray, &mut ctx).expect_err("format");
    assert!(err.to_string().contains("unexpected pixel format Gray8"));
    let mut short = frame(vec![0; 11]);
    let err = e.process(&mut short, &mut ctx).expect_err("length");
    assert!(err.to_string().contains("frame buffer holds 11 bytes, expected 12"));
    let (mut fresh, _) = effect(0);
    let err = fresh.process(&mut frame(colours()), &mut ctx).expect_err("unprepared");
    assert!(err.to_string().contains("differs from prepared 0x0"));
    e.shutdown().expect("shutdown");
}

#[test]
fn a_given_model_configuration_takes_precedence() {
    let own = ("model_config", ParamValue::Text("/own.toml".to_string()));
    let (mut e, _) = effect(0);
    e.configure(params(vec![model("/broken.onnx"), own])).expect("configure");
    e.prepare(&stream(2, 2, PixelFormat::Rgb)).expect("prepare");

    let none = ("model_config", ParamValue::Text("/none.toml".to_string()));
    let (mut e, _) = effect(0);
    e.configure(params(vec![model("/m.onnx"), none])).expect("configure");
    let err = e.prepare(&stream(2, 2, PixelFormat::Rgb)).expect_err("no such file");
    assert!(err.to_string().contains("cannot read model config /none.toml"));

    let (mut e, _) = effect(0);
    e.configure(params(vec![model("/alone.onnx")])).expect("configure");
    e.prepare(&stream(2, 2, PixelFormat::Rgb)).expect("the placeholder stands in");
}

#[test]
fn parameters_may_be_a_list_in_field_order() {
    let listed = |items| BlurConfig::from_params(RawEffectParams::Value(ParamValue::Array(items)));
    let path = || ParamValue::Text("/m.onnx".to_string());
    let c = listed(vec![
        path(),
        ParamValue::Text("/m.toml".to_string()),
        ParamValue::Integer(9),
    ])
    .expect("accepted");
    assert_eq!(c.model, "/m.onnx");
    assert_eq!(c.model_config.as_deref(), Some("/m.toml"));
    assert_eq!(c.blur_radius, 9);
    assert_eq!(c.blur_passes, defaults::BLUR_PASSES);
    assert_eq!(listed(vec![]).expect_err("empty"), "missing field `model`");
    assert_eq!(
        listed((0..10).map(|_| path()).collect()).expect_err("too many"),
        "invalid length 10, expected fewer elements in array"
    );
    let err = BlurConfig::from_params(RawEffectParams::Value(ParamValue::Integer(1)))
        .expect_err("no table");
    assert_eq!(err, "expected a table, got integer");
}

#[test]
fn a_frame_of_one_pixel_is_processed() {
    let (mut e, _) = effect(0);
    e.configure(params(vec![model("/tmp/dummy.onnx")])).expect("configure");
    e.prepare(&stream(1, 1, PixelFormat::Rgb)).expect("prepare");
    let mut one = VideoFrame::new_packed(
        FrameBuffer::Owned(vec![7, 8, 9]),
        1,
        1,
        PixelFormat::Rgb,
        FrameMeta::default(),
    )
    .expect("packed");
    let mut ctx = FrameContext::default();
    e.process(&mut one, &mut ctx).expect("process");
    assert_eq!(one.data.as_slice(), &[7, 8, 9]);
}
