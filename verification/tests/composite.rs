//! Segmentation, composite effect and builder.

use fluxframe::composite::builder::{
    build_mask_chain, build_plane_chain, build_post_chain, build_segmentation, CompositeBuilder,
    PlaneEffectRegistry, PostEffectRegistry,
};
use fluxframe::composite::effect::{CompositeEffect, SubChainPayload};
use fluxframe::composite::segmentation::{
    SegmentationBase, SegmentationConfig, SegmentationOutcome,
};
use fluxframe::composite::slots::Slot;
use fluxframe::config::PipelineSection;
use fluxframe::context::{FrameContext, ProcessingContext};
use fluxframe::error::{EffectError, InferenceError};
use fluxframe::frame::{FrameBuffer, FrameMeta, PixelFormat, VideoFrame};
use fluxframe::mask_effects::registry::{default_registry, MaskEffectRegistry};
use fluxframe::metadata::{CommitStrategy, EffectMetadata, ParamDescriptor, ParamKind, Scale};
use fluxframe::metrics::{Counters, EffectTelemetry, LatencyHistogram, StageTimings};
use fluxframe::ml::model_config::ModelConfig;
use fluxframe::params::{ParamTable, ParamValue, RawEffectParams};
use fluxframe::paths::ConfigBase;
use fluxframe::pixel_math::{PixelMath, Resize};
use fluxframe::plane::{FramePlane, MaskEffect, MaskPlane, PlaneEffect, PostEffect, SubchainKind};
use fluxframe::registry::{EffectFactory, EffectRegistry, Entry, NewEffect};
use fluxframe::traits::{
    InferenceEngine, InferenceInput, InferenceOutput, LoadedEngine, ModelInfo, ModelLoader,
    VideoEffect,
};

// ---------------------------------------------------------------------------
// Arithmetic, models and effects for the tests
// ---------------------------------------------------------------------------

/// Nearest-neighbour resizing and plain blending.
struct Math;

fn nearest(size: Resize, i: usize) -> usize {
    let (x, y) = (i % size.dst_w as usize, i / size.dst_w as usize);
    let sx = x * size.src_w as usize / size.dst_w as usize;
    let sy = y * size.src_h as usize / size.dst_h as usize;
    sy * size.src_w as usize + sx
}

impl PixelMath for Math {
    fn normalise(&self, v: u8, scale: u32, zero: u32) -> u32 {
        ((f32::from(v) - f32::from_bits(zero)) * f32::from_bits(scale)).to_bits()
    }

    fn sigmoid(&self, x: u32) -> u32 {
        (1.0 / (1.0 + (-f32::from_bits(x)).exp())).to_bits()
    }

    fn softmax(&self, background: u32, foreground: u32) -> u32 {
        let (b, f) = (f32::from_bits(background), f32::from_bits(foreground));
        let n = (f - b).exp();
        (n / (1.0 + n)).to_bits()
    }

    fn is_class(&self, v: u32, class: u32) -> bool {
        (f32::from_bits(v) - class as f32).abs() < 0.5
    }

    fn sample_rgb(&self, src: &[u8], size: Resize, i: usize) -> u8 {
        src[nearest(size, i / 3) * 3 + i % 3]
    }

    fn sample_mask(&self, src: &[u32], size: Resize, i: usize) -> u32 {
        src[nearest(size, i)]
    }

    fn blend(&self, foreground: u8, background: u8, confidence: u32) -> u8 {
        let c = f32::from_bits(confidence);
        (f32::from(foreground) * c + f32::from(background) * (1.0 - c)).round() as u8
    }

    fn smooth(&self, previous: u32, current: u32, factor: u32) -> u32 {
        let f = f32::from_bits(factor);
        (f * f32::from_bits(previous) + (1.0 - f) * f32::from_bits(current)).to_bits()
    }

    fn feather(&self, src: &[u32], _w: u32, _h: u32, _radius: u32, i: usize) -> u32 {
        src[i]
    }
}

/// An engine that answers a fixed mask, after a number of failures.
struct FixedEngine {
    failures: u32,
    mask: Vec<f32>,
}

impl InferenceEngine for FixedEngine {
    fn model_info(&self) -> ModelInfo {
        ModelInfo {
            name: "fixed".to_string(),
            input_width: 2,
            input_height: 2,
            input_format: PixelFormat::Rgb,
        }
    }

    fn infer(&mut self, _input: InferenceInput<'_>) -> Result<InferenceOutput, InferenceError> {
        if self.failures > 0 {
            self.failures -= 1;
            return Err(InferenceError::InferenceFailed {
                reason: "synthetic".to_string(),
            });
        }
        Ok(InferenceOutput {
            data: self.mask.iter().map(|v| v.to_bits()).collect(),
            shape: vec![self.mask.len()],
        })
    }

    fn published(&self) -> Option<&Counters> {
        None
    }
}

/// A loader of one 2x2 model.
struct Loader {
    failures: u32,
    mask: Vec<f32>,
}

impl ModelLoader for Loader {
    fn read_config(&self, path: &str) -> Result<ModelConfig, InferenceError> {
        Ok(ModelConfig::new(path, 2, 2))
    }

    fn find_config(&self, model: &str) -> Option<Result<ModelConfig, InferenceError>> {
        if model.contains("missing") {
            return Some(Err(InferenceError::ModelNotFound {
                path: model.to_string(),
            }));
        }
        Some(Ok(ModelConfig::new("fixed", 2, 2)))
    }

    fn build_engine(
        &self,
        model: &str,
        _config: ModelConfig,
        _counters: Option<Counters>,
    ) -> Result<LoadedEngine, InferenceError> {
        if model == "/unbuilt.onnx" {
            return Err(InferenceError::ModelLoadFailed {
                reason: "unreadable".to_string(),
            });
        }
        Ok(LoadedEngine {
            engine: Box::new(FixedEngine {
                failures: self.failures,
                mask: self.mask.clone(),
            }),
        })
    }
}

fn loader() -> Loader {
    Loader {
        failures: 0,
        mask: vec![1.0, 0.0, 0.0, 0.0],
    }
}

fn unknown_field(name: &str, key: &str) -> EffectError {
    EffectError::InvalidConfig {
        name: name.to_string(),
        reason: format!("unknown field `{key}`"),
        hint: None,
    }
}

/// A plane effect with a fixed set of fields that fills the plane.
struct Fill {
    name: &'static str,
    fields: &'static [&'static str],
    rgb: [u8; 3],
    resets: u32,
}

impl Fill {
    fn accept(&mut self, params: RawEffectParams) -> Result<(), EffectError> {
        let RawEffectParams::Table(t) = params else {
            return Err(unknown_field(self.name, "?"));
        };
        for key in t.keys() {
            if !self.fields.contains(&key.as_str()) {
                return Err(unknown_field(self.name, key));
            }
        }
        if let Some(ParamValue::Array(items)) = t.get("rgb") {
            for (slot, item) in self.rgb.iter_mut().zip(items) {
                if let ParamValue::Integer(v) = item {
                    *slot = *v as u8;
                }
            }
        }
        Ok(())
    }
}

impl PlaneEffect for Fill {
    fn name(&self) -> &'static str {
        self.name
    }

    fn configure(&mut self, params: RawEffectParams) -> Result<(), EffectError> {
        self.accept(params)
    }

    fn prepare(&mut self, _context: &ProcessingContext) -> Result<(), EffectError> {
        Ok(())
    }

    fn process(
        &mut self,
        plane: &mut FramePlane<'_>,
        _context: &mut FrameContext,
    ) -> Result<(), EffectError> {
        for (i, b) in plane.data.iter_mut().enumerate() {
            *b = self.rgb[i % 3];
        }
        Ok(())
    }

    fn reset_state(&mut self) {
        self.resets += 1;
    }

    fn shutdown(&mut self) -> Result<(), EffectError> {
        Ok(())
    }
}

struct FillFactory {
    name: &'static str,
    fields: &'static [&'static str],
}

impl EffectFactory<dyn PlaneEffect> for FillFactory {
    fn build(&self) -> NewEffect<dyn PlaneEffect> {
        NewEffect {
            effect: Box::new(Fill {
                name: self.name,
                fields: self.fields,
                rgb: [0, 0, 0],
                resets: 0,
            }),
        }
    }
}

const COLOR_FILL: EffectMetadata = EffectMetadata {
    name: "color_fill",
    help: "",
    params: &[ParamDescriptor {
        name: "rgb",
        kind: ParamKind::Color { default: [1, 2, 3] },
        help: "",
        commit: CommitStrategy::OnCommit,
    }],
};

const BLUR: EffectMetadata = EffectMetadata {
    name: "blur",
    help: "",
    params: &[ParamDescriptor {
        name: "radius",
        kind: ParamKind::Integer {
            default: 20,
            min: 1,
            max: 256,
            step: 1,
            scale: Scale::Linear,
        },
        help: "",
        commit: CommitStrategy::OnCommit,
    }],
};

const VIGNETTE: EffectMetadata = EffectMetadata {
    name: "vignette",
    help: "",
    params: &[],
};

const IMAGE: EffectMetadata = EffectMetadata {
    name: "image_fill",
    help: "",
    params: &[ParamDescriptor {
        name: "path",
        kind: ParamKind::Path {
            default: None,
            extensions: &["png"],
            required: true,
        },
        help: "",
        commit: CommitStrategy::OnCommit,
    }],
};

fn planes() -> PlaneEffectRegistry {
    let mut reg: PlaneEffectRegistry = EffectRegistry::empty("plane");
    let rows: [(&'static str, &'static [&'static str], EffectMetadata); 4] = [
        ("color_fill", &["rgb"], COLOR_FILL),
        ("blur", &["radius"], BLUR),
        ("vignette", &[], VIGNETTE),
        ("image_fill", &["path"], IMAGE),
    ];
    for (name, fields, metadata) in rows {
        reg.register(
            name,
            Entry {
                factory: Box::new(FillFactory { name, fields }),
                metadata,
            },
        );
    }
    reg
}

/// A post effect that adds one to every byte.
struct Brighten;

impl PostEffect for Brighten {
    fn name(&self) -> &'static str {
        "brighten"
    }

    fn configure(&mut self, _params: RawEffectParams) -> Result<(), EffectError> {
        Ok(())
    }

    fn prepare(&mut self, _context: &ProcessingContext) -> Result<(), EffectError> {
        Ok(())
    }

    fn process(
        &mut self,
        plane: &mut FramePlane<'_>,
        _mask: &MaskPlane<'_>,
        _context: &mut FrameContext,
    ) -> Result<(), EffectError> {
        for b in plane.data.iter_mut() {
            *b = b.saturating_add(1);
        }
        Ok(())
    }

    fn reset_state(&mut self) {}

    fn shutdown(&mut self) -> Result<(), EffectError> {
        Ok(())
    }
}

fn posts() -> PostEffectRegistry {
    EffectRegistry::empty("post")
}

fn masks() -> MaskEffectRegistry {
    default_registry(
        |v: u32| (1.0 - f32::from_bits(v)).to_bits(),
        |f: u32, a: u32, b: u32| {
            let f = f32::from_bits(f);
            (f * f32::from_bits(a) + (1.0 - f) * f32::from_bits(b)).to_bits()
        },
        |m: Vec<u32>, _w: u32, _h: u32, _r: u32| m,
    )
}

fn section(chain: &[&str], tables: Vec<(&str, Vec<(&str, ParamValue)>)>) -> PipelineSection {
    let mut s = PipelineSection::default();
    s.chain = chain.iter().map(|n| (*n).to_string()).collect();
    for (name, entries) in tables {
        let list = entries.into_iter().map(|(k, v)| (k.to_string(), v)).collect();
        s.per_effect.insert(name.to_string(), ParamValue::Table(list));
    }
    s
}

fn mask_section() -> PipelineSection {
    let mut s = section(
        &["threshold"],
        vec![("threshold", vec![("level", ParamValue::Float(0.5_f32.to_bits()))])],
    );
    s.model = Some("/tmp/dummy.onnx".to_string());
    s
}

fn triple(r: i64, g: i64, b: i64) -> ParamValue {
    ParamValue::Array(vec![
        ParamValue::Integer(r),
        ParamValue::Integer(g),
        ParamValue::Integer(b),
    ])
}

fn stream() -> ProcessingContext {
    ProcessingContext {
        width: 4,
        height: 4,
        format: PixelFormat::Rgb,
        fps: 30,
        counters: None,
    }
}

fn frame(w: u32, h: u32, value: u8) -> VideoFrame {
    VideoFrame::new_packed(
        FrameBuffer::Owned(vec![value; (w * h * 3) as usize]),
        w,
        h,
        PixelFormat::Rgb,
        FrameMeta::default(),
    )
    .expect("packed")
}

// ---------------------------------------------------------------------------
// Builder
// ---------------------------------------------------------------------------

#[test]
fn build_segmentation_requires_model() {
    let res = build_segmentation(
        &PipelineSection::default(),
        &ConfigBase::default(),
        Math,
        loader(),
    );
    let Err(err) = res else {
        panic!("expected error");
    };
    let msg = err.to_string();
    assert!(msg.contains("model"), "got: {msg}");
}

#[test]
fn mask_chain_configures_each_effect() {
    let mut s = section(
        &["threshold", "feather"],
        vec![
            ("threshold", vec![("level", ParamValue::Float(0.4_f32.to_bits()))]),
            ("feather", vec![("radius", ParamValue::Integer(3))]),
        ],
    );
    s.model = Some("/tmp/dummy.onnx".to_string());
    let Ok(chain) = build_mask_chain(&masks(), &s, &ConfigBase::default()) else {
        panic!("must build");
    };
    assert_eq!(chain.len(), 2);
    assert_eq!(chain[0].effect().name(), "threshold");
    assert_eq!(chain[1].effect().name(), "feather");
    assert!(chain.iter().all(Slot::is_enabled));
}

#[test]
fn enabled_flag_is_read_and_stripped_before_configure() {
    let s = section(
        &["blur", "color_fill"],
        vec![
            (
                "blur",
                vec![
                    ("enabled", ParamValue::Boolean(false)),
                    ("radius", ParamValue::Integer(8)),
                ],
            ),
            ("color_fill", vec![("enabled", ParamValue::Boolean(false))]),
        ],
    );
    let Ok(chain) = build_plane_chain(&planes(), &s, "background", &ConfigBase::default()) else {
        panic!("must build");
    };
    assert!(chain.iter().all(|slot| !slot.is_enabled()));
}

#[test]
fn non_bool_enabled_flag_is_rejected() {
    let s = section(
        &["blur"],
        vec![("blur", vec![("enabled", ParamValue::Text("off".to_string()))])],
    );
    let Err(err) = build_plane_chain(&planes(), &s, "background", &ConfigBase::default()) else {
        panic!("expected error");
    };
    assert!(err.to_string().contains("must be a boolean"), "{err:?}");
}

#[test]
fn unknown_subtable_rejected() {
    let s = section(
        &["threshold"],
        vec![("threhold", vec![("level", ParamValue::Float(0.5_f32.to_bits()))])],
    );
    let Err(err) = build_mask_chain(&masks(), &s, &ConfigBase::default()) else {
        panic!("expected error");
    };
    assert!(err.to_string().contains("threhold"));
}

#[test]
fn unknown_effect_in_chain_rejected() {
    let s = section(&["nope"], vec![]);
    let Err(err) = build_mask_chain(&masks(), &s, &ConfigBase::default()) else {
        panic!("expected error");
    };
    assert!(err.to_string().contains("nope"));
}

#[test]
fn background_chain_with_color_fill_configures() {
    let s = section(
        &["color_fill"],
        vec![("color_fill", vec![("rgb", triple(10, 20, 30))])],
    );
    let Ok(chain) = build_plane_chain(&planes(), &s, "background", &ConfigBase::default()) else {
        panic!("must build");
    };
    assert_eq!(chain.len(), 1);
    assert_eq!(chain[0].effect().name(), "color_fill");
}

#[test]
fn full_builder_assembles_composite() {
    let background = section(
        &["color_fill"],
        vec![("color_fill", vec![("rgb", triple(0, 120, 215))])],
    );
    let (mask_reg, plane_reg, post_reg) = (masks(), planes(), posts());
    let builder = CompositeBuilder::new(&mask_reg, &plane_reg, &post_reg);
    let Ok(composite) = builder.build(
        &mask_section(),
        Some(&background),
        None,
        None,
        &ConfigBase::default(),
        Math,
        loader(),
    ) else {
        panic!("must build");
    };
    assert_eq!(composite.name(), CompositeEffect::<Math, Loader>::NAME);
}

#[test]
fn relative_model_path_resolves_against_the_config_base() {
    let mut s = PipelineSection::default();
    s.model = Some("models/m.onnx".to_string());
    let base = ConfigBase::for_config(Some("/etc/ff/fluxframe.toml"));
    let Ok(segmentation) = build_segmentation(&s, &base, Math, loader()) else {
        panic!("a relative model path must build");
    };
    assert_eq!(segmentation.model_path(), "/etc/ff/models/m.onnx");
}

#[test]
fn path_parameters_resolve_against_the_config_base() {
    let s = section(
        &["image_fill"],
        vec![("image_fill", vec![("path", ParamValue::Text("bg.png".to_string()))])],
    );
    let base = ConfigBase::for_config(Some("/etc/ff/fluxframe.toml"));
    assert!(build_plane_chain(&planes(), &s, "background", &base).is_ok());
    let missing = section(&["image_fill"], vec![]);
    let Err(err) = build_plane_chain(&planes(), &missing, "background", &base) else {
        panic!("a required path has no default");
    };
    assert!(err.to_string().contains("`path`"), "{err:?}");
}

#[test]
fn mask_fields_belong_to_the_mask_section() {
    assert!(PipelineSection::is_reserved_key("model"));
    assert!(!PipelineSection::is_reserved_key("blur"));
    let empty = section(&[], vec![]);
    let Ok(chain) = build_post_chain(&posts(), &empty, &ConfigBase::default()) else {
        panic!("an empty section builds");
    };
    assert!(chain.is_empty());
}

// ---------------------------------------------------------------------------
// Composite effect
// ---------------------------------------------------------------------------

type Composite = CompositeEffect<Math, Loader>;

fn stage(l: Loader) -> SegmentationBase<Math, Loader> {
    SegmentationBase::new(
        SegmentationConfig {
            model: "/tmp/unused.onnx".to_string(),
            model_config: None,
            fallback_threshold: 3,
        },
        Math,
        l,
    )
}

fn composite_with_background(names: &[&str]) -> Composite {
    let registry = planes();
    let bg = names
        .iter()
        .map(|name| Slot::new(registry.get(name).expect("registered").factory.build().effect, true))
        .collect();
    CompositeEffect::new(stage(loader()), Vec::new(), bg, Vec::new(), Vec::new())
}

#[test]
fn set_effect_enabled_toggles_every_slot_with_the_name() {
    let mut c = composite_with_background(&["color_fill", "vignette", "color_fill"]);
    let bg = SubchainKind::Background;
    assert_eq!(c.set_effect_enabled(bg, "color_fill", false).ok(), Some(true));
    assert_eq!(c.disabled_effects(bg), vec!["color_fill", "color_fill"]);
    assert_eq!(
        c.set_effect_enabled(bg, "color_fill", false).ok(),
        Some(false),
        "repeating the same flag changes nothing"
    );
    assert_eq!(c.set_effect_enabled(bg, "color_fill", true).ok(), Some(true));
    assert!(c.disabled_effects(bg).is_empty());
}

#[test]
fn set_effect_enabled_rejects_unknown_name_or_wrong_section() {
    let mut c = composite_with_background(&["color_fill"]);
    for (section, name) in [
        (SubchainKind::Background, "blur"),
        (SubchainKind::Foreground, "color_fill"),
    ] {
        let err = c.set_effect_enabled(section, name, false).expect_err("no such effect");
        assert!(err.to_string().contains("no effect named"), "{err:?}");
    }
    assert!(c.disabled_effects(SubchainKind::Background).is_empty());
}

#[test]
fn composite_lays_the_person_over_the_background() {
    let mut c = composite_with_background(&["color_fill"]);
    c.prepare(&stream()).expect("prepare");
    let mut f = frame(4, 4, 200);
    let mut ctx = FrameContext::default();
    c.process(&mut f, &mut ctx).expect("process");
    let out = f.data.as_slice();
    for y in 0..4usize {
        for x in 0..4usize {
            let expected = if x < 2 && y < 2 { 200 } else { 0 };
            assert_eq!(out[(y * 4 + x) * 3], expected, "({x},{y})");
        }
    }
    assert!(!ctx.fallback_active);
}

#[test]
fn a_disabled_background_leaves_the_frame() {
    let mut c = composite_with_background(&["color_fill"]);
    c.prepare(&stream()).expect("prepare");
    c.set_effect_enabled(SubchainKind::Background, "color_fill", false).expect("known");
    let mut f = frame(4, 4, 200);
    c.process(&mut f, &mut FrameContext::default()).expect("process");
    assert!(f.data.as_slice().iter().all(|b| *b == 200));
}

#[test]
fn sub_chains_can_be_replaced_and_reconfigured() {
    let mut c = composite_with_background(&[]);
    c.prepare(&stream()).expect("prepare");
    let fill = planes().get("color_fill").expect("registered").factory.build().effect;
    c.replace_subchain(SubChainPayload::Background(vec![Slot::new(fill, true)]))
        .expect("replace");
    let mut table = fluxframe::params::ParamTable::new();
    table.insert("rgb".to_string(), triple(7, 7, 7));
    c.reconfigure_named_effect(
        SubchainKind::Background,
        "color_fill",
        RawEffectParams::Table(table),
    )
    .expect("reconfigure");
    c.replace_subchain(SubChainPayload::Post(vec![Slot::new(
        Box::new(Brighten) as Box<dyn PostEffect>,
        true,
    )]))
    .expect("replace");
    let mut f = frame(4, 4, 200);
    c.process(&mut f, &mut FrameContext::default()).expect("process");
    assert_eq!(f.data.as_slice()[0], 201);
    assert_eq!(f.data.as_slice()[45], 8);
    assert!(c
        .reconfigure_named_effect(SubchainKind::Post, "none", RawEffectParams::empty())
        .is_err());
}

#[test]
fn composite_refuses_other_frames() {
    let mut c = composite_with_background(&["color_fill"]);
    let mut gray = stream();
    gray.format = PixelFormat::Gray8;
    let err = c.prepare(&gray).expect_err("not RGB");
    assert!(err.to_string().contains("composite requires RGB input, got Gray8"), "{err:?}");
    c.prepare(&stream()).expect("prepare");
    let err = c
        .process(&mut frame(2, 2, 0), &mut FrameContext::default())
        .expect_err("another size");
    assert!(err.to_string().contains("frame 2x2 differs from prepared 4x4"), "{err:?}");
    assert_eq!(c.processing_ctx().expect("stored").width, 4);
}

#[test]
fn the_composite_takes_no_parameters() {
    let mut c = composite_with_background(&["color_fill"]);
    c.configure(RawEffectParams::empty()).expect("nothing to configure");
    let mut table = ParamTable::new();
    table.insert("model".to_string(), ParamValue::Text("/a.onnx".to_string()));
    let err = c.configure(RawEffectParams::Table(table)).expect_err("a parameter");
    assert!(matches!(err, EffectError::InvalidConfig { .. }), "{err:?}");
    assert!(err.to_string().contains("takes no parameters"));
    assert!(c.configure(RawEffectParams::Value(ParamValue::Integer(1))).is_err());
}

#[test]
fn a_few_failures_pass_frames_through() {
    let mut l = loader();
    l.failures = 3;
    let mut c = CompositeEffect::new(stage(l), Vec::new(), Vec::new(), Vec::new(), Vec::new());
    c.prepare(&stream()).expect("the first failure meets the warm-up");
    for _ in 0..2 {
        let mut f = frame(4, 4, 9);
        let mut ctx = FrameContext::default();
        c.process(&mut f, &mut ctx).expect("passed through");
        assert!(ctx.fallback_active);
        assert!(f.data.as_slice().iter().all(|b| *b == 9));
    }
    let mut ctx = FrameContext::default();
    c.process(&mut frame(4, 4, 9), &mut ctx).expect("recovered");
    assert!(!ctx.fallback_active);
}

// ---------------------------------------------------------------------------
// Segmentation
// ---------------------------------------------------------------------------

fn seg_config(model: &str, fallback_threshold: u32) -> SegmentationConfig {
    SegmentationConfig {
        model: model.to_string(),
        model_config: None,
        fallback_threshold,
    }
}

#[test]
fn segmentation_config_parses_with_defaults() {
    let mut table = ParamTable::new();
    table.insert("model".to_string(), ParamValue::Text("/tmp/dummy.onnx".to_string()));
    let parsed = SegmentationConfig::from_params(RawEffectParams::Table(table)).expect("parse ok");
    assert_eq!(parsed.fallback_threshold, 3);
    assert!(parsed.model_config.is_none());
    assert_eq!(parsed.model, "/tmp/dummy.onnx");
}

#[test]
fn segmentation_config_refuses_what_it_does_not_know() {
    let read = |entries: Vec<(&str, ParamValue)>| {
        let mut table = ParamTable::new();
        for (key, value) in entries {
            table.insert(key.to_string(), value);
        }
        SegmentationConfig::from_params(RawEffectParams::Table(table))
    };
    let path = || ("model", ParamValue::Text("/m.onnx".to_string()));
    assert_eq!(read(vec![]).expect_err("model"), "missing field `model`");
    assert_eq!(
        read(vec![path(), ("treshold", ParamValue::Integer(1))]).expect_err("name"),
        "unknown field"
    );
    assert_eq!(
        read(vec![path(), ("fallback_threshold", ParamValue::Integer(-1))]).expect_err("range"),
        "`fallback_threshold` is out of range: -1"
    );
    let all = read(vec![
        path(),
        ("model_config", ParamValue::Text("/m.toml".to_string())),
        ("fallback_threshold", ParamValue::Integer(5)),
    ])
    .expect("accepted");
    assert_eq!(all.model_config.as_deref(), Some("/m.toml"));
    assert_eq!(all.fallback_threshold, 5);
}

#[test]
fn segmentation_validate_rejects_missing_model() {
    assert!(seg_config("", 3).validate().is_err());
}

#[test]
fn validate_rejects_non_onnx() {
    let err = seg_config("/tmp/model.bin", 3).validate().expect_err("non-onnx must fail");
    assert!(err.to_string().contains("onnx"));
}

#[test]
fn validate_rejects_zero_threshold() {
    assert!(seg_config("/tmp/m.onnx", 0).validate().is_err());
    assert!(seg_config("/tmp/m.onnx", 1).validate().is_ok());
    assert!(seg_config("/tmp/M.ONNX", 1).validate().is_ok());
    assert!(seg_config("/tmp/.onnx", 1).validate().is_err());
}

#[test]
fn segmentation_decodes_into_the_mask_and_times_the_engine() {
    let mut s = stage(loader());
    s.prepare(&stream()).expect("prepare");
    assert_eq!(s.model_dimensions(), (2, 2));
    assert!(s.engine_loaded());
    let mut ctx = FrameContext::default();
    ctx.telemetry = EffectTelemetry::with_inference(LatencyHistogram::with_capacity(4));
    match s.process(&frame(4, 4, 1), &mut ctx) {
        SegmentationOutcome::Segmented { width, height } => assert_eq!((width, height), (2, 2)),
        other => panic!("{other:?}"),
    }
    let mask: Vec<f32> = s.mask().iter().map(|b| f32::from_bits(*b)).collect();
    assert_eq!(mask, vec![1.0, 0.0, 0.0, 0.0]);
    assert_eq!(ctx.telemetry.inference().expect("sink").snapshot().len(), 1);
}

#[test]
fn segmentation_ends_after_too_many_failures() {
    let mut l = loader();
    l.failures = 100;
    let mut s = stage(l);
    s.prepare(&stream()).expect("prepare");
    let mut ctx = FrameContext::default();
    for _ in 0..2 {
        assert!(matches!(s.process(&frame(4, 4, 1), &mut ctx), SegmentationOutcome::Fallback));
    }
    match s.process(&frame(4, 4, 1), &mut ctx) {
        SegmentationOutcome::Fatal(EffectError::Inference { name, .. }) => {
            assert_eq!(name, "segmentation");
        }
        other => panic!("{other:?}"),
    }
}

#[test]
fn segmentation_without_an_engine_says_so() {
    let mut s = stage(loader());
    s.prepare(&stream()).expect("prepare");
    let engine = s.take_engine().expect("an engine");
    match s.process(&frame(4, 4, 1), &mut FrameContext::default()) {
        SegmentationOutcome::Fatal(e) => assert!(e.to_string().contains("before prepare")),
        other => panic!("{other:?}"),
    }
    s.install_engine(engine);
    assert!(matches!(
        s.process(&frame(4, 4, 1), &mut FrameContext::default()),
        SegmentationOutcome::Segmented { .. }
    ));
}

#[test]
fn a_missing_model_is_reported_at_prepare() {
    let mut s = SegmentationBase::new(seg_config("/missing.onnx", 3), Math, loader());
    match s.prepare(&stream()) {
        Err(EffectError::PrepareFailed { reason, .. }) => {
            assert!(reason.contains("/missing.onnx"), "{reason}");
        }
        other => panic!("{other:?}"),
    }
    assert!(!s.engine_loaded());
    assert!(s.model_config().is_none());
}

#[test]
fn each_failure_to_prepare_the_stage_has_its_error() {
    let mut gray = stream();
    gray.format = PixelFormat::Gray8;
    let mut s = SegmentationBase::new(seg_config("/a.onnx", 3), Math, loader());
    let err = s.prepare(&gray).expect_err("not RGB");
    assert!(matches!(err, EffectError::InvalidConfig { .. }), "{err:?}");
    assert!(err.to_string().contains("segmentation requires RGB input, got Gray8"));

    let mut s = SegmentationBase::new(seg_config("/unbuilt.onnx", 3), Math, loader());
    let err = s.prepare(&stream()).expect_err("no engine");
    assert!(matches!(err, EffectError::Inference { .. }), "{err:?}");
    assert!(!s.engine_loaded());
}

#[test]
fn a_given_model_configuration_is_read_in_place_of_the_one_next_to_the_model() {
    let mut config = seg_config("/missing.onnx", 3);
    config.model_config = Some("/own.toml".to_string());
    let mut s = SegmentationBase::new(config, Math, loader());
    s.prepare(&stream()).expect("prepare");
    assert_eq!(s.model_config().expect("loaded").name, "/own.toml");

    let mut s = SegmentationBase::new(seg_config("/a.onnx", 3), Math, loader());
    s.prepare(&stream()).expect("prepare");
    assert_eq!(s.model_config().expect("loaded").name, "fixed");
}

#[test]
fn mask_effects_run_on_the_models_mask() {
    let made = masks().get("invert").expect("registered").factory.build();
    let slot: Slot<dyn MaskEffect> = Slot::new(made.effect, true);
    let fill = planes().get("color_fill").expect("registered").factory.build().effect;
    let mut c = CompositeEffect::new(
        stage(loader()),
        vec![slot],
        vec![Slot::new(fill, true)],
        Vec::new(),
        Vec::new(),
    );
    c.prepare(&stream()).expect("prepare");
    let mut f = frame(4, 4, 200);
    c.process(&mut f, &mut FrameContext::default()).expect("process");
    assert_eq!(f.data.as_slice()[0], 0);
    assert_eq!(f.data.as_slice()[45], 200);
}

fn timed_context() -> FrameContext {
    let mut ctx = FrameContext::default();
    ctx.telemetry = EffectTelemetry::default().with_stages(StageTimings::with_capacity(4));
    ctx
}

fn timings(ctx: &FrameContext, scope: &str, stage: &str) -> usize {
    ctx.telemetry
        .stage_timings()
        .expect("stages are kept")
        .snapshot(scope, stage)
        .map_or(0, |s| s.len())
}

#[test]
fn every_stage_and_enabled_effect_is_timed_once() {
    let mut c = composite_with_background(&["color_fill", "vignette"]);
    c.prepare(&stream()).expect("prepare");
    c.set_effect_enabled(SubchainKind::Background, "vignette", false).expect("known");
    let mut ctx = timed_context();
    c.process(&mut frame(4, 4, 200), &mut ctx).expect("process");
    for stage in [
        "seg",
        "mask_chain",
        "mask_resize",
        "bg_copy",
        "bg_chain",
        "fg_chain",
        "compose",
        "post_chain",
    ] {
        assert_eq!(timings(&ctx, "composite", stage), 1, "{stage}");
    }
    assert_eq!(timings(&ctx, "background", "color_fill"), 1);
    assert_eq!(timings(&ctx, "background", "vignette"), 0);
    c.process(&mut frame(4, 4, 200), &mut ctx).expect("process");
    assert_eq!(timings(&ctx, "composite", "seg"), 2);
    assert_eq!(timings(&ctx, "background", "color_fill"), 2);
}

#[test]
fn a_frame_that_passes_through_times_the_segmentation_alone() {
    let mut l = loader();
    l.failures = 2;
    let fill = planes().get("color_fill").expect("registered").factory.build().effect;
    let mut c = CompositeEffect::new(
        stage(l),
        Vec::new(),
        vec![Slot::new(fill, true)],
        Vec::new(),
        Vec::new(),
    );
    c.prepare(&stream()).expect("prepare");
    let mut ctx = timed_context();
    let mut f = frame(4, 4, 200);
    c.process(&mut f, &mut ctx).expect("passes through");
    assert!(ctx.fallback_active);
    assert!(f.data.as_slice().iter().all(|b| *b == 200));
    assert_eq!(timings(&ctx, "composite", "seg"), 1);
    assert_eq!(timings(&ctx, "composite", "mask_chain"), 0);
    assert_eq!(timings(&ctx, "background", "color_fill"), 0);
}

/// A mask of one value, given to a chain of one threshold effect that a section
/// configures.
fn thresholded(level: f32, value: f32) -> f32 {
    let section = section(
        &["threshold"],
        vec![("threshold", vec![("level", ParamValue::Float(level.to_bits()))])],
    );
    let chain = build_mask_chain(&masks(), &section, &ConfigBase::default()).expect("accepted");
    let mut l = loader();
    l.mask = vec![value; 4];
    let mut c = CompositeEffect::new(stage(l), chain, Vec::new(), Vec::new(), Vec::new());
    c.prepare(&stream()).expect("prepare");
    c.process(&mut frame(4, 4, 200), &mut FrameContext::default()).expect("process");
    f32::from_bits(c.segmentation().mask()[0])
}

#[test]
fn a_built_effect_runs_under_its_own_table() {
    assert_eq!(thresholded(0.7, 0.6), 0.0);
    assert_eq!(thresholded(0.3, 0.6), 1.0);
}

#[test]
fn the_next_frame_runs_under_new_parameters() {
    let section = section(&["threshold"], vec![]);
    let chain = build_mask_chain(&masks(), &section, &ConfigBase::default()).expect("accepted");
    let mut l = loader();
    l.mask = vec![0.6; 4];
    let mut c = CompositeEffect::new(stage(l), chain, Vec::new(), Vec::new(), Vec::new());
    c.prepare(&stream()).expect("prepare");
    c.process(&mut frame(4, 4, 200), &mut FrameContext::default()).expect("process");
    assert_eq!(f32::from_bits(c.segmentation().mask()[0]), 1.0);
    let mut table = ParamTable::new();
    table.insert("level".to_string(), ParamValue::Float(0.7_f32.to_bits()));
    c.reconfigure_named_effect(SubchainKind::Mask, "threshold", RawEffectParams::Table(table))
        .expect("accepted");
    c.process(&mut frame(4, 4, 200), &mut FrameContext::default()).expect("process");
    assert_eq!(f32::from_bits(c.segmentation().mask()[0]), 0.0);
}
