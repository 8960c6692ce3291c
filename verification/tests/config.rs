//! Configuration: defaults, validation, pixel-format tags, devices and scaling.

use fluxframe::config::{
    default_idle_resync_interval_secs, parse_pixel_format, pixel_format_tag, AutoInputConfig,
    FluxConfig, IdlePlaceholderKind, InputConfig, InputDevice, OutputScale,
    MAX_IDLE_RESYNC_INTERVAL_SECS, MIN_IDLE_RESYNC_INTERVAL_SECS,
};
use fluxframe::error::{Diagnostic, FluxError};
use fluxframe::frame::PixelFormat;

fn rejection(cfg: &FluxConfig) -> String {
    cfg.validate().expect_err("must be rejected").to_string()
}

fn scale(v: f32) -> Result<OutputScale, FluxError> {
    OutputScale::new(v.to_bits())
}

fn refused_scale(v: f32) -> String {
    scale(v).expect_err("must be rejected").to_string()
}

#[test]
fn config_validation_rejects_zero_dimensions() {
    let mut cfg = FluxConfig::default();
    cfg.input.width = 0;
    assert!(cfg.validate().is_err());
}

#[test]
fn config_validation_rejects_oversized_width() {
    let mut cfg = FluxConfig::default();
    cfg.input.width = 30_000;
    let msg = rejection(&cfg);
    assert!(msg.contains("16384"), "error must mention the upper bound, got: {msg}");
}

#[test]
fn config_validation_rejects_excessive_fps() {
    let mut cfg = FluxConfig::default();
    cfg.input.fps = 999;
    let msg = rejection(&cfg);
    assert!(msg.contains("240"), "error must mention the fps upper bound, got: {msg}");
}

#[test]
fn config_validation_rejects_excessive_metrics_interval() {
    let mut cfg = FluxConfig::default();
    cfg.realtime.metrics_interval_secs = 50_000;
    let msg = rejection(&cfg);
    assert!(msg.contains("metrics_interval_secs"), "got: {msg}");
    assert!(msg.contains("3600"), "got: {msg}");
}

#[test]
fn config_validation_accepts_zero_metrics_interval_as_disabled() {
    let mut cfg = FluxConfig::default();
    cfg.realtime.metrics_interval_secs = 0;
    assert!(cfg.validate().is_ok());
}

#[test]
fn idle_default_is_off_and_validates() {
    let cfg = FluxConfig::default();
    assert!(!cfg.idle.enabled);
    assert!(cfg.idle.is_off());
    assert!(cfg.validate().is_ok());
}

#[test]
fn idle_validation_rejects_zero_fps() {
    let mut cfg = FluxConfig::default();
    cfg.idle.fps = 0;
    assert!(rejection(&cfg).contains("idle.fps"));
}

#[test]
fn idle_validation_rejects_excessive_fps() {
    let mut cfg = FluxConfig::default();
    cfg.idle.fps = 200;
    assert!(rejection(&cfg).contains("60"));
}

#[test]
fn idle_validation_accepts_deep_le_teardown() {
    let mut cfg = FluxConfig::default();
    cfg.idle.teardown_secs = 10;
    cfg.idle.deep_idle_secs = 10;
    assert!(cfg.validate().is_ok());
}

#[test]
fn idle_validation_rejects_excessive_min_visibility_fps() {
    let mut cfg = FluxConfig::default();
    cfg.idle.min_visibility_fps = 200;
    assert!(rejection(&cfg).contains("min_visibility_fps"));
}

#[test]
fn input_validation_rejects_zero_acquire_backoff_base() {
    let mut cfg = FluxConfig::default();
    cfg.input.acquire_backoff_base_ms = 0;
    assert!(rejection(&cfg).contains("acquire_backoff_base_ms"));
}

#[test]
fn input_validation_rejects_max_below_base() {
    let mut cfg = FluxConfig::default();
    cfg.input.acquire_backoff_base_ms = 2000;
    cfg.input.acquire_backoff_max_ms = 1000;
    assert!(rejection(&cfg).contains("acquire_backoff_max_ms"));
}

#[test]
fn input_validation_accepts_default_backoff() {
    let cfg = FluxConfig::default();
    assert_eq!(cfg.input.acquire_backoff_base_ms, 500);
    assert_eq!(cfg.input.acquire_backoff_max_ms, 5000);
    assert!(cfg.validate().is_ok());
}

#[test]
fn idle_validation_rejects_zero_deep_idle_secs() {
    let mut cfg = FluxConfig::default();
    cfg.idle.deep_idle_secs = 0;
    let msg = rejection(&cfg);
    assert!(msg.contains("deep_idle_secs"), "error must mention the field, got: {msg}");
    assert!(msg.contains("> 0"), "error must point at the > 0 requirement, got: {msg}");
}

#[test]
fn idle_validation_rejects_poll_interval_below_min() {
    let mut cfg = FluxConfig::default();
    cfg.idle.poll_interval_ms = 50;
    assert!(rejection(&cfg).contains("poll_interval_ms"));
}

#[test]
fn idle_validation_requires_path_when_image_kind() {
    let mut cfg = FluxConfig::default();
    cfg.idle.placeholder = IdlePlaceholderKind::Image;
    assert!(rejection(&cfg).contains("placeholder_path"));
}

#[test]
fn idle_image_kind_with_a_path_is_accepted() {
    let mut cfg = FluxConfig::default();
    cfg.idle.placeholder = IdlePlaceholderKind::Image;
    cfg.idle.placeholder_path = Some("/tmp/idle.png".to_string());
    assert!(cfg.validate().is_ok());
}

#[test]
fn output_scale_rejects_nonpositive() {
    assert!(refused_scale(0.0).contains("output.scale"));
    assert!(refused_scale(-0.5).contains("output.scale"));
}

#[test]
fn output_scale_rejects_nan_and_infinity() {
    let msg = refused_scale(f32::NAN);
    assert!(msg.contains("NaN"), "NaN-specific message expected: {msg}");
    assert!(refused_scale(f32::INFINITY).contains("output.scale"));
    assert!(refused_scale(f32::NEG_INFINITY).contains("output.scale"));
}

#[test]
fn output_scale_upper_bound_is_inclusive_at_one() {
    assert!(scale(1.0).is_ok());
    let just_over = 1.0_f32 + f32::EPSILON * 4.0;
    assert!(refused_scale(just_over).contains("upscaling"));
}

#[test]
fn output_scale_rejects_below_min() {
    let msg = refused_scale(1e-30);
    assert!(msg.contains("0.05"), "min bound must be reported: {msg}");
}

#[test]
fn output_scale_rejects_upscale() {
    let msg = refused_scale(1.5);
    assert!(msg.contains("upscaling"), "hint must mention upscaling: {msg}");
}

#[test]
fn output_scale_accepts_valid_range() {
    assert!(scale(1.0).is_ok());
    assert!(scale(0.5).is_ok());
    assert!(scale(0.05).is_ok());
}

#[test]
fn output_scale_default_is_identity() {
    let s = OutputScale::default();
    assert!((f32::from_bits(s.value()) - 1.0).abs() < f32::EPSILON);
    assert_eq!(s.value(), OutputScale::identity().value());
}

#[test]
fn output_effective_dimensions_scales_and_rounds_even() {
    let mut cfg = FluxConfig::default();
    cfg.output.scale = OutputScale::identity();
    assert_eq!(cfg.output.effective_dimensions(1280, 720), (1280, 720));
    cfg.output.scale = scale(0.5).expect("0.5 valid");
    assert_eq!(cfg.output.effective_dimensions(1280, 720), (640, 360));
    cfg.output.scale = scale(2.0 / 3.0).expect("2/3 valid");
    assert_eq!(cfg.output.effective_dimensions(1920, 1080), (1280, 720));
    cfg.output.scale = scale(0.5).expect("0.5 valid");
    assert_eq!(cfg.output.effective_dimensions(641, 481), (320, 240));
    cfg.output.scale = scale(0.05).expect("0.05 = MIN valid");
    let (w, h) = cfg.output.effective_dimensions(1280, 720);
    assert!(w >= 2 && h >= 2, "got {w}x{h}");
    assert!(w & 1 == 0 && h & 1 == 0, "must be even: {w}x{h}");
}

/// The same arithmetic in double precision, over many sizes and scales.
#[test]
fn effective_dimensions_agree_with_double_precision() {
    let mut cfg = FluxConfig::default();
    for step in 5..=100u32 {
        let s = step as f32 / 100.0;
        cfg.output.scale = scale(s).expect("in range");
        for n in [1u32, 2, 3, 17, 640, 641, 719, 1080, 1920, 4095, 16383, 16384, 4_294_967_295] {
            let scaled = (f64::from(n) * f64::from(s)).round() as u32;
            let expected = (scaled & !1).max(2);
            assert_eq!(cfg.output.effective_dimensions(n, n), (expected, expected), "{n} * {s}");
        }
    }
}

#[test]
fn config_validation_rejects_unbounded_inflight() {
    let mut cfg = FluxConfig::default();
    cfg.realtime.max_inflight_frames = 100;
    let msg = rejection(&cfg);
    assert!(msg.contains("max_inflight_frames"), "got: {msg}");
}

#[test]
fn config_validation_accepts_defaults() {
    assert!(FluxConfig::default().validate().is_ok());
}

#[test]
fn validation_reports_a_configuration_error() {
    let mut cfg = FluxConfig::default();
    cfg.input.height = 0;
    let err = cfg.validate().expect_err("zero height");
    assert!(matches!(err, FluxError::Config { .. }));
    assert!(!err.reason().is_empty());
}

#[test]
fn input_device_serde_deserialises_auto_testsrc_path() {
    assert_eq!(InputDevice::parse("auto"), InputDevice::Auto);
    assert_eq!(InputDevice::parse("AUTO"), InputDevice::Auto);
    assert_eq!(InputDevice::parse("testsrc"), InputDevice::Testsrc);
    assert_eq!(
        InputDevice::parse("/dev/video0"),
        InputDevice::Path("/dev/video0".to_string())
    );
    assert_eq!(InputDevice::Auto.to_string(), "auto");
    assert_eq!(InputDevice::Testsrc.to_string(), "testsrc");
    assert_eq!(
        InputDevice::Path("/dev/video0".to_string()).to_string(),
        "/dev/video0"
    );
}

#[test]
fn auto_input_defaults_are_sensible() {
    let auto = AutoInputConfig::default();
    assert!(auto.poll_interval_secs >= 1);
    assert!(auto.exclude_devices.is_empty());
}

#[test]
fn config_format_parses_as_enum() {
    assert_eq!(parse_pixel_format("YUY2"), Ok(PixelFormat::Yuy2));
}

#[test]
fn pixel_format_serde_roundtrip_all_variants() {
    for fmt in [
        PixelFormat::Rgb,
        PixelFormat::Rgba,
        PixelFormat::Bgr,
        PixelFormat::Yuy2,
        PixelFormat::Nv12,
        PixelFormat::Gray8,
    ] {
        let cfg = InputConfig {
            format: fmt,
            ..InputConfig::default()
        };
        let tag = pixel_format_tag(cfg.format);
        assert_eq!(parse_pixel_format(tag), Ok(fmt), "roundtrip failed for {fmt:?}");
    }
}

#[test]
fn unknown_pixel_format_names_the_choices() {
    let msg = parse_pixel_format("RGB48").expect_err("unknown");
    assert!(msg.contains("RGB48"), "got: {msg}");
    assert!(msg.contains("GRAY8"), "got: {msg}");
}

fn with_resync(secs: u32) -> FluxConfig {
    let mut cfg = FluxConfig::default();
    cfg.idle.enabled = true;
    cfg.idle.resync_interval_secs = secs;
    cfg
}

#[test]
fn resync_interval_defaults_when_absent() {
    let mut cfg = FluxConfig::default();
    cfg.idle.enabled = true;
    assert_eq!(cfg.idle.resync_interval_secs, default_idle_resync_interval_secs());
    assert!(cfg.validate().is_ok());
}

#[test]
fn resync_interval_zero_is_accepted_as_disabled() {
    assert!(with_resync(0).validate().is_ok());
}

#[test]
fn resync_interval_below_the_floor_is_rejected() {
    assert!(with_resync(MIN_IDLE_RESYNC_INTERVAL_SECS - 1).validate().is_err());
}

#[test]
fn resync_interval_above_the_ceiling_is_rejected() {
    assert!(with_resync(MAX_IDLE_RESYNC_INTERVAL_SECS + 1).validate().is_err());
}

#[test]
fn resync_interval_at_the_bounds_is_accepted() {
    for value in [MIN_IDLE_RESYNC_INTERVAL_SECS, MAX_IDLE_RESYNC_INTERVAL_SECS] {
        assert!(with_resync(value).validate().is_ok(), "{value}");
    }
}

#[test]
fn control_section_defaults_disabled() {
    let cfg = FluxConfig::default();
    assert!(!cfg.control.enabled);
    assert!(cfg.control.socket_path.is_none());
}

#[test]
fn presets_parse_empty_map_when_section_absent() {
    assert_eq!(FluxConfig::default().presets.len(), 0);
}

#[test]
fn preset_empty_subsections_are_all_none() {
    let preset = fluxframe::config::Preset::default();
    assert!(preset.mask.is_none());
    assert!(preset.background.is_none());
    assert!(preset.foreground.is_none());
}
