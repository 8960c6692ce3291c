//! Blur backends, backend choice and run-time fallback.

use fluxframe::backend::blur::{BlurBackend, BlurHandle, CpuBlurBackend};
use fluxframe::backend::blur_factory::{build_blur_backend, StickyBlurFallback};
use fluxframe::backend::inference::{
    build_inference_engine, openvino_device, StickyInferenceFallback, DEFAULT_OPENVINO_DEVICE,
};
use fluxframe::backend::overrides::{
    BackendOverrides, BlurBackendChoice, InferenceBackendChoice, ENV_BLUR, ENV_INFERENCE,
};
use fluxframe::backend::wgpu_backend::{BlurDevice, Dispatch, WgpuBlurBackend};
use fluxframe::backend::wgpu_blur::{
    pack_uniform, pad_rgb_to_rgba, padded_bytes_per_row, strip_rgba_to_rgb, workgroups,
};
use fluxframe::error::{EffectError, InferenceError};
use fluxframe::frame::PixelFormat;
use fluxframe::metrics::Counters;
use fluxframe::ml::engine::RawOutput;
use fluxframe::ml::model_config::ModelConfig;
use fluxframe::ml::onnx::{CommittedModel, OnnxRuntime, PathProblem, RunProblem};
use fluxframe::ml::openvino_engine::{OpenVinoRuntime, RequestProblem};
use fluxframe::processing::blur::box_blur_rgb;
use fluxframe::traits::{
    InferenceEngine, InferenceInput, InferenceOutput, LoadedEngine, ModelInfo,
};
use std::cell::Cell;

type Probe = fn() -> Result<BlurHandle, EffectError>;

const NO_PROBE: Option<Probe> = None;

// ---------------------------------------------------------------------------
// Box blur on the CPU
// ---------------------------------------------------------------------------

#[test]
fn blur_name_is_stable() {
    let b = CpuBlurBackend::new();
    assert_eq!(b.name(), "cpu");
}

#[test]
fn prepare_rejects_too_small_frame() {
    let mut b = CpuBlurBackend::new();
    assert!(b.prepare(1, 4).is_err());
    assert!(b.prepare(4, 1).is_err());
    assert!(b.prepare(0, 0).is_err());
}

#[test]
fn prepare_then_blur_matches_direct_call() {
    let w = 8u32;
    let h = 4u32;
    let mut src = vec![0u8; (w * h * 3) as usize];
    for (i, b) in src.iter_mut().enumerate() {
        *b = ((i * 7) % 251) as u8;
    }
    let mut dst_backend = vec![0u8; src.len()];
    let mut dst_direct = vec![0u8; src.len()];
    let mut scratch_direct = vec![0u8; src.len()];

    let mut backend = CpuBlurBackend::new();
    backend.prepare(w, h).expect("prepare");
    backend.blur(&src, &mut dst_backend, w, h, 2, 1).expect("blur");
    box_blur_rgb(&src, &mut dst_direct, &mut scratch_direct, w, h, 2, 1);

    assert_eq!(dst_backend, dst_direct, "backend output must match direct output bit for bit");
    assert_ne!(dst_backend, src, "the blur changes a pattern");
}

/// One pass in each direction: the mean over the window, clamped at the edges
/// and rounded down.
#[test]
fn box_blur_is_the_clamped_mean() {
    let (w, h, radius) = (5i64, 4i64, 2i64);
    let src: Vec<u8> = (0..(w * h * 3)).map(|i| ((i * 37 + 11) % 256) as u8).collect();
    let at = |img: &[u8], x: i64, y: i64, c: i64| -> u32 {
        let x = x.clamp(0, w - 1);
        let y = y.clamp(0, h - 1);
        u32::from(img[((y * w + x) * 3 + c) as usize])
    };
    let window = (2 * radius + 1) as u32;
    let mut rows = src.clone();
    for y in 0..h {
        for x in 0..w {
            for c in 0..3 {
                let sum: u32 = (-radius..=radius).map(|d| at(&src, x + d, y, c)).sum();
                rows[((y * w + x) * 3 + c) as usize] = (sum / window) as u8;
            }
        }
    }
    let mut expected = rows.clone();
    for y in 0..h {
        for x in 0..w {
            for c in 0..3 {
                let sum: u32 = (-radius..=radius).map(|d| at(&rows, x, y + d, c)).sum();
                expected[((y * w + x) * 3 + c) as usize] = (sum / window) as u8;
            }
        }
    }
    let mut dst = vec![0u8; src.len()];
    let mut scratch = vec![0u8; src.len()];
    box_blur_rgb(&src, &mut dst, &mut scratch, w as u32, h as u32, radius as u32, 1);
    assert_eq!(dst, expected);
}

#[test]
fn a_uniform_plane_stays_as_it_is() {
    let src = vec![77u8; 6 * 5 * 3];
    let mut dst = vec![0u8; src.len()];
    let mut scratch = vec![0u8; src.len()];
    box_blur_rgb(&src, &mut dst, &mut scratch, 6, 5, 3, 4);
    assert_eq!(dst, src);
}

#[test]
fn radius_or_passes_of_zero_copy_the_plane() {
    let src: Vec<u8> = (0..48).collect();
    let mut scratch = vec![0u8; src.len()];
    for (radius, passes) in [(0, 3), (3, 0), (0, 0)] {
        let mut dst = vec![0u8; src.len()];
        box_blur_rgb(&src, &mut dst, &mut scratch, 4, 4, radius, passes);
        assert_eq!(dst, src);
    }
}

#[test]
fn blur_rejects_dimension_mismatch() {
    let mut b = CpuBlurBackend::new();
    b.prepare(8, 8).expect("prepare");
    let src = vec![0u8; 8 * 8 * 3];
    let mut dst = vec![0u8; 8 * 8 * 3];
    let err = b.blur(&src, &mut dst, 4, 8, 1, 1).expect_err("must fail");
    assert!(err.to_string().contains("differs from prepared"));
}

#[test]
fn blur_rejects_buffer_length_mismatch() {
    let mut b = CpuBlurBackend::new();
    b.prepare(4, 4).expect("prepare");
    let src = vec![0u8; 4 * 4 * 3];
    let mut dst_short = vec![0u8; 4 * 4 * 3 - 1];
    let err = b.blur(&src, &mut dst_short, 4, 4, 1, 1).expect_err("must fail");
    assert!(err.to_string().contains("buffer length"));
}

#[test]
fn reprepare_resizes_scratch() {
    let mut b = CpuBlurBackend::new();
    b.prepare(4, 4).expect("prepare 4x4");
    b.prepare(8, 6).expect("prepare 8x6");
    let src = vec![0u8; 8 * 6 * 3];
    let mut dst = vec![0u8; 8 * 6 * 3];
    b.blur(&src, &mut dst, 8, 6, 1, 1).expect("blur 8x6");
}

#[test]
fn cpu_backend_is_send() {
    fn assert_send<T: Send>(_: &T) {}
    let b: Box<dyn BlurBackend> = Box::new(CpuBlurBackend::new());
    assert_send(&b);
}

// ---------------------------------------------------------------------------
// Blur factory and fallback
// ---------------------------------------------------------------------------

struct FailingBlur {
    prepared: Cell<bool>,
    calls: Cell<u32>,
    fail_first_n: u32,
}

impl FailingBlur {
    fn new(fail_first_n: u32) -> Self {
        Self {
            prepared: Cell::new(false),
            calls: Cell::new(0),
            fail_first_n,
        }
    }
}

impl BlurBackend for FailingBlur {
    fn name(&self) -> &'static str {
        "failing-mock"
    }

    fn prepare(&mut self, _w: u32, _h: u32) -> Result<(), EffectError> {
        self.prepared.set(true);
        Ok(())
    }

    fn blur(
        &mut self,
        _src: &[u8],
        dst: &mut [u8],
        _w: u32,
        _h: u32,
        _r: u32,
        _p: u32,
    ) -> Result<(), EffectError> {
        let n = self.calls.get();
        self.calls.set(n + 1);
        if n < self.fail_first_n {
            Err(EffectError::ProcessFailed {
                name: "failing-mock".into(),
                reason: format!("synthetic failure call {n}"),
            })
        } else {
            dst.fill(0xAA);
            Ok(())
        }
    }

    fn published(&self) -> Option<&Counters> {
        None
    }
}

struct SentinelBlur {
    sentinel: u8,
}

impl BlurBackend for SentinelBlur {
    fn name(&self) -> &'static str {
        "sentinel"
    }

    fn prepare(&mut self, _w: u32, _h: u32) -> Result<(), EffectError> {
        Ok(())
    }

    fn blur(
        &mut self,
        _src: &[u8],
        dst: &mut [u8],
        _w: u32,
        _h: u32,
        _r: u32,
        _p: u32,
    ) -> Result<(), EffectError> {
        dst.fill(self.sentinel);
        Ok(())
    }

    fn published(&self) -> Option<&Counters> {
        None
    }
}

struct PrepareFailingBlur;

impl BlurBackend for PrepareFailingBlur {
    fn name(&self) -> &'static str {
        "broken-secondary"
    }

    fn prepare(&mut self, _w: u32, _h: u32) -> Result<(), EffectError> {
        Err(EffectError::PrepareFailed {
            name: "broken-secondary".into(),
            reason: "synthetic".into(),
        })
    }

    fn blur(
        &mut self,
        _: &[u8],
        _: &mut [u8],
        _: u32,
        _: u32,
        _: u32,
        _: u32,
    ) -> Result<(), EffectError> {
        unreachable!()
    }

    fn published(&self) -> Option<&Counters> {
        None
    }
}

fn handle<B: BlurBackend + 'static>(backend: B) -> BlurHandle {
    BlurHandle {
        backend: Box::new(backend),
    }
}

fn built(
    overrides: BackendOverrides,
    counters: Option<Counters>,
    probe: Option<Probe>,
) -> Result<&'static str, EffectError> {
    build_blur_backend(overrides, counters, probe).map(|h| h.backend.name())
}

#[test]
fn factory_auto_resolves_to_cpu() {
    assert_eq!(built(BackendOverrides::default(), None, NO_PROBE).expect("factory ok"), "cpu");
}

#[test]
fn factory_returns_cpu_for_explicit_cpu_override() {
    let overrides = BackendOverrides::default().with_blur(BlurBackendChoice::Cpu);
    assert_eq!(built(overrides, None, NO_PROBE).expect("factory ok"), "cpu");
}

#[test]
fn factory_cpu_override_ignores_counters() {
    let overrides = BackendOverrides::default().with_blur(BlurBackendChoice::Cpu);
    let name = built(overrides, Some(Counters::new()), NO_PROBE).expect("factory ok");
    assert_eq!(name, "cpu");
}

#[test]
fn factory_forced_wgpu_errors_without_feature() {
    let overrides = BackendOverrides::default().with_blur(BlurBackendChoice::Wgpu);
    let err = built(overrides, None, NO_PROBE).expect_err("must hard-error");
    let msg = err.to_string().to_lowercase();
    assert!(msg.contains("wgpu") || msg.contains("feature"));
}

#[test]
fn factory_forced_wgpu_takes_what_the_probe_finds() {
    fn found() -> Result<BlurHandle, EffectError> {
        Ok(handle(SentinelBlur { sentinel: 1 }))
    }
    fn failed() -> Result<BlurHandle, EffectError> {
        Err(EffectError::PrepareFailed {
            name: "probe".into(),
            reason: "no adapter".into(),
        })
    }
    let overrides = BackendOverrides::default().with_blur(BlurBackendChoice::Wgpu);
    assert_eq!(built(overrides, None, Some(found as Probe)).expect("bare"), "sentinel");
    assert_eq!(
        built(overrides, Some(Counters::new()), Some(found as Probe)).expect("wrapped"),
        "sentinel"
    );
    let err = built(overrides, None, Some(failed as Probe)).expect_err("probe failed");
    assert!(err.to_string().contains("no adapter"));
}

#[test]
fn fallback_starts_on_primary_and_reports_primary_name() {
    let decorator = StickyBlurFallback::new(
        handle(FailingBlur::new(1)),
        handle(SentinelBlur { sentinel: 0x55 }),
        "failing-mock",
        "sentinel",
        Counters::new(),
    );
    assert!(!decorator.has_fallen_back());
    assert_eq!(decorator.name(), "failing-mock");
    assert_eq!(decorator.labels(), ("failing-mock", "sentinel"));
    assert_eq!(decorator.counters().snapshot().blur_runtime_fallback_gpu_to_cpu, 0);
}

#[test]
fn blur_factory_fallback_transitions_on_first_error() {
    let mut decorator = StickyBlurFallback::new(
        handle(FailingBlur::new(1)),
        handle(SentinelBlur { sentinel: 0x55 }),
        "failing-mock",
        "sentinel",
        Counters::new(),
    );
    decorator.prepare(4, 4).expect("prepare both");
    let src = vec![0u8; 4 * 4 * 3];
    let mut dst = vec![0u8; 4 * 4 * 3];
    decorator.blur(&src, &mut dst, 4, 4, 1, 1).expect("blur succeeds via secondary");
    assert!(dst.iter().all(|&b| b == 0x55), "secondary sentinel must fill the buffer");
    assert!(decorator.has_fallen_back());
    assert_eq!(decorator.name(), "sentinel");
    assert_eq!(
        decorator.counters().snapshot().blur_runtime_fallback_gpu_to_cpu,
        1,
        "counter must increment exactly once on transition"
    );
}

#[test]
fn blur_factory_fallback_subsequent_calls_skip_primary() {
    let mut decorator = StickyBlurFallback::new(
        handle(FailingBlur::new(100)),
        handle(SentinelBlur { sentinel: 0x55 }),
        "failing-mock",
        "sentinel",
        Counters::new(),
    );
    decorator.prepare(4, 4).expect("prepare ok");
    let src = vec![0u8; 4 * 4 * 3];
    let mut dst = vec![0u8; 4 * 4 * 3];
    for _ in 0..10 {
        decorator.blur(&src, &mut dst, 4, 4, 1, 1).expect("all 10 succeed via secondary");
    }
    assert_eq!(decorator.counters().snapshot().blur_runtime_fallback_gpu_to_cpu, 1);
}

#[test]
fn boxed_blur_fallback_publishes_its_counters() {
    let mut boxed = handle(StickyBlurFallback::new(
        handle(FailingBlur::new(1)),
        handle(SentinelBlur { sentinel: 0x55 }),
        "failing-mock",
        "sentinel",
        Counters::new(),
    ));
    boxed.backend.prepare(4, 4).expect("prepare both");
    let src = vec![0u8; 4 * 4 * 3];
    let mut dst = vec![0u8; 4 * 4 * 3];
    for _ in 0..3 {
        boxed.backend.blur(&src, &mut dst, 4, 4, 1, 1).expect("blur succeeds via secondary");
    }
    let counters = boxed.backend.published().expect("the fallback counts");
    assert_eq!(counters.snapshot().blur_runtime_fallback_gpu_to_cpu, 1);
    assert!(handle(SentinelBlur { sentinel: 0 }).backend.published().is_none());
}

#[test]
fn fallback_uses_primary_when_it_succeeds() {
    let mut decorator = StickyBlurFallback::new(
        handle(SentinelBlur { sentinel: 0x11 }),
        handle(SentinelBlur { sentinel: 0x99 }),
        "primary-sentinel",
        "secondary-sentinel",
        Counters::new(),
    );
    decorator.prepare(4, 4).expect("prepare ok");
    let src = vec![0u8; 4 * 4 * 3];
    let mut dst = vec![0u8; 4 * 4 * 3];
    decorator.blur(&src, &mut dst, 4, 4, 1, 1).expect("ok");
    assert!(dst.iter().all(|&b| b == 0x11));
    assert!(!decorator.has_fallen_back());
    assert_eq!(decorator.counters().snapshot().blur_runtime_fallback_gpu_to_cpu, 0);
}

#[test]
fn fallback_prepare_failure_of_secondary_propagates() {
    let mut decorator = StickyBlurFallback::new(
        handle(SentinelBlur { sentinel: 0x11 }),
        handle(PrepareFailingBlur),
        "primary",
        "broken-secondary",
        Counters::new(),
    );
    let err = decorator.prepare(4, 4).expect_err("must fail");
    assert!(err.to_string().contains("synthetic"));
}

// ---------------------------------------------------------------------------
// Box blur on a graphics device
// ---------------------------------------------------------------------------

/// A device that hands the uploaded plane back, rows padded, with every red
/// channel replaced by the number of passes.
struct EchoDevice {
    fail: bool,
}

/// What was asked to be allocated.
struct Allocated {
    width: u32,
    height: u32,
    bytes_per_row: u32,
}

impl BlurDevice for EchoDevice {
    type Buffers = Allocated;

    fn allocate(&self, width: u32, height: u32, bytes_per_row: u32) -> Allocated {
        Allocated {
            width,
            height,
            bytes_per_row,
        }
    }

    fn run(&self, buffers: &Allocated, dispatch: Dispatch<'_>) -> Result<Vec<u8>, String> {
        if self.fail {
            return Err("device poll failed: lost".to_string());
        }
        assert_eq!((dispatch.width, dispatch.height), (buffers.width, buffers.height));
        assert_eq!(dispatch.bytes_per_row, buffers.bytes_per_row);
        assert_eq!(dispatch.groups_x, dispatch.width.div_ceil(8));
        assert_eq!(dispatch.groups_y, dispatch.height.div_ceil(8));
        let row = dispatch.bytes_per_row as usize;
        let line = dispatch.width as usize * 4;
        let mut out = vec![0u8; row * dispatch.height as usize];
        for y in 0..dispatch.height as usize {
            out[y * row..y * row + line].copy_from_slice(&dispatch.rgba[y * line..(y + 1) * line]);
            for x in 0..dispatch.width as usize {
                out[y * row + x * 4] = dispatch.passes as u8;
            }
        }
        Ok(out)
    }
}

fn echo(fail: bool) -> WgpuBlurBackend<EchoDevice> {
    WgpuBlurBackend::new(EchoDevice { fail })
}

#[test]
fn type_satisfies_blur_backend_trait_object() {
    fn accepts<T: BlurBackend + Send>(_t: &T) {}
    let b = echo(false);
    accepts(&b);
    let boxed: Box<dyn BlurBackend> = Box::new(b);
    assert_eq!(boxed.name(), "wgpu");
}

#[test]
fn device_blur_uploads_runs_and_strips() {
    let mut b = echo(false);
    b.prepare(5, 3).expect("prepare");
    let src: Vec<u8> = (0..45).collect();
    let mut dst = vec![0u8; 45];
    b.blur(&src, &mut dst, 5, 3, 2, 4).expect("blur");
    for p in 0..15 {
        assert_eq!(dst[p * 3], 4);
        assert_eq!(&dst[p * 3 + 1..p * 3 + 3], &src[p * 3 + 1..p * 3 + 3]);
    }
}

#[test]
fn device_blur_shortcut_copies() {
    let mut b = echo(true);
    b.prepare(2, 2).expect("prepare");
    let src: Vec<u8> = (0..12).collect();
    let mut dst = vec![0u8; 12];
    b.blur(&src, &mut dst, 2, 2, 0, 4).expect("radius zero never reaches the device");
    assert_eq!(dst, src);
}

#[test]
fn device_blur_reports_errors() {
    let mut b = echo(true);
    assert!(b.prepare(1, 9).expect_err("too small").to_string().contains("too small"));
    b.prepare(2, 2).expect("prepare");
    let src = vec![0u8; 12];
    let mut dst = vec![9u8; 12];
    let err = b.blur(&src, &mut dst, 2, 2, 1, 1).expect_err("device failed");
    assert!(err.to_string().contains("lost"));
    assert_eq!(dst, vec![9u8; 12]);
    let err = b.blur(&src, &mut dst, 3, 2, 1, 1).expect_err("size");
    assert!(err.to_string().contains("differs from prepared 2x2"));
    let err = b.blur(&src[..9], &mut dst, 2, 2, 1, 1).expect_err("length");
    assert!(err.to_string().contains("src=9, dst=12, expected=12"));
    let err = echo(false).blur(&[], &mut [], 0, 0, 1, 1).expect_err("unprepared");
    assert!(err.to_string().contains("before prepare"));
}

#[test]
fn padded_bytes_per_row_is_aligned() {
    let align = wgpu::COPY_BYTES_PER_ROW_ALIGNMENT;
    for w in [1u32, 4, 63, 64, 65, 256, 257, 1280, 1920] {
        let padded = padded_bytes_per_row(w);
        assert!(padded >= w * 4);
        assert_eq!(padded % align, 0, "row stride {padded} not aligned for w={w}");
    }
}

#[test]
fn workgroups_cover_the_frame() {
    assert_eq!(workgroups(1), 1);
    assert_eq!(workgroups(8), 1);
    assert_eq!(workgroups(9), 2);
    assert_eq!(workgroups(u32::MAX), u32::MAX.div_ceil(8));
}

#[test]
fn pad_then_strip_round_trips() {
    let w = 4u32;
    let h = 3u32;
    let src: Vec<u8> = (0..(w * h * 3) as u8).collect();
    let mut padded_buf = vec![0u8; (w * h * 4) as usize];
    pad_rgb_to_rgba(&src, &mut padded_buf);
    let bpr = padded_bytes_per_row(w);
    let mut staging = vec![0u8; (bpr * h) as usize];
    for y in 0..h as usize {
        let row_offset = y * bpr as usize;
        let src_row_offset = y * (w * 4) as usize;
        staging[row_offset..row_offset + (w * 4) as usize]
            .copy_from_slice(&padded_buf[src_row_offset..src_row_offset + (w * 4) as usize]);
    }
    let mut roundtrip = vec![0u8; src.len()];
    strip_rgba_to_rgb(&staging, &mut roundtrip, w, h, bpr);
    assert_eq!(roundtrip, src);
}

#[test]
fn pack_uniform_layout() {
    let buf = pack_uniform(1280, 720, 21);
    assert_eq!(&buf[0..4], &1280u32.to_le_bytes());
    assert_eq!(&buf[4..8], &720u32.to_le_bytes());
    assert_eq!(&buf[8..12], &21u32.to_le_bytes());
    assert_eq!(&buf[12..16], &[0u8; 4]);
}

// ---------------------------------------------------------------------------
// Overrides
// ---------------------------------------------------------------------------

#[test]
fn defaults_when_unset() {
    let o = BackendOverrides::from_lookup(|_: &str| None);
    assert_eq!(o.inference, InferenceBackendChoice::Auto);
    assert_eq!(o.blur, BlurBackendChoice::Auto);
}

#[test]
fn empty_string_treated_as_unset() {
    let o = BackendOverrides::from_lookup(|_: &str| Some(String::new()));
    assert_eq!(o.inference, InferenceBackendChoice::Auto);
    assert_eq!(o.blur, BlurBackendChoice::Auto);
}

#[test]
fn whitespace_treated_as_unset() {
    let o = BackendOverrides::from_lookup(|_: &str| Some("   ".into()));
    assert_eq!(o.inference, InferenceBackendChoice::Auto);
    assert_eq!(o.blur, BlurBackendChoice::Auto);
}

#[test]
fn parses_cpu_override_per_component() {
    let o = BackendOverrides::from_lookup(|k: &str| match k {
        ENV_INFERENCE => Some("cpu".into()),
        _ => None,
    });
    assert_eq!(o.inference, InferenceBackendChoice::Cpu);
    assert_eq!(o.blur, BlurBackendChoice::Auto);

    let o = BackendOverrides::from_lookup(|k: &str| match k {
        ENV_BLUR => Some("cpu".into()),
        _ => None,
    });
    assert_eq!(o.inference, InferenceBackendChoice::Auto);
    assert_eq!(o.blur, BlurBackendChoice::Cpu);
}

#[test]
fn parses_case_insensitive() {
    let o = BackendOverrides::from_lookup(|k: &str| match k {
        ENV_INFERENCE => Some("CPU".into()),
        ENV_BLUR => Some("Cpu".into()),
        _ => None,
    });
    assert_eq!(o.inference, InferenceBackendChoice::Cpu);
    assert_eq!(o.blur, BlurBackendChoice::Cpu);
}

#[test]
fn parses_blur_wgpu_override() {
    let o = BackendOverrides::from_lookup(|k: &str| match k {
        ENV_BLUR => Some("wgpu".into()),
        _ => None,
    });
    assert_eq!(o.blur, BlurBackendChoice::Wgpu);
    let o = BackendOverrides::from_lookup(|k: &str| match k {
        ENV_BLUR => Some("WGPU".into()),
        _ => None,
    });
    assert_eq!(o.blur, BlurBackendChoice::Wgpu);
}

#[test]
fn parses_auto_explicitly() {
    let o = BackendOverrides::from_lookup(|k: &str| match k {
        ENV_INFERENCE => Some("auto".into()),
        ENV_BLUR => Some("AUTO".into()),
        _ => None,
    });
    assert_eq!(o.inference, InferenceBackendChoice::Auto);
    assert_eq!(o.blur, BlurBackendChoice::Auto);
}

#[test]
fn unrecognised_falls_back_to_auto() {
    let o = BackendOverrides::from_lookup(|k: &str| match k {
        ENV_INFERENCE => Some("tensorrt".into()),
        ENV_BLUR => Some("d3d12".into()),
        _ => None,
    });
    assert_eq!(o.inference, InferenceBackendChoice::Auto);
    assert_eq!(o.blur, BlurBackendChoice::Auto);
}

#[test]
fn parses_inference_openvino_override() {
    let o = BackendOverrides::from_lookup(|k: &str| match k {
        ENV_INFERENCE => Some("openvino".into()),
        _ => None,
    });
    assert_eq!(o.inference, InferenceBackendChoice::OpenVino);
    let o = BackendOverrides::from_lookup(|k: &str| match k {
        ENV_INFERENCE => Some("OpenVINO".into()),
        _ => None,
    });
    assert_eq!(o.inference, InferenceBackendChoice::OpenVino);
}

#[test]
fn surrounding_white_space_is_ignored() {
    let o = BackendOverrides::from_lookup(|_: &str| Some(" \tCPU\u{a0}\n".into()));
    assert_eq!(o.inference, InferenceBackendChoice::Cpu);
    assert_eq!(o.blur, BlurBackendChoice::Cpu);
}

#[test]
fn openvino_device_defaults() {
    assert_eq!(openvino_device(None), DEFAULT_OPENVINO_DEVICE);
    assert_eq!(openvino_device(Some("GPU.0".to_string())), "GPU.0");
}

// ---------------------------------------------------------------------------
// Inference factory and fallback
// ---------------------------------------------------------------------------

struct FailingEngine {
    calls: Cell<u32>,
    fail_first_n: u32,
    sentinel: f32,
}

impl FailingEngine {
    fn new(fail_first_n: u32, sentinel: f32) -> Self {
        Self {
            calls: Cell::new(0),
            fail_first_n,
            sentinel,
        }
    }
}

impl InferenceEngine for FailingEngine {
    fn model_info(&self) -> ModelInfo {
        ModelInfo {
            name: "failing-mock".to_string(),
            input_width: 1,
            input_height: 1,
            input_format: PixelFormat::Rgb,
        }
    }

    fn infer(&mut self, _input: InferenceInput<'_>) -> Result<InferenceOutput, InferenceError> {
        let n = self.calls.get();
        self.calls.set(n + 1);
        if n < self.fail_first_n {
            Err(InferenceError::InferenceFailed {
                reason: format!("synthetic failure call {n}"),
            })
        } else {
            Ok(InferenceOutput {
                data: vec![self.sentinel.to_bits(); 1],
                shape: vec![1],
            })
        }
    }

    fn published(&self) -> Option<&Counters> {
        None
    }
}

struct SentinelEngine {
    sentinel: f32,
    name: &'static str,
}

impl InferenceEngine for SentinelEngine {
    fn model_info(&self) -> ModelInfo {
        ModelInfo {
            name: self.name.to_string(),
            input_width: 1,
            input_height: 1,
            input_format: PixelFormat::Rgb,
        }
    }

    fn infer(&mut self, _input: InferenceInput<'_>) -> Result<InferenceOutput, InferenceError> {
        Ok(InferenceOutput {
            data: vec![self.sentinel.to_bits(); 1],
            shape: vec![1],
        })
    }

    fn published(&self) -> Option<&Counters> {
        None
    }
}

fn engine<E: InferenceEngine + 'static>(e: E) -> LoadedEngine {
    LoadedEngine {
        engine: Box::new(e),
    }
}

fn ask(e: &mut dyn InferenceEngine) -> Vec<f32> {
    let data = [0.0_f32.to_bits()];
    let shape = [1];
    e.infer(InferenceInput {
        data: &data,
        shape: &shape,
    })
    .expect("infer succeeds")
    .data
    .iter()
    .map(|b| f32::from_bits(*b))
    .collect()
}

#[test]
fn fallback_starts_on_primary_and_no_counter_inc() {
    let decorator = StickyInferenceFallback::new(
        engine(SentinelEngine {
            sentinel: 1.0,
            name: "primary",
        }),
        engine(SentinelEngine {
            sentinel: 2.0,
            name: "secondary",
        }),
        "primary",
        "secondary",
        Counters::new(),
    );
    assert!(!decorator.has_fallen_back());
    assert_eq!(decorator.labels(), ("primary", "secondary"));
    assert_eq!(decorator.counters().snapshot().inference_runtime_fallback_gpu_to_cpu, 0);
}

#[test]
fn inference_fallback_transitions_on_first_error() {
    let mut decorator = StickyInferenceFallback::new(
        engine(FailingEngine::new(1, 1.0)),
        engine(SentinelEngine {
            sentinel: 9.0,
            name: "cpu",
        }),
        "gpu",
        "cpu",
        Counters::new(),
    );
    assert_eq!(ask(&mut decorator), vec![9.0]);
    assert!(decorator.has_fallen_back());
    assert_eq!(
        decorator.counters().snapshot().inference_runtime_fallback_gpu_to_cpu,
        1,
        "counter must increment exactly once on transition",
    );
}

#[test]
fn boxed_inference_fallback_publishes_its_counters() {
    let mut boxed = engine(StickyInferenceFallback::new(
        engine(FailingEngine::new(1, 1.0)),
        engine(SentinelEngine {
            sentinel: 9.0,
            name: "cpu",
        }),
        "gpu",
        "cpu",
        Counters::new(),
    ));
    assert_eq!(ask(&mut *boxed.engine), vec![9.0]);
    let counters = boxed.engine.published().expect("the fallback counts");
    assert_eq!(counters.snapshot().inference_runtime_fallback_gpu_to_cpu, 1);
}

#[test]
fn inference_fallback_subsequent_calls_skip_primary() {
    let mut decorator = StickyInferenceFallback::new(
        engine(FailingEngine::new(1000, 0.0)),
        engine(SentinelEngine {
            sentinel: 7.0,
            name: "cpu",
        }),
        "gpu",
        "cpu",
        Counters::new(),
    );
    for _ in 0..5 {
        assert_eq!(ask(&mut decorator), vec![7.0]);
    }
    assert_eq!(
        decorator.counters().snapshot().inference_runtime_fallback_gpu_to_cpu,
        1,
        "counter increments once across many subsequent calls",
    );
}

#[test]
fn fallback_keeps_primary_when_it_succeeds() {
    let mut decorator = StickyInferenceFallback::new(
        engine(SentinelEngine {
            sentinel: 3.0,
            name: "primary",
        }),
        engine(SentinelEngine {
            sentinel: 4.0,
            name: "secondary",
        }),
        "primary",
        "secondary",
        Counters::new(),
    );
    assert_eq!(ask(&mut decorator), vec![3.0]);
    assert!(!decorator.has_fallen_back());
    assert_eq!(decorator.counters().snapshot().inference_runtime_fallback_gpu_to_cpu, 0);
}

#[test]
fn model_info_follows_active_backend() {
    let mut decorator = StickyInferenceFallback::new(
        engine(FailingEngine::new(1, 0.0)),
        engine(SentinelEngine {
            sentinel: 0.0,
            name: "cpu-backend",
        }),
        "gpu",
        "cpu",
        Counters::new(),
    );
    assert_eq!(decorator.model_info().name, "failing-mock");
    ask(&mut decorator);
    assert_eq!(decorator.model_info().name, "cpu-backend");
}

/// A runtime that knows one model file.
struct OneModel;

impl OnnxRuntime for OneModel {
    type Builder = ();
    type Session = ();

    fn canonicalize(&self, path: &str) -> Result<String, PathProblem> {
        if path == "/models/m.onnx" {
            Ok(path.to_string())
        } else {
            Err(PathProblem {
                missing: true,
                message: "No such file or directory".to_string(),
            })
        }
    }

    fn open(&self) -> Result<(), String> {
        Ok(())
    }

    fn commit(&self, _builder: (), _path: &str) -> Result<CommittedModel<()>, String> {
        Ok(CommittedModel {
            session: (),
            inputs: vec!["input".to_string()],
            outputs: vec!["output".to_string()],
        })
    }

    fn run(
        &self,
        _session: &(),
        _input: &str,
        _shape: &[usize],
        _data: &[u32],
    ) -> Result<Vec<Result<RawOutput, String>>, RunProblem> {
        Ok(vec![Ok(RawOutput {
            dims: vec![1, 2],
            data: vec![3, 4],
        })])
    }
}

/// A library that is there or not.
struct MaybeLibrary {
    present: bool,
}

impl OpenVinoRuntime for MaybeLibrary {
    type Core = ();
    type Model = ();
    type Compiled = ();
    type Request = ();
    type Shape = ();
    type Tensor = ();

    fn model_exists(&self, path: &str) -> bool {
        path == "/models/m.onnx"
    }

    fn start(&self) -> Result<(), String> {
        if self.present {
            Ok(())
        } else {
            Err("cannot find libopenvino_c.so".to_string())
        }
    }

    fn read_model(&self, _core: &(), _path: &str) -> Result<(), String> {
        Ok(())
    }

    fn input_name(&self, _model: &(), _index: usize) -> Result<String, String> {
        Ok("in".to_string())
    }

    fn output_name(&self, _model: &(), _index: usize) -> Result<String, String> {
        Ok("out".to_string())
    }

    fn compile(&self, _core: &(), _model: &(), _device: &str) -> Result<(), String> {
        Ok(())
    }

    fn create_request(&self, _compiled: &()) -> Result<(), String> {
        Ok(())
    }

    fn new_shape(&self, _dims: &[i64]) -> Result<(), String> {
        Ok(())
    }

    fn new_tensor(&self, _shape: &()) -> Result<(), String> {
        Ok(())
    }

    fn fill_tensor(&self, _tensor: (), _data: &[u32]) -> Result<(), String> {
        Ok(())
    }

    fn run(
        &self,
        _request: &(),
        _input: &str,
        _tensor: &(),
        _output: &str,
    ) -> Result<RawOutput, RequestProblem> {
        Ok(RawOutput {
            dims: vec![1, 1],
            data: vec![5],
        })
    }
}

fn select(
    path: &str,
    choice: InferenceBackendChoice,
    library: Option<MaybeLibrary>,
) -> Result<String, InferenceError> {
    build_inference_engine(
        path,
        ModelConfig::new("dummy", 1, 1),
        BackendOverrides::default().with_inference(choice),
        "CPU",
        OneModel,
        library,
        None,
    )
    .map(|b| b.backend)
}

#[test]
fn factory_propagates_invalid_model_path() {
    let result = select("/nonexistent/model.onnx", InferenceBackendChoice::Auto, None);
    match result {
        Ok(_) => panic!("must fail on missing model"),
        Err(InferenceError::ModelNotFound { .. } | InferenceError::BackendUnavailable { .. }) => {}
        Err(other) => panic!("unexpected error variant: {other:?}"),
    }
}

#[test]
fn factory_accepts_counters_argument() {
    let r = build_inference_engine(
        "/nonexistent/model.onnx",
        ModelConfig::new("dummy", 1, 1),
        BackendOverrides::default(),
        "CPU",
        OneModel,
        None::<MaybeLibrary>,
        Some(Counters::new()),
    );
    assert!(r.is_err());
}

#[test]
fn factory_openvino_override_errors_when_feature_disabled() {
    let result = select("/nonexistent/model.onnx", InferenceBackendChoice::OpenVino, None);
    match result {
        Ok(_) => panic!("must hard-error without openvino feature"),
        Err(InferenceError::BackendUnavailable { hint, .. }) => {
            assert!(hint.contains("--features"), "hint must guide rebuild: {hint}");
        }
        Err(other) => panic!("expected BackendUnavailable, got: {other:?}"),
    }
}

#[test]
fn factory_openvino_override_probes_real_runtime() {
    let library = Some(MaybeLibrary { present: true });
    let result = select("/nonexistent/model.onnx", InferenceBackendChoice::OpenVino, library);
    match result {
        Ok(_) => panic!("nonexistent model must not succeed"),
        Err(
            InferenceError::ModelNotFound { .. }
            | InferenceError::BackendUnavailable { .. }
            | InferenceError::ModelLoadFailed { .. },
        ) => {}
        Err(other) => panic!("unexpected error variant: {other:?}"),
    }
}

#[test]
fn factory_auto_prefers_openvino_and_falls_back() {
    let path = "/models/m.onnx";
    let there = Some(MaybeLibrary { present: true });
    let missing = || Some(MaybeLibrary { present: false });
    assert_eq!(select(path, InferenceBackendChoice::Auto, there).expect("auto"), "openvino[CPU]");
    assert_eq!(select(path, InferenceBackendChoice::Auto, missing()).expect("auto"), "cpu");
    assert_eq!(select(path, InferenceBackendChoice::Auto, None).expect("auto"), "cpu");
    assert_eq!(select(path, InferenceBackendChoice::Cpu, missing()).expect("cpu"), "cpu");
    assert!(select(path, InferenceBackendChoice::OpenVino, missing()).is_err());
}

#[test]
fn factory_hands_out_a_working_engine() {
    let mut b = build_inference_engine(
        "/models/m.onnx",
        ModelConfig::new("dummy", 1, 1),
        BackendOverrides::default().with_inference(InferenceBackendChoice::Cpu),
        "CPU",
        OneModel,
        None::<MaybeLibrary>,
        None,
    )
    .expect("loads");
    assert_eq!(b.engine.engine.model_info().name, "dummy");
    let data = [0u32; 3];
    let shape = [1usize, 1, 1, 3];
    let out = b
        .engine
        .engine
        .infer(InferenceInput {
            data: &data,
            shape: &shape,
        })
        .expect("runs");
    assert_eq!(out.data, vec![3, 4]);
    assert_eq!(out.shape, vec![1, 2]);
}

#[test]
fn a_primary_that_answers_is_never_left() {
    let mut decorator = StickyBlurFallback::new(
        handle(SentinelBlur { sentinel: 0x11 }),
        handle(SentinelBlur { sentinel: 0x22 }),
        "primary-sentinel",
        "secondary-sentinel",
        Counters::new(),
    );
    decorator.prepare(2, 2).expect("prepare both");
    let src = vec![0u8; 12];
    let mut dst = vec![0u8; 12];
    for _ in 0..3 {
        decorator.blur(&src, &mut dst, 2, 2, 1, 1).expect("primary answers");
        assert!(dst.iter().all(|&b| b == 0x11));
        assert!(!decorator.has_fallen_back());
    }
    assert_eq!(decorator.counters().snapshot().blur_runtime_fallback_gpu_to_cpu, 0);
}
