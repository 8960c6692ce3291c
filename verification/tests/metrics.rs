//! Counters, histograms, percentiles and the report line.

use fluxframe::metrics::{
    emit_metrics_line, Counters, EffectTelemetry, LatencyHistogram, LatencySnapshot,
    MetricsSnapshot, PeriodicExtras, StageKey, StageTimings,
};
use std::time::Duration;

fn at(snap: &LatencySnapshot, p: f32) -> u64 {
    snap.percentile_us(p.to_bits())
}

fn filled(capacity: usize, values: &[u64]) -> LatencyHistogram {
    let mut h = LatencyHistogram::with_capacity(capacity);
    for v in values {
        h.record_us(*v);
    }
    h
}

#[test]
fn emit_metrics_line_smoke_both_variants() {
    let snap = MetricsSnapshot::new();
    let summary = emit_metrics_line(&snap, None);
    assert_eq!(summary.message, "run metrics");
    let tick = emit_metrics_line(
        &snap,
        Some(PeriodicExtras {
            frames_out_delta: 30,
            dropped_delta: 1,
            window: Duration::from_secs(1),
        }),
    );
    assert_eq!(tick.message, "metrics tick");
    assert_eq!(tick.frames_out_delta, 30);
    assert_eq!(tick.dropped_delta, 1);
}

#[test]
fn report_line_carries_counters_and_percentiles() {
    let mut c = Counters::new();
    c.inc_frames_in();
    let h = filled(8, &[10, 20, 30, 40]);
    let snap = MetricsSnapshot::new()
        .with_counters(c.snapshot())
        .with_inference(h.snapshot())
        .with_output(h.snapshot())
        .with_capture(h.snapshot());
    let line = emit_metrics_line(&snap, None);
    assert_eq!(line.counters.frames_in, 1);
    assert_eq!(line.inference.p50_us, 20);
    assert_eq!(line.inference.p95_us, 40);
    assert_eq!(line.capture, line.output);
    assert_eq!(line.processing.p95_us, 0);
    assert!(line.window.is_none());
}

#[test]
fn counters_default_zero() {
    let c = Counters::new();
    let snap = c.snapshot();
    assert_eq!(snap.frames_in, 0);
    assert_eq!(snap.frames_out, 0);
    assert_eq!(snap.frames_dropped, 0);
    assert_eq!(snap.fallback_count, 0);
    assert_eq!(snap.effect_error_count, 0);
    assert_eq!(snap.inference_runtime_fallback_gpu_to_cpu, 0);
    assert_eq!(snap.blur_runtime_fallback_gpu_to_cpu, 0);
}

#[test]
fn counters_increment_visible_in_snapshot() {
    let mut c = Counters::new();
    for _ in 0..5 {
        c.inc_frames_in();
    }
    for _ in 0..3 {
        c.inc_frames_out();
    }
    c.add_frames_dropped(1);
    for _ in 0..7 {
        c.inc_fallback();
    }
    for _ in 0..2 {
        c.inc_effect_error();
    }
    c.inc_inference_runtime_fallback_gpu_to_cpu();
    c.inc_blur_runtime_fallback_gpu_to_cpu();
    c.inc_blur_runtime_fallback_gpu_to_cpu();
    let snap = c.snapshot();
    assert_eq!(snap.frames_in, 5);
    assert_eq!(snap.frames_out, 3);
    assert_eq!(snap.frames_dropped, 1);
    assert_eq!(snap.fallback_count, 7);
    assert_eq!(snap.effect_error_count, 2);
    assert_eq!(snap.inference_runtime_fallback_gpu_to_cpu, 1);
    assert_eq!(snap.blur_runtime_fallback_gpu_to_cpu, 2);
}

#[test]
fn counters_add_frames_dropped_zero_is_noop() {
    let mut c = Counters::new();
    c.add_frames_dropped(0);
    assert_eq!(c.snapshot().frames_dropped, 0);
    c.add_frames_dropped(42);
    c.add_frames_dropped(0);
    assert_eq!(c.snapshot().frames_dropped, 42);
}

#[test]
fn histogram_zero_capacity_clamped_to_one() {
    let mut h = LatencyHistogram::with_capacity(0);
    assert_eq!(h.capacity(), 1);
    h.record_us(42);
    h.record_us(99);
    let snap = h.snapshot();
    assert_eq!(snap.len(), 1);
    assert_eq!(at(&snap, 0.5), 99);
}

#[test]
fn histogram_evicts_oldest_when_full() {
    let snap = filled(3, &[10, 20, 30, 40, 50]).snapshot();
    assert_eq!(snap.len(), 3);
    assert_eq!(at(&snap, 0.0), 30);
    assert_eq!(at(&snap, 1.0), 50);
}

#[test]
fn empty_snapshot_percentile_is_zero() {
    let snap = LatencySnapshot::default();
    assert!(snap.is_empty());
    assert_eq!(at(&snap, 0.5), 0);
    assert_eq!(at(&snap, 0.95), 0);
}

#[test]
fn percentile_clamps_out_of_range_p() {
    let snap = filled(5, &[10, 20, 30, 40, 50]).snapshot();
    assert_eq!(at(&snap, -1.0), 10, "p<0 clamps to min");
    assert_eq!(at(&snap, 2.0), 50, "p>1 clamps to max");
}

#[test]
fn percentile_nan_treated_as_zero() {
    let snap = filled(5, &[10, 20, 30, 40, 50]).snapshot();
    assert_eq!(at(&snap, f32::NAN), 10, "NaN must behave as p=0 (min)");
}

#[test]
fn snapshot_sorts_unordered_input() {
    let snap = filled(8, &[50, 10, 30, 20, 40]).snapshot();
    assert_eq!(at(&snap, 0.0), 10);
    assert_eq!(at(&snap, 0.5), 30);
    assert_eq!(at(&snap, 1.0), 50);
}

#[test]
fn percentile_median_and_p95() {
    let values: Vec<u64> = (1u64..=100).collect();
    let snap = filled(100, &values).snapshot();
    assert_eq!(snap.len(), 100);
    assert_eq!(at(&snap, 0.5), 50);
    assert_eq!(at(&snap, 0.95), 95);
    assert_eq!(at(&snap, 0.0), 1);
    assert_eq!(at(&snap, 1.0), 100);
}

#[test]
fn percentile_single_sample() {
    let snap = filled(8, &[42]).snapshot();
    assert_eq!(at(&snap, 0.5), 42);
    assert_eq!(at(&snap, 0.95), 42);
    assert_eq!(at(&snap, 0.0), 42);
}

#[test]
fn snapshot_does_not_drain_histogram() {
    let h = filled(8, &[10, 20]);
    let snap1 = h.snapshot();
    let snap2 = h.snapshot();
    assert_eq!(snap1.len(), 2);
    assert_eq!(snap2.len(), 2, "second snapshot sees same data");
}

#[test]
fn percentile_infinity_clamps() {
    let snap = filled(3, &[10, 20, 30]).snapshot();
    assert_eq!(at(&snap, f32::INFINITY), 30, "+inf clamps to max (p=1)");
    assert_eq!(at(&snap, f32::NEG_INFINITY), 10, "-inf clamps to min (p=0)");
}

#[test]
fn percentile_grows_with_p() {
    let snap = filled(64, &[9, 2, 7, 7, 1, 30, 4, 18, 3, 5, 60]).snapshot();
    let mut last: u64 = 0;
    for step in 0..=1000 {
        let v = at(&snap, step as f32 / 1000.0);
        assert!(v >= last, "step {step}: {v} < {last}");
        last = v;
    }
    assert_eq!(last, 60);
}

#[test]
fn metrics_snapshot_default_is_empty() {
    let s = MetricsSnapshot::default();
    assert_eq!(s.counters.frames_in, 0);
    assert!(s.end_to_end.is_empty());
    assert!(s.inference.is_empty());
}

#[test]
fn record_duration_converts_to_microseconds() {
    let mut h = LatencyHistogram::with_capacity(4);
    h.record_duration(Duration::from_millis(2));
    h.record_duration(Duration::from_micros(500));
    h.record_duration(Duration::ZERO);
    let snap = h.snapshot();
    assert_eq!(snap.len(), 3);
    assert_eq!(at(&snap, 0.0), 0);
    assert_eq!(at(&snap, 0.5), 500);
    assert_eq!(at(&snap, 1.0), 2_000);
}

#[test]
fn record_duration_saturates_on_overflow() {
    let mut h = LatencyHistogram::with_capacity(1);
    h.record_duration(Duration::MAX);
    let snap = h.snapshot();
    assert_eq!(at(&snap, 1.0), u64::MAX);
}

#[test]
fn effect_telemetry_default_is_noop() {
    let mut t = EffectTelemetry::default();
    t.record_inference(Duration::from_millis(5));
    assert!(t.inference().is_none());
}

#[test]
fn effect_telemetry_with_inference_records_into_histogram() {
    let mut t = EffectTelemetry::with_inference(LatencyHistogram::with_capacity(4));
    t.record_inference(Duration::from_micros(7_500));
    t.record_inference(Duration::from_micros(12_000));
    let snap = t.inference().expect("a histogram").snapshot();
    assert_eq!(snap.len(), 2);
    assert_eq!(at(&snap, 0.5), 7_500);
    assert_eq!(at(&snap, 1.0), 12_000);
}

#[test]
fn metrics_snapshot_builders_compose() {
    let mut c = Counters::new();
    c.inc_frames_in();
    c.inc_frames_in();
    let h = filled(8, &[100, 200]);
    let snap = MetricsSnapshot::new()
        .with_counters(c.snapshot())
        .with_processing(h.snapshot())
        .with_end_to_end(h.snapshot());
    assert_eq!(snap.counters.frames_in, 2);
    assert_eq!(snap.processing.len(), 2);
    assert_eq!(at(&snap.processing, 1.0), 200);
    assert_eq!(snap.end_to_end.len(), 2);
    assert!(snap.capture.is_empty());
    assert!(snap.inference.is_empty());
    assert!(snap.output.is_empty());
}

#[test]
fn stage_timings_keep_bounded_samples_per_stage() {
    let mut t = StageTimings::with_capacity(2);
    for us in [5, 3, 4] {
        t.record(StageKey::new("composite", "seg"), Duration::from_micros(us));
    }
    t.record(StageKey::new("mask", "seg"), Duration::from_nanos(1_999));
    let seg = t.snapshot("composite", "seg").expect("timed");
    assert_eq!((seg.len(), at(&seg, 1.0)), (2, 4));
    let other = t.snapshot("mask", "seg").expect("timed");
    assert_eq!((other.len(), at(&other, 1.0)), (1, 1));
    assert!(t.snapshot("mask", "post").is_none());
    assert!(EffectTelemetry::default().stage_timings().is_none());
}
