//! Built-in mask effects and their registry.

use fluxframe::context::{FrameContext, ProcessingContext};
use fluxframe::frame::PixelFormat;
use fluxframe::mask_effects::dilate::{DilateMaskEffect, MAX_ITERATIONS};
use fluxframe::mask_effects::feather::FeatherMaskEffect;
use fluxframe::mask_effects::invert::InvertMaskEffect;
use fluxframe::mask_effects::largest_blob::{find_root, union_runs, LargestBlobMaskEffect, Run};
use fluxframe::mask_effects::passthrough::PassthroughMaskEffect;
use fluxframe::mask_effects::registry::{default_registry, MaskEffectRegistry};
use fluxframe::mask_effects::smooth_temporal::SmoothTemporalMaskEffect;
use fluxframe::mask_effects::threshold::ThresholdMaskEffect;
use fluxframe::params::{ParamTable, ParamValue, RawEffectParams};
use fluxframe::plane::{MaskEffect, MaskPlane};

fn bits(values: &[f32]) -> Vec<u32> {
    values.iter().map(|v| v.to_bits()).collect()
}

fn floats(values: &[u32]) -> Vec<f32> {
    values.iter().map(|v| f32::from_bits(*v)).collect()
}

fn run<E: MaskEffect>(effect: &mut E, data: &mut [f32], width: u32, height: u32) {
    let mut raw = bits(data);
    {
        let mut plane = MaskPlane::new(&mut raw, width, height);
        let mut ctx = FrameContext::default();
        effect.process(&mut plane, &mut ctx).expect("ok");
    }
    data.copy_from_slice(&floats(&raw));
}

fn none() -> RawEffectParams {
    RawEffectParams::Table(ParamTable::new())
}

fn one(key: &str, value: ParamValue) -> RawEffectParams {
    let mut t = ParamTable::new();
    t.insert(key.to_string(), value);
    RawEffectParams::Table(t)
}

fn number(v: f32) -> ParamValue {
    ParamValue::Float(v.to_bits())
}

fn stream() -> ProcessingContext {
    ProcessingContext {
        width: 8,
        height: 8,
        format: PixelFormat::Rgb,
        fps: 30,
        counters: None,
    }
}

fn complement(v: u32) -> u32 {
    (1.0 - f32::from_bits(v)).to_bits()
}

fn blend(factor: u32, previous: u32, current: u32) -> u32 {
    let f = f32::from_bits(factor);
    (f * f32::from_bits(previous) + (1.0 - f) * f32::from_bits(current)).to_bits()
}

/// Mean over the square window, clamped at the border.
fn soften(mask: Vec<u32>, w: u32, h: u32, radius: u32) -> Vec<u32> {
    let m = floats(&mask);
    let (w, h, r) = (i64::from(w), i64::from(h), i64::from(radius));
    let mut out = Vec::new();
    for y in 0..h {
        for x in 0..w {
            let mut sum = 0.0;
            for dy in -r..=r {
                for dx in -r..=r {
                    let at = (y + dy).clamp(0, h - 1) * w + (x + dx).clamp(0, w - 1);
                    sum += m[at as usize];
                }
            }
            out.push((sum / ((2 * r + 1) * (2 * r + 1)) as f32).to_bits());
        }
    }
    out
}

fn registry() -> MaskEffectRegistry {
    default_registry(complement, blend, soften)
}

// ---------------------------------------------------------------------------
// Dilate
// ---------------------------------------------------------------------------

#[test]
fn skips_when_iterations_zero() {
    let mut effect = DilateMaskEffect::new();
    effect.configure(one("iterations", ParamValue::Integer(0))).expect("ok");
    let mut data = vec![0.0, 1.0, 0.0, 0.0];
    let snapshot = data.clone();
    run(&mut effect, &mut data, 2, 2);
    assert_eq!(data, snapshot);
}

#[test]
fn expands_foreground() {
    let mut effect = DilateMaskEffect::new();
    effect.configure(one("iterations", ParamValue::Integer(1))).expect("ok");
    let mut data = vec![0.0; 9];
    data[4] = 1.0;
    run(&mut effect, &mut data, 3, 3);
    assert!(data.iter().all(|&v| v > 0.99), "got {data:?}");
}

#[test]
fn rejects_excessive_iterations() {
    let mut effect = DilateMaskEffect::new();
    let params = one("iterations", ParamValue::Integer(i64::from(MAX_ITERATIONS) + 1));
    assert!(effect.configure(params).is_err());
}

#[test]
fn dilate_configure_after_prepare_is_safe() {
    let mut effect = DilateMaskEffect::new();
    effect.configure(none()).expect("configure 1 (defaults)");
    effect.prepare(&stream()).expect("prepare");

    let mut data = vec![0.0_f32; 25];
    data[12] = 1.0;
    run(&mut effect, &mut data, 5, 5);
    assert!(data[0] < 0.5, "iter=1 corner must stay 0: {data:?}");

    effect.configure(one("iterations", ParamValue::Integer(3))).expect("re-configure ok");
    let mut data = vec![0.0_f32; 25];
    data[12] = 1.0;
    run(&mut effect, &mut data, 5, 5);
    assert!(data.iter().all(|&v| v > 0.99), "iter=3 must fill the 5x5 mask: {data:?}");
    assert_eq!(effect.current_iterations(), 3);
}

// ---------------------------------------------------------------------------
// Feather
// ---------------------------------------------------------------------------

#[test]
fn radius_zero_is_no_op() {
    let mut effect = FeatherMaskEffect::new(soften);
    effect.configure(one("radius", ParamValue::Integer(0))).expect("ok");
    let mut data = vec![0.0, 1.0, 0.0, 1.0];
    let snapshot = data.clone();
    run(&mut effect, &mut data, 2, 2);
    assert_eq!(data, snapshot);
}

#[test]
fn softens_edges() {
    let mut effect = FeatherMaskEffect::new(soften);
    effect.configure(one("radius", ParamValue::Integer(1))).expect("ok");
    let mut data = vec![1.0, 1.0, 0.0, 1.0, 1.0, 0.0, 1.0, 1.0, 0.0];
    run(&mut effect, &mut data, 3, 3);
    assert!(data[2] > 0.0 && data[5] > 0.0 && data[8] > 0.0);
    assert!(data[1] < 1.0 && data[4] < 1.0 && data[7] < 1.0);
}

#[test]
fn feather_configure_after_prepare_is_safe() {
    let mut effect = FeatherMaskEffect::new(soften);
    effect.configure(one("radius", ParamValue::Integer(1))).expect("configure 1");
    effect.prepare(&stream()).expect("prepare");

    let seed = vec![1.0, 1.0, 0.0, 0.0, 0.0];
    let mut data = seed.clone();
    run(&mut effect, &mut data, 5, 1);
    let small_radius_far_edge = data[4];

    effect.configure(one("radius", ParamValue::Integer(3))).expect("re-configure ok");
    let mut data = seed.clone();
    run(&mut effect, &mut data, 5, 1);
    let big_radius_far_edge = data[4];
    assert!(
        big_radius_far_edge > small_radius_far_edge,
        "radius=3 must bleed further than radius=1: r1={small_radius_far_edge}, r3={big_radius_far_edge}",
    );
    assert_eq!(effect.current_radius(), 3);
}

#[test]
fn feather_rejects_an_excessive_radius() {
    let mut effect = FeatherMaskEffect::new(soften);
    let err = effect
        .configure(one("radius", ParamValue::Integer(65)))
        .expect_err("above the bound");
    assert!(err.to_string().contains("radius must be <= 64, got 65"));
    assert_eq!(effect.current_radius(), 7);
}

// ---------------------------------------------------------------------------
// Invert and passthrough
// ---------------------------------------------------------------------------

#[test]
fn inverts_values() {
    let mut effect = InvertMaskEffect::new(complement);
    let mut data = vec![0.0, 0.25, 0.5, 0.75, 1.0];
    run(&mut effect, &mut data, 5, 1);
    assert_eq!(data, vec![1.0, 0.75, 0.5, 0.25, 0.0]);
}

#[test]
fn leaves_mask_untouched() {
    let mut effect = PassthroughMaskEffect::new();
    let mut data = vec![0.1, 0.5, 0.9, 1.0];
    let snapshot = data.clone();
    run(&mut effect, &mut data, 2, 2);
    assert_eq!(data, snapshot);
}

// ---------------------------------------------------------------------------
// Temporal smoothing
// ---------------------------------------------------------------------------

#[test]
fn first_call_seeds_state_and_emits_input() {
    let mut effect = SmoothTemporalMaskEffect::new(blend);
    let mut data = vec![0.5, 0.5, 0.5, 0.5];
    run(&mut effect, &mut data, 2, 2);
    assert_eq!(data, vec![0.5, 0.5, 0.5, 0.5]);
    assert_eq!(floats(effect.previous()), vec![0.5, 0.5, 0.5, 0.5]);
}

#[test]
fn factor_zero_is_no_op() {
    let mut effect = SmoothTemporalMaskEffect::new(blend);
    effect.configure(one("factor", number(0.0))).expect("ok");
    let mut data = vec![0.1, 0.9];
    run(&mut effect, &mut data, 2, 1);
    assert_eq!(data, vec![0.1, 0.9]);
    assert!(effect.previous().is_empty());
}

#[test]
fn second_call_blends() {
    let mut effect = SmoothTemporalMaskEffect::new(blend);
    effect.configure(one("factor", number(0.5))).expect("ok");
    let mut frame1 = vec![0.0, 0.0];
    run(&mut effect, &mut frame1, 2, 1);
    assert_eq!(frame1, vec![0.0, 0.0]);
    let mut frame2 = vec![1.0, 1.0];
    run(&mut effect, &mut frame2, 2, 1);
    assert!((frame2[0] - 0.5).abs() < 1e-6, "got {}", frame2[0]);
    assert!((frame2[1] - 0.5).abs() < 1e-6, "got {}", frame2[1]);
    assert_eq!(floats(effect.previous()), vec![1.0, 1.0]);
}

#[test]
fn smoothing_starts_afresh_after_a_reset_or_a_change_of_size() {
    let mut effect = SmoothTemporalMaskEffect::new(blend);
    effect.configure(one("factor", number(0.5))).expect("ok");
    let mut first = vec![0.0, 0.0];
    run(&mut effect, &mut first, 2, 1);
    effect.reset_state();
    let mut second = vec![1.0, 1.0];
    run(&mut effect, &mut second, 2, 1);
    assert_eq!(second, vec![1.0, 1.0]);
    let mut third = vec![0.25, 0.25, 0.25];
    run(&mut effect, &mut third, 3, 1);
    assert_eq!(third, vec![0.25, 0.25, 0.25]);
}

// ---------------------------------------------------------------------------
// Threshold
// ---------------------------------------------------------------------------

#[test]
fn threshold_defaults_when_no_params() {
    let mut effect = ThresholdMaskEffect::new();
    effect.configure(none()).expect("ok");
    assert!((f32::from_bits(effect.current_level()) - 0.5).abs() < 1e-6);
}

#[test]
fn applies_level() {
    let mut effect = ThresholdMaskEffect::new();
    effect.configure(one("level", number(0.3))).expect("ok");
    let mut data = vec![0.1, 0.3, 0.5, 0.9];
    run(&mut effect, &mut data, 2, 2);
    assert_eq!(data, vec![0.0, 1.0, 1.0, 1.0]);
}

#[test]
fn threshold_rejects_out_of_range_level() {
    let mut effect = ThresholdMaskEffect::new();
    assert!(effect.configure(one("level", number(1.5))).is_err());
}

#[test]
fn threshold_twice_is_threshold_once() {
    let mut effect = ThresholdMaskEffect::new();
    let mut data = vec![0.1, 0.5, 0.49, 0.9];
    run(&mut effect, &mut data, 2, 2);
    let once = data.clone();
    run(&mut effect, &mut data, 2, 2);
    assert_eq!(data, once);
}

#[test]
fn parameters_of_the_wrong_kind_are_refused() {
    let mut effect = ThresholdMaskEffect::new();
    let text = ParamValue::Text("high".to_string());
    assert!(effect.configure(one("level", text)).is_err());
    assert!(effect.configure(one("levle", number(0.5))).is_err());
    assert!(effect.configure(RawEffectParams::Value(ParamValue::Integer(1))).is_err());
    effect.configure(one("level", ParamValue::Integer(1))).expect("one is a number");
    assert_eq!(f32::from_bits(effect.current_level()), 1.0);
}

// ---------------------------------------------------------------------------
// Largest blob
// ---------------------------------------------------------------------------

#[test]
fn largest_blob_defaults_when_no_params() {
    let mut effect = LargestBlobMaskEffect::new();
    effect.configure(none()).expect("ok");
    assert!((f32::from_bits(effect.current_level()) - 0.5).abs() < 1e-6);
}

#[test]
fn largest_blob_rejects_out_of_range_level() {
    let mut effect = LargestBlobMaskEffect::new();
    assert!(effect.configure(one("level", number(1.5))).is_err());
}

#[test]
fn all_zero_stays_zero() {
    let mut effect = LargestBlobMaskEffect::new();
    let mut data = vec![0.0_f32; 16];
    run(&mut effect, &mut data, 4, 4);
    assert!(data.iter().all(|&v| v == 0.0));
}

#[test]
fn single_blob_is_preserved() {
    let mut effect = LargestBlobMaskEffect::new();
    let mut data = vec![0.0_f32; 16];
    for &i in &[5, 6, 9, 10] {
        data[i] = 1.0;
    }
    let original = data.clone();
    run(&mut effect, &mut data, 4, 4);
    assert_eq!(data, original);
}

#[test]
fn small_blob_removed_large_blob_kept() {
    let mut effect = LargestBlobMaskEffect::new();
    let mut data = vec![0.0_f32; 36];
    for r in 0..3 {
        for c in 0..3 {
            data[r * 6 + c] = 1.0;
        }
    }
    data[5 * 6 + 5] = 1.0;
    run(&mut effect, &mut data, 6, 6);
    for r in 0..3 {
        for c in 0..3 {
            assert_eq!(data[r * 6 + c], 1.0, "pixel ({r},{c}) lost");
        }
    }
    assert_eq!(data[5 * 6 + 5], 0.0);
    for r in 0..6 {
        for c in 0..6 {
            let in_blob = r < 3 && c < 3;
            if !in_blob {
                assert_eq!(data[r * 6 + c], 0.0, "spurious value at ({r},{c})");
            }
        }
    }
}

#[test]
fn preserves_original_values_in_largest() {
    let mut effect = LargestBlobMaskEffect::new();
    let mut data = vec![0.55, 0.60, 0.65, 0.70, 0.75, 0.80, 0.85, 0.90, 0.95];
    let original = data.clone();
    run(&mut effect, &mut data, 3, 3);
    for (a, b) in data.iter().zip(original.iter()) {
        assert!((a - b).abs() < 1e-6, "got {a}, expected {b}");
    }
}

#[test]
fn diagonal_connections_do_not_join_under_4_connectivity() {
    let mut effect = LargestBlobMaskEffect::new();
    let mut data = vec![0.0_f32; 9];
    data[0] = 1.0;
    data[4] = 1.0;
    run(&mut effect, &mut data, 3, 3);
    assert_eq!(data[0], 1.0, "first-scanned tie winner must survive");
    assert_eq!(data[4], 0.0, "second-scanned tie loser must be zeroed");
}

/// Breadth-first labelling with 4-connectivity; the largest component wins, the
/// first in scan order among equals.
fn bfs_reference(mask: &mut [f32], width: usize, height: usize, level: f32) {
    let pixels = width * height;
    let mut labels = vec![0u32; pixels];
    let mut queue = std::collections::VecDeque::new();
    let mut next_label = 1u32;
    let mut largest_label = 0u32;
    let mut largest_size = 0usize;
    for seed in 0..pixels {
        if mask[seed] < level || labels[seed] != 0 {
            continue;
        }
        queue.clear();
        queue.push_back(seed);
        labels[seed] = next_label;
        let mut size = 0usize;
        while let Some(idx) = queue.pop_front() {
            size += 1;
            let (x, y) = (idx % width, idx / width);
            let mut candidates = Vec::new();
            if x > 0 {
                candidates.push(idx - 1);
            }
            if x + 1 < width {
                candidates.push(idx + 1);
            }
            if y > 0 {
                candidates.push(idx - width);
            }
            if y + 1 < height {
                candidates.push(idx + width);
            }
            for nidx in candidates {
                if mask[nidx] >= level && labels[nidx] == 0 {
                    labels[nidx] = next_label;
                    queue.push_back(nidx);
                }
            }
        }
        if size > largest_size {
            largest_size = size;
            largest_label = next_label;
        }
        next_label += 1;
    }
    for (m, &label) in mask.iter_mut().zip(&labels) {
        if label != largest_label {
            *m = 0.0;
        }
    }
}

#[test]
fn run_based_labeling_matches_bfs_reference_on_noise() {
    let cases: [(usize, usize, u32, f32); 4] = [
        (37, 23, 7, 0.5),
        (64, 64, 3, 0.5),
        (50, 9, 11, 0.3),
        (16, 40, 5, 0.7),
    ];
    for (width, height, density, level) in cases {
        let mut seed = 0x9E37_79B9u32;
        let mut next = || {
            seed ^= seed << 13;
            seed ^= seed >> 17;
            seed ^= seed << 5;
            seed
        };
        let src: Vec<f32> = (0..width * height)
            .map(|_| {
                let r = next();
                if r % 10 < density {
                    0.5 + (r % 50) as f32 / 100.0
                } else {
                    (r % 30) as f32 / 100.0
                }
            })
            .collect();

        let mut expected = src.clone();
        bfs_reference(&mut expected, width, height, level);

        let mut effect = LargestBlobMaskEffect::new();
        effect.configure(one("level", number(level))).expect("configure");
        let mut got = src.clone();
        run(&mut effect, &mut got, width as u32, height as u32);
        assert_eq!(got, expected, "{width}x{height} density {density} level {level}");
    }
}

#[test]
fn below_threshold_pixels_in_largest_are_kept_only_if_at_or_above_level() {
    let mut effect = LargestBlobMaskEffect::new();
    let mut data = vec![1.0_f32; 9];
    data[4] = 0.1;
    run(&mut effect, &mut data, 3, 3);
    for &i in &[0, 1, 2, 3, 5, 6, 7, 8] {
        assert_eq!(data[i], 1.0, "ring pixel {i} lost");
    }
    assert_eq!(data[4], 0.0);
}

// ---------------------------------------------------------------------------
// Registry
// ---------------------------------------------------------------------------

#[test]
fn metadata_defaults_round_trip_through_configure() {
    let reg = registry();
    for name in reg.names() {
        let meta = reg.metadata(name).expect("registered");
        let defaults = meta.default_config().expect("no required field");
        let mut made = reg.get(name).expect("registered").factory.build();
        made.effect
            .configure(RawEffectParams::Table(defaults))
            .expect("an effect accepts its own defaults");
    }
}

#[test]
fn default_registry_has_all_builtins() {
    let reg = registry();
    let names = reg.names();
    assert!(names.contains(&"threshold"));
    assert!(names.contains(&"dilate"));
    assert!(names.contains(&"feather"));
    assert!(names.contains(&"smooth_temporal"));
    assert!(names.contains(&"invert"));
    assert!(names.contains(&"largest_blob"));
    assert!(names.contains(&"passthrough"));
}

#[test]
fn build_chain_fails_on_unknown() {
    let reg = registry();
    assert!(reg.build_chain(&["nonexistent".to_string()]).is_err());
}

#[test]
fn build_chain_keeps_the_order() {
    let reg = registry();
    let wanted = ["invert".to_string(), "dilate".to_string(), "invert".to_string()];
    let chain = reg.build_chain(&wanted).expect("known names");
    let names: Vec<&str> = chain.iter().map(|e| e.effect.name()).collect();
    assert_eq!(names, vec!["invert", "dilate", "invert"]);
}

#[test]
fn metadata_exposed_for_every_registered_name() {
    let reg = registry();
    for name in reg.names() {
        let meta = reg.metadata(name).expect("metadata for registered name");
        assert_eq!(meta.name, name, "metadata.name must match registry key");
        assert_eq!(reg.get(name).expect("entry").factory.build().effect.name(), name);
    }
}

#[test]
fn iter_metadata_yields_one_entry_per_name() {
    let reg = registry();
    assert_eq!(reg.iter_metadata().len(), reg.len());
    assert!(!reg.is_empty());
    assert!(reg.contains("dilate"));
    assert!(!reg.contains("erode"));
}

#[test]
fn what_is_no_number_is_no_foreground() {
    let nan = f32::NAN.to_bits();
    let one = 1.0_f32.to_bits();
    let mut data = vec![nan, one, nan, 0];
    let mut effect = ThresholdMaskEffect::new();
    let mut ctx = FrameContext::default();
    effect.process(&mut MaskPlane::new(&mut data, 4, 1), &mut ctx).expect("threshold");
    assert_eq!(data, vec![0, one, 0, 0]);

    let mut data = vec![nan, nan, one, nan];
    let mut effect = LargestBlobMaskEffect::new();
    effect.process(&mut MaskPlane::new(&mut data, 4, 1), &mut ctx).expect("largest blob");
    assert_eq!(data, vec![0, 0, one, 0]);
}

#[test]
fn built_in_effects_accept_their_declared_defaults() {
    let registry = default_registry(complement, blend, soften);
    for meta in registry.iter_metadata() {
        let defaults = meta.default_config().expect("no required field");
        let mut made = registry.get(meta.name).expect("registered").factory.build();
        assert_eq!(made.effect.name(), meta.name);
        made.effect.configure(RawEffectParams::Table(defaults)).expect("accepted");
    }
}

fn runs(parents: &[usize]) -> Vec<Run> {
    parents
        .iter()
        .enumerate()
        .map(|(y, parent)| Run { y, x0: 0, x1: 3, parent: *parent })
        .collect()
}

fn roots(runs: &mut Vec<Run>) -> Vec<usize> {
    (0..runs.len()).map(|i| find_root(runs, i)).collect()
}

#[test]
fn joining_runs_keeps_the_earliest_root() {
    let mut list = runs(&[0, 0, 2, 2, 3, 5]);
    assert_eq!(roots(&mut list), vec![0, 0, 2, 2, 2, 5]);
    union_runs(&mut list, 4, 1);
    assert_eq!(roots(&mut list), vec![0, 0, 0, 0, 0, 5]);
    union_runs(&mut list, 0, 3);
    assert_eq!(roots(&mut list), vec![0, 0, 0, 0, 0, 5]);
    assert!(list.iter().enumerate().all(|(i, r)| r.parent <= i && r.y == i && r.x1 == 3));
}

#[test]
fn largest_blob_at_level_zero_is_idempotent_on_the_unit_interval() {
    let mut e = LargestBlobMaskEffect::new();
    let mut table = ParamTable::new();
    table.insert("level".to_string(), ParamValue::Integer(0));
    e.configure(RawEffectParams::Table(table)).expect("accepted");
    let mut data = [0.0, 0.5, 1.0, 0.25];
    run(&mut e, &mut data, 2, 2);
    let once = data;
    run(&mut e, &mut data, 2, 2);
    assert_eq!(data, once);
}

#[test]
fn a_number_keeps_its_double_precision() {
    let written = ParamValue::Double {
        single: 0.1_f32.to_bits(),
        double: 0.1_f64.to_bits(),
    };
    match written.clone() {
        ParamValue::Double { double, .. } => assert_eq!(f64::from_bits(double), 0.1),
        other => panic!("{other:?}"),
    }
    assert_eq!(written.type_str(), "float");
    let mut e = ThresholdMaskEffect::new();
    e.configure(one("level", written)).expect("accepted");
    assert_eq!(f32::from_bits(e.current_level()), 0.1);
    let beyond = ParamValue::Double {
        single: 1.5_f32.to_bits(),
        double: 1.5_f64.to_bits(),
    };
    assert!(e.configure(one("level", beyond)).is_err());
}

#[test]
fn a_single_parameter_may_be_a_list() {
    let list = |items| RawEffectParams::Value(ParamValue::Array(items));
    let mut e = DilateMaskEffect::new();
    e.configure(list(vec![ParamValue::Integer(3)])).expect("accepted");
    e.configure(list(vec![])).expect("the default");
    let err = e
        .configure(list(vec![ParamValue::Integer(1), ParamValue::Integer(2)]))
        .expect_err("too many");
    assert!(err.to_string().contains("invalid length 2"));
}
