//! Effect metadata: defaults, table splitting and resolution, schemas.

use fluxframe::error::EffectError;
use fluxframe::metadata::{
    resolve_effect_params, split_effect_table, CommitStrategy, EffectMetadata, EffectSchema,
    ParamDescriptor, ParamKind, ParamKindSchema, ParamSchema, Scale, EFFECT_ENABLED_KEY,
};
use fluxframe::params::{ParamTable, ParamValue, RawEffectParams};

const FILL_META: EffectMetadata = EffectMetadata {
    name: "fill",
    help: "",
    params: &[ParamDescriptor {
        name: "rgb",
        kind: ParamKind::Color { default: [1, 2, 3] },
        help: "",
        commit: CommitStrategy::OnCommit,
    }],
};

fn rgb(r: i64, g: i64, b: i64) -> ParamValue {
    ParamValue::Array(vec![
        ParamValue::Integer(r),
        ParamValue::Integer(g),
        ParamValue::Integer(b),
    ])
}

fn table(entries: Vec<(&str, ParamValue)>) -> RawEffectParams {
    let mut t = ParamTable::new();
    for (k, v) in entries {
        t.insert(k.to_string(), v);
    }
    RawEffectParams::Table(t)
}

fn reason(err: &EffectError) -> &str {
    match err {
        EffectError::InvalidConfig { reason, .. } => reason,
        other => panic!("expected InvalidConfig, got {other:?}"),
    }
}

fn integers(v: &ParamValue) -> Vec<i64> {
    match v {
        ParamValue::Array(items) => items
            .iter()
            .map(|i| match i {
                ParamValue::Integer(n) => *n,
                other => panic!("expected an integer, got {other:?}"),
            })
            .collect(),
        other => panic!("expected an array, got {other:?}"),
    }
}

fn only_rgb(params: &RawEffectParams) -> Vec<i64> {
    match params {
        RawEffectParams::Table(t) => {
            assert_eq!(t.len(), 1);
            integers(t.get("rgb").expect("rgb present"))
        }
        other => panic!("expected a table, got {other:?}"),
    }
}

#[test]
fn split_strips_enabled_and_defaults_to_true() {
    let (enabled, params) = split_effect_table("fill", Some(&table(vec![("rgb", rgb(4, 5, 6))])))
        .expect("plain table splits");
    assert!(enabled);
    assert!(params.contains_key("rgb"));

    let (enabled, params) = split_effect_table(
        "fill",
        Some(&table(vec![
            ("enabled", ParamValue::Boolean(false)),
            ("rgb", rgb(4, 5, 6)),
        ])),
    )
    .expect("disabled table splits");
    assert!(!enabled);
    assert!(!params.contains_key(EFFECT_ENABLED_KEY));

    let (enabled, params) = split_effect_table("fill", None).expect("absent table splits");
    assert!(enabled);
    assert!(params.is_empty());
}

#[test]
fn split_rejects_non_bool_enabled_and_non_table() {
    let err = split_effect_table(
        "fill",
        Some(&table(vec![("enabled", ParamValue::Text("no".to_string()))])),
    )
    .expect_err("string enabled");
    assert!(reason(&err).contains("must be a boolean"), "{err:?}");

    let err = split_effect_table("fill", Some(&RawEffectParams::Value(ParamValue::Integer(3))))
        .expect_err("non-table params");
    assert!(reason(&err).contains("must be a table"), "{err:?}");
}

#[test]
fn resolve_passes_explicit_params_through() {
    let resolved =
        resolve_effect_params("fill", Some(&table(vec![("rgb", rgb(4, 5, 6))])), None)
            .expect("explicit params need no metadata");
    assert!(resolved.enabled);
    assert_eq!(only_rgb(&resolved.params), vec![4, 5, 6]);
}

#[test]
fn resolve_synthesises_defaults_for_flag_only_table() {
    let resolved = resolve_effect_params(
        "fill",
        Some(&table(vec![("enabled", ParamValue::Boolean(false))])),
        Some(&FILL_META),
    )
    .expect("defaults synthesised");
    assert!(!resolved.enabled);
    assert_eq!(only_rgb(&resolved.params), vec![1, 2, 3]);

    let resolved = resolve_effect_params("fill", None, Some(&FILL_META)).expect("absent table");
    assert!(resolved.enabled);
    assert_eq!(only_rgb(&resolved.params), vec![1, 2, 3]);
}

const REQUIRED_PATH: EffectMetadata = EffectMetadata {
    name: "image",
    help: "",
    params: &[ParamDescriptor {
        name: "path",
        kind: ParamKind::Path {
            default: None,
            extensions: &[],
            required: true,
        },
        help: "",
        commit: CommitStrategy::OnCommit,
    }],
};

#[test]
fn resolve_rejects_missing_required_field_and_missing_metadata() {
    let err = resolve_effect_params("image", None, Some(&REQUIRED_PATH))
        .expect_err("required path without default");
    assert!(reason(&err).contains("`path`"), "{err:?}");

    let err = resolve_effect_params("image", None, None).expect_err("no metadata");
    assert!(reason(&err).contains("without metadata"), "{err:?}");
}

const DEMO: EffectMetadata = EffectMetadata {
    name: "demo",
    help: "",
    params: &[
        ParamDescriptor {
            name: "radius",
            kind: ParamKind::Float {
                default: 0x41A0_0000,
                min: 0x3F80_0000,
                max: 0x4380_0000,
                step: 0x3F80_0000,
                scale: Scale::Linear,
            },
            help: "",
            commit: CommitStrategy::Live { debounce_ms: 50 },
        },
        ParamDescriptor {
            name: "passes",
            kind: ParamKind::Integer {
                default: 2,
                min: 1,
                max: 16,
                step: 1,
                scale: Scale::Linear,
            },
            help: "",
            commit: CommitStrategy::Live { debounce_ms: 50 },
        },
        ParamDescriptor {
            name: "rgb",
            kind: ParamKind::Color {
                default: [128, 128, 128],
            },
            help: "",
            commit: CommitStrategy::OnCommit,
        },
        ParamDescriptor {
            name: "mode",
            kind: ParamKind::Enum {
                default: "cover",
                variants: &["cover", "contain"],
            },
            help: "",
            commit: CommitStrategy::Instant,
        },
    ],
};

#[test]
fn default_config_emits_one_entry_per_param_with_default() {
    let table = DEMO.default_config().expect("no required-without-default fields");
    assert_eq!(table.len(), 4);
    match table.get("radius") {
        Some(ParamValue::Float(bits)) => assert_eq!(f32::from_bits(*bits), 20.0),
        other => panic!("radius: {other:?}"),
    }
    assert!(matches!(table.get("passes"), Some(ParamValue::Integer(2))));
    assert_eq!(integers(table.get("rgb").expect("rgb")), vec![128, 128, 128]);
    match table.get("mode") {
        Some(ParamValue::Text(s)) => assert_eq!(s, "cover"),
        other => panic!("mode: {other:?}"),
    }
}

#[test]
fn default_config_returns_missing_for_required_path_without_default() {
    let err = REQUIRED_PATH.default_config().expect_err("required path => Err");
    assert_eq!(err, vec!["path".to_string()]);
}

#[test]
fn default_config_emits_path_with_default() {
    const META: EffectMetadata = EffectMetadata {
        name: "demo",
        help: "",
        params: &[ParamDescriptor {
            name: "model",
            kind: ParamKind::Path {
                default: Some("/var/lib/x.onnx"),
                extensions: &["onnx"],
                required: true,
            },
            help: "",
            commit: CommitStrategy::OnCommit,
        }],
    };
    let table = META.default_config().expect("Some(default) => Ok");
    match table.get("model") {
        Some(ParamValue::Text(s)) => assert_eq!(s, "/var/lib/x.onnx"),
        other => panic!("model: {other:?}"),
    }
}

#[test]
fn default_config_skips_optional_path_without_default() {
    const META: EffectMetadata = EffectMetadata {
        name: "demo",
        help: "",
        params: &[ParamDescriptor {
            name: "logo",
            kind: ParamKind::Path {
                default: None,
                extensions: &[],
                required: false,
            },
            help: "",
            commit: CommitStrategy::OnCommit,
        }],
    };
    let table = META.default_config().expect("optional => Ok");
    assert!(table.is_empty(), "optional path with no default skips emission");
}

#[test]
fn effect_schema_matches_metadata_wire_form_for_every_variant() {
    const META: EffectMetadata = EffectMetadata {
        name: "all_kinds",
        help: "every variant",
        params: &[
            ParamDescriptor {
                name: "f",
                kind: ParamKind::Float {
                    default: 0x3F00_0000,
                    min: 0,
                    max: 0x3F80_0000,
                    step: 0x3E80_0000,
                    scale: Scale::Logarithmic,
                },
                help: "float",
                commit: CommitStrategy::Live { debounce_ms: 50 },
            },
            ParamDescriptor {
                name: "i",
                kind: ParamKind::Integer {
                    default: 2,
                    min: 1,
                    max: 16,
                    step: 1,
                    scale: Scale::Linear,
                },
                help: "int",
                commit: CommitStrategy::OnCommit,
            },
            ParamDescriptor {
                name: "b",
                kind: ParamKind::Bool { default: true },
                help: "",
                commit: CommitStrategy::Instant,
            },
            ParamDescriptor {
                name: "c",
                kind: ParamKind::Color { default: [1, 2, 3] },
                help: "",
                commit: CommitStrategy::OnCommit,
            },
            ParamDescriptor {
                name: "p",
                kind: ParamKind::Path {
                    default: Some("/x.png"),
                    extensions: &["png"],
                    required: false,
                },
                help: "",
                commit: CommitStrategy::OnCommit,
            },
            ParamDescriptor {
                name: "p_none",
                kind: ParamKind::Path {
                    default: None,
                    extensions: &[],
                    required: true,
                },
                help: "",
                commit: CommitStrategy::OnCommit,
            },
            ParamDescriptor {
                name: "e",
                kind: ParamKind::Enum {
                    default: "a",
                    variants: &["a", "b"],
                },
                help: "",
                commit: CommitStrategy::Instant,
            },
        ],
    };
    let schema = EffectSchema::from(&META);
    assert_eq!(schema.name, "all_kinds");
    assert_eq!(schema.help, "every variant");
    assert_eq!(schema.params.len(), META.params.len());
    for (s, p) in schema.params.iter().zip(META.params) {
        assert_eq!(s.name, p.name);
        assert_eq!(s.help, p.help);
        assert_eq!(s.commit, p.commit);
    }
    let kinds: Vec<&ParamKindSchema> = schema.params.iter().map(|p| &p.kind).collect();
    assert!(matches!(
        kinds[0],
        ParamKindSchema::Float {
            default: 0x3F00_0000,
            min: 0,
            max: 0x3F80_0000,
            step: 0x3E80_0000,
            scale: Scale::Logarithmic,
        }
    ));
    assert!(matches!(
        kinds[1],
        ParamKindSchema::Integer {
            default: 2,
            min: 1,
            max: 16,
            step: 1,
            scale: Scale::Linear,
        }
    ));
    assert!(matches!(kinds[2], ParamKindSchema::Bool { default: true }));
    assert!(matches!(kinds[3], ParamKindSchema::Color { default: [1, 2, 3] }));
    match kinds[4] {
        ParamKindSchema::Path {
            default,
            extensions,
            required,
        } => {
            assert_eq!(default.as_deref(), Some("/x.png"));
            assert_eq!(extensions, &vec!["png".to_string()]);
            assert!(!required);
        }
        other => panic!("path: {other:?}"),
    }
    match kinds[5] {
        ParamKindSchema::Path {
            default,
            extensions,
            required,
        } => {
            assert!(default.is_none());
            assert!(extensions.is_empty());
            assert!(required);
        }
        other => panic!("path without default: {other:?}"),
    }
    match kinds[6] {
        ParamKindSchema::Enum { default, variants } => {
            assert_eq!(default, "a");
            assert_eq!(variants, &vec!["a".to_string(), "b".to_string()]);
        }
        other => panic!("enum: {other:?}"),
    }
    let one = ParamSchema::from(&META.params[0]);
    assert_eq!(one.name, "f");
}
