//! Error messages, causes and hints.

use fluxframe::error::{Diagnostic, EffectError, FluxError, InferenceError, PipelineError};
use fluxframe::frame::PixelFormat;

fn text(s: &str) -> String {
    s.to_string()
}

#[test]
fn effect_errors_name_the_effect() {
    let e = EffectError::InvalidConfig {
        name: text("blur"),
        reason: text("bad radius"),
        hint: None,
    };
    assert_eq!(e.to_string(), "effect 'blur' configuration is invalid: bad radius");
    let e = EffectError::PrepareFailed {
        name: text("blur"),
        reason: text("no model"),
    };
    assert_eq!(e.to_string(), "effect 'blur' failed to prepare: no model");
    let e = EffectError::ProcessFailed {
        name: text("blur"),
        reason: text("size"),
    };
    assert_eq!(e.to_string(), "effect 'blur' failed while processing frame: size");
}

#[test]
fn inference_errors_say_what_failed() {
    let cases = [
        (
            InferenceError::ModelNotFound { path: text("/m") },
            "model file not found: /m",
        ),
        (
            InferenceError::ModelLoadFailed { reason: text("r") },
            "model could not be loaded: r",
        ),
        (
            InferenceError::InvalidModelConfig { reason: text("r") },
            "model config invalid: r",
        ),
        (
            InferenceError::BackendUnavailable {
                reason: text("r"),
                hint: text("h"),
            },
            "inference backend unavailable: r",
        ),
        (
            InferenceError::InferenceFailed { reason: text("r") },
            "inference failed: r",
        ),
    ];
    for (e, expected) in cases {
        assert_eq!(e.to_string(), expected);
    }
}

#[test]
fn pipeline_errors_say_what_failed() {
    let cases = [
        (
            PipelineError::MissingElement {
                element: text("v4l2src"),
                hint: text("h"),
            },
            "required GStreamer element 'v4l2src' is missing",
        ),
        (
            PipelineError::InputDeviceUnavailable {
                device: text("d"),
                reason: text("r"),
                hint: text("h"),
            },
            "input device 'd' could not be opened: r",
        ),
        (
            PipelineError::OutputDeviceUnavailable {
                device: text("d"),
                reason: text("r"),
                hint: text("h"),
            },
            "output device 'd' is not usable: r",
        ),
        (
            PipelineError::UnsupportedPixelFormat {
                format: Some(PixelFormat::Nv12),
                raw_label: None,
            },
            "pixel format not supported (format=Some(Nv12), raw_label=None)",
        ),
        (
            PipelineError::UnsupportedPixelFormat {
                format: None,
                raw_label: Some(text("a\"b\n")),
            },
            "pixel format not supported (format=None, raw_label=Some(\"a\\\"b\\n\"))",
        ),
        (
            PipelineError::CapsNegotiationFailed { reason: text("r") },
            "caps negotiation failed: r",
        ),
        (
            PipelineError::StateChangeFailed { reason: text("r") },
            "pipeline state change failed: r",
        ),
        (
            PipelineError::BusError {
                element: text("e"),
                message: text("m"),
                debug: None,
            },
            "pipeline bus error from e: m",
        ),
        (
            PipelineError::Runtime { reason: text("r") },
            "pipeline runtime error: r",
        ),
    ];
    for (e, expected) in cases {
        assert_eq!(e.to_string(), expected);
    }
}

#[test]
fn reasons_walk_down_to_the_cause() {
    let inner = InferenceError::InferenceFailed { reason: text("r") };
    let e = FluxError::from(EffectError::Inference {
        name: text("seg"),
        source: inner,
    });
    assert_eq!(e.to_string(), "inference error inside effect 'seg': inference failed: r");
    assert_eq!(
        e.reason(),
        "inference error inside effect 'seg': inference failed: r: inference failed: r"
    );
    let e = FluxError::io(text("/etc/x"), text("denied"));
    assert_eq!(e.to_string(), "I/O error at /etc/x: denied");
    assert_eq!(e.reason(), "I/O error at /etc/x: denied: denied");
    let e = FluxError::ConfigParse { source: text("line 3") };
    assert_eq!(e.reason(), "config parse failed: line 3: line 3");
    let e = FluxError::from(InferenceError::ModelNotFound { path: text("/m") });
    assert_eq!(e.reason(), "model file not found: /m");
}

#[test]
fn hints_come_from_the_variants_that_have_them() {
    let e = FluxError::Config {
        reason: text("r"),
        hint: Some(text("h")),
    };
    assert_eq!(e.to_string(), "config error: r");
    assert_eq!(e.hint(), Some("h"));
    let e = FluxError::Config {
        reason: text("r"),
        hint: None,
    };
    assert_eq!(e.hint(), None);
    let e = FluxError::from(InferenceError::BackendUnavailable {
        reason: text("r"),
        hint: text("set the path"),
    });
    assert_eq!(e.hint(), Some("set the path"));
    let e = FluxError::from(PipelineError::MissingElement {
        element: text("e"),
        hint: text("install it"),
    });
    assert_eq!(e.hint(), Some("install it"));
    let e = FluxError::from(PipelineError::Runtime { reason: text("r") });
    assert_eq!(e.hint(), None);
}

#[test]
fn aggregates_name_the_first_failure() {
    let first = FluxError::Config {
        reason: text("r"),
        hint: None,
    };
    assert!(!first.is_aggregated());
    let e = FluxError::Aggregated {
        primary: Box::new(first),
        count: 3,
    };
    assert!(e.is_aggregated());
    assert_eq!(e.to_string(), "3 failures (primary: config error: r)");
    assert_eq!(e.reason(), "3 failures (primary: config error: r)");
}
