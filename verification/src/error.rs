//! Error model.
//!
//! Errors live in three families, matching the architectural layers:
//!
//! * [`EffectError`]: anything raised by an effect.
//! * [`InferenceError`]: anything raised by an inference engine.
//! * [`PipelineError`]: capture, output and transport problems.
//!
//! [`FluxError`] groups all of the above plus configuration and I/O.  Concrete
//! diagnostics (device path, plugin name, hint text) stand in the variants, so
//! the "Error / Reason / Hint" report is produced without parsing strings.

use vstd::prelude::*;
use crate::frame::PixelFormat;
use crate::text;

verus! {

/// Errors raised from an effect: configuration validation, one-time
/// preparation and per-frame processing.
#[derive(Debug)]
#[non_exhaustive]
pub enum EffectError {
    /// The effect's parameters failed validation.
    InvalidConfig {
        /// Effect name.
        name: String,
        /// What is wrong.
        reason: String,
        /// How to fix it, where that is known.
        hint: Option<String>,
    },
    /// The effect failed during its one-time preparation.
    PrepareFailed {
        /// Effect name.
        name: String,
        /// What went wrong.
        reason: String,
    },
    /// The effect failed while processing a frame.
    ProcessFailed {
        /// Effect name.
        name: String,
        /// What went wrong.
        reason: String,
    },
    /// The effect delegated to an inference engine, which then failed.
    Inference {
        /// Effect name.
        name: String,
        /// The engine's error.
        source: InferenceError,
    },
}

/// Errors raised from an inference engine.
#[derive(Debug)]
#[non_exhaustive]
pub enum InferenceError {
    /// The model file does not exist or is not readable.
    ModelNotFound {
        /// Path of the model file.
        path: String,
    },
    /// The model file exists but the backend could not load it.
    ModelLoadFailed {
        /// What went wrong.
        reason: String,
    },
    /// The model's configuration is invalid.
    InvalidModelConfig {
        /// What is wrong.
        reason: String,
    },
    /// The chosen backend is not available.
    BackendUnavailable {
        /// What went wrong.
        reason: String,
        /// How to install or enable the backend.
        hint: String,
    },
    /// A single inference call failed.
    InferenceFailed {
        /// What went wrong.
        reason: String,
    },
}

/// Errors raised from the capture and output transport.
#[derive(Debug)]
#[non_exhaustive]
pub enum PipelineError {
    /// A required pipeline element is not registered.
    MissingElement {
        /// Element name.
        element: String,
        /// The package that usually ships it.
        hint: String,
    },
    /// The input device could not be opened.
    InputDeviceUnavailable {
        /// Device name.
        device: String,
        /// What went wrong.
        reason: String,
        /// How to fix it.
        hint: String,
    },
    /// The output device is not usable.
    OutputDeviceUnavailable {
        /// Device name.
        device: String,
        /// What went wrong.
        reason: String,
        /// How to fix it.
        hint: String,
    },
    /// A stage received a pixel format it cannot handle.
    UnsupportedPixelFormat {
        /// Recognised format, when the backend produced one.
        format: Option<PixelFormat>,
        /// Backend-specific label, when the format could not be mapped.
        raw_label: Option<String>,
    },
    /// Upstream and downstream capabilities could not be reconciled.
    CapsNegotiationFailed {
        /// What went wrong.
        reason: String,
    },
    /// A pipeline state change failed.
    StateChangeFailed {
        /// What went wrong.
        reason: String,
    },
    /// The pipeline bus reported a fatal error.
    BusError {
        /// Element that originated the error.
        element: String,
        /// The error's message.
        message: String,
        /// Debug payload, if any.
        debug: Option<String>,
    },
    /// A runtime error reported by the pipeline.
    Runtime {
        /// What went wrong.
        reason: String,
    },
}

/// Top-level error type.
#[derive(Debug)]
#[non_exhaustive]
pub enum FluxError {
    /// An effect failed.
    Effect(EffectError),
    /// An inference engine failed.
    Inference(InferenceError),
    /// The capture or output pipeline failed.
    Pipeline(PipelineError),
    /// A configuration value failed validation.
    Config {
        /// What is wrong.
        reason: String,
        /// How to fix it, where that is known.
        hint: Option<String>,
    },
    /// The configuration file could not be parsed.
    ConfigParse {
        /// The parser's message.
        source: String,
    },
    /// An I/O operation failed.
    Io {
        /// Path the operation was targeting.
        path: String,
        /// The operating system's message.
        source: String,
    },
    /// An aggregate of several failures that were reported already.
    Aggregated {
        /// First failure of the aggregate.
        primary: Box<FluxError>,
        /// Total number of failures.
        count: usize,
    },
}

/// `s` as a quoted literal, with the escapes of `Debug`.
pub uninterp spec fn debug_text(s: Seq<char>) -> Seq<char>;

/// The `Debug` form of `str`, as `format!("{:?}", s)` writes it: `s` between
/// quotes, with special characters escaped.
#[verifier::external_body]
fn debug_of(s: &str) -> (r: String)
    ensures
        r@ == debug_text(s@),
{
    format!("{:?}", s)
}

/// `prefix`, `a`, `middle`, `b` one after the other.
fn message(prefix: &str, a: &str, middle: &str, b: &str) -> (r: String)
    ensures
        r@ == prefix@ + a@ + middle@ + b@,
{
    let mut out = prefix.to_owned();
    out.append(a);
    out.append(middle);
    out.append(b);
    out
}

impl InferenceError {
    /// The one-line message.
    pub open spec fn display(&self) -> Seq<char> {
        match self {
            InferenceError::ModelNotFound { path } => "model file not found: "@ + path@,
            InferenceError::ModelLoadFailed { reason } => "model could not be loaded: "@ + reason@,
            InferenceError::InvalidModelConfig { reason } => "model config invalid: "@ + reason@,
            InferenceError::BackendUnavailable { reason, .. } => "inference backend unavailable: "@
                + reason@,
            InferenceError::InferenceFailed { reason } => "inference failed: "@ + reason@,
        }
    }

    /// The one-line message.
    pub fn to_string(&self) -> (r: String)
        ensures
            r@ == self.display(),
    {
        let (prefix, detail): (&str, &String) = match self {
            InferenceError::ModelNotFound { path } => ("model file not found: ", path),
            InferenceError::ModelLoadFailed { reason } => ("model could not be loaded: ", reason),
            InferenceError::InvalidModelConfig { reason } => ("model config invalid: ", reason),
            InferenceError::BackendUnavailable { reason, .. } => (
                "inference backend unavailable: ",
                reason,
            ),
            InferenceError::InferenceFailed { reason } => ("inference failed: ", reason),
        };
        let mut out = prefix.to_owned();
        out.append(detail.as_str());
        out
    }
}

impl EffectError {
    /// The one-line message.
    pub open spec fn display(&self) -> Seq<char> {
        match self {
            EffectError::InvalidConfig { name, reason, .. } => "effect '"@ + name@
                + "' configuration is invalid: "@ + reason@,
            EffectError::PrepareFailed { name, reason } => "effect '"@ + name@
                + "' failed to prepare: "@ + reason@,
            EffectError::ProcessFailed { name, reason } => "effect '"@ + name@
                + "' failed while processing frame: "@ + reason@,
            EffectError::Inference { name, source } => "inference error inside effect '"@ + name@
                + "': "@ + source.display(),
        }
    }

    /// The one-line message.
    pub fn to_string(&self) -> (r: String)
        ensures
            r@ == self.display(),
    {
        match self {
            EffectError::InvalidConfig { name, reason, .. } => message(
                "effect '",
                name.as_str(),
                "' configuration is invalid: ",
                reason.as_str(),
            ),
            EffectError::PrepareFailed { name, reason } => message(
                "effect '",
                name.as_str(),
                "' failed to prepare: ",
                reason.as_str(),
            ),
            EffectError::ProcessFailed { name, reason } => message(
                "effect '",
                name.as_str(),
                "' failed while processing frame: ",
                reason.as_str(),
            ),
            EffectError::Inference { name, source } => {
                let detail = source.to_string();
                message("inference error inside effect '", name.as_str(), "': ", detail.as_str())
            },
        }
    }

    /// Invalid configuration of effect `name`.
    pub(crate) fn invalid_config(name: &str, reason: String, hint: Option<String>) -> (r: Self)
        ensures
            r matches EffectError::InvalidConfig { name: n, reason: t, hint: h } && n@ == name@ && t
                == reason && h == hint,
    {
        EffectError::InvalidConfig { name: name.to_owned(), reason, hint }
    }

    /// Failed preparation of effect `name`.
    pub(crate) fn prepare_failed(name: &str, reason: String) -> (r: Self)
        ensures
            r matches EffectError::PrepareFailed { name: n, reason: t } && n@ == name@ && t
                == reason,
    {
        EffectError::PrepareFailed { name: name.to_owned(), reason }
    }

    /// Failed frame of effect `name`.
    pub(crate) fn process_failed(name: &str, reason: String) -> (r: Self)
        ensures
            r matches EffectError::ProcessFailed { name: n, reason: t } && n@ == name@ && t
                == reason,
    {
        EffectError::ProcessFailed { name: name.to_owned(), reason }
    }
}

/// `Debug` form of an optional pixel format.
pub open spec fn format_debug(format: Option<PixelFormat>) -> Seq<char> {
    match format {
        Some(f) => "Some("@ + f.variant() + ")"@,
        None => "None"@,
    }
}

/// `Debug` form of an optional label.
pub open spec fn label_debug(label: Option<String>) -> Seq<char> {
    match label {
        Some(s) => "Some("@ + debug_text(s@) + ")"@,
        None => "None"@,
    }
}

impl PipelineError {
    /// The one-line message.
    pub open spec fn display(&self) -> Seq<char> {
        match self {
            PipelineError::MissingElement { element, .. } => "required GStreamer element '"@
                + element@ + "' is missing"@,
            PipelineError::InputDeviceUnavailable { device, reason, .. } => "input device '"@
                + device@ + "' could not be opened: "@ + reason@,
            PipelineError::OutputDeviceUnavailable { device, reason, .. } => "output device '"@
                + device@ + "' is not usable: "@ + reason@,
            PipelineError::UnsupportedPixelFormat { format, raw_label } =>
                "pixel format not supported (format="@ + format_debug(*format) + ", raw_label="@
                + label_debug(*raw_label) + ")"@,
            PipelineError::CapsNegotiationFailed { reason } => "caps negotiation failed: "@
                + reason@,
            PipelineError::StateChangeFailed { reason } => "pipeline state change failed: "@
                + reason@,
            PipelineError::BusError { element, message, .. } => "pipeline bus error from "@
                + element@ + ": "@ + message@,
            PipelineError::Runtime { reason } => "pipeline runtime error: "@ + reason@,
        }
    }

    /// The one-line message.
    pub fn to_string(&self) -> (r: String)
        ensures
            r@ == self.display(),
    {
        match self {
            PipelineError::MissingElement { element, .. } => {
                let mut out = "required GStreamer element '".to_owned();
                out.append(element.as_str());
                out.append("' is missing");
                out
            },
            PipelineError::InputDeviceUnavailable { device, reason, .. } => self::message(
                "input device '",
                device.as_str(),
                "' could not be opened: ",
                reason.as_str(),
            ),
            PipelineError::OutputDeviceUnavailable { device, reason, .. } => self::message(
                "output device '",
                device.as_str(),
                "' is not usable: ",
                reason.as_str(),
            ),
            PipelineError::UnsupportedPixelFormat { format, raw_label } => {
                let mut out = "pixel format not supported (format=".to_owned();
                let mut left = String::new();
                match format {
                    Some(f) => {
                        left.append("Some(");
                        left.append(f.variant_name());
                        left.append(")");
                    },
                    None => left.append("None"),
                }
                proof {
                    assert(left@ =~= format_debug(*format));
                }
                out.append(left.as_str());
                out.append(", raw_label=");
                let mut right = String::new();
                match raw_label {
                    Some(s) => {
                        right.append("Some(");
                        let quoted = debug_of(s.as_str());
                        right.append(quoted.as_str());
                        right.append(")");
                    },
                    None => right.append("None"),
                }
                proof {
                    assert(right@ =~= label_debug(*raw_label));
                }
                out.append(right.as_str());
                out.append(")");
                out
            },
            PipelineError::CapsNegotiationFailed { reason } => {
                let mut out = "caps negotiation failed: ".to_owned();
                out.append(reason.as_str());
                out
            },
            PipelineError::StateChangeFailed { reason } => {
                let mut out = "pipeline state change failed: ".to_owned();
                out.append(reason.as_str());
                out
            },
            PipelineError::BusError { element, message, .. } => self::message(
                "pipeline bus error from ",
                element.as_str(),
                ": ",
                message.as_str(),
            ),
            PipelineError::Runtime { reason } => {
                let mut out = "pipeline runtime error: ".to_owned();
                out.append(reason.as_str());
                out
            },
        }
    }
}

impl FluxError {
    /// The one-line message.
    pub open spec fn display(&self) -> Seq<char>
        decreases self,
    {
        match self {
            FluxError::Effect(e) => e.display(),
            FluxError::Inference(e) => e.display(),
            FluxError::Pipeline(e) => e.display(),
            FluxError::Config { reason, .. } => "config error: "@ + reason@,
            FluxError::ConfigParse { source } => "config parse failed: "@ + source@,
            FluxError::Io { path, source } => "I/O error at "@ + path@ + ": "@ + source@,
            FluxError::Aggregated { primary, count } => text::decimal(*count as nat)
                + " failures (primary: "@ + primary.display() + ")"@,
        }
    }

    /// The message of the error beneath, where there is one.
    pub open spec fn cause(&self) -> Option<Seq<char>> {
        match self {
            FluxError::Effect(EffectError::Inference { source, .. }) => Some(source.display()),
            FluxError::ConfigParse { source } => Some(source@),
            FluxError::Io { source, .. } => Some(source@),
            _ => None,
        }
    }

    /// The one-line message.
    pub fn to_string(&self) -> (r: String)
        ensures
            r@ == self.display(),
        decreases self,
    {
        match self {
            FluxError::Effect(e) => e.to_string(),
            FluxError::Inference(e) => e.to_string(),
            FluxError::Pipeline(e) => e.to_string(),
            FluxError::Config { reason, .. } => {
                let mut out = "config error: ".to_owned();
                out.append(reason.as_str());
                out
            },
            FluxError::ConfigParse { source } => {
                let mut out = "config parse failed: ".to_owned();
                out.append(source.as_str());
                out
            },
            FluxError::Io { path, source } => message(
                "I/O error at ",
                path.as_str(),
                ": ",
                source.as_str(),
            ),
            FluxError::Aggregated { primary, count } => {
                let mut out = String::new();
                text::push_decimal(&mut out, *count as u64);
                let first = primary.to_string();
                out.append(" failures (primary: ");
                out.append(first.as_str());
                out.append(")");
                proof {
                    assert(out@ =~= self.display());
                }
                out
            },
        }
    }

    /// An I/O failure at `path`.
    #[must_use]
    pub fn io(path: String, source: String) -> (r: Self)
        ensures
            r == (FluxError::Io { path, source }),
    {
        FluxError::Io { path, source }
    }

    /// Whether this is an aggregate, whose parts were reported already.
    #[must_use]
    pub fn is_aggregated(&self) -> (r: bool)
        ensures
            r == (self is Aggregated),
    {
        matches!(self, FluxError::Aggregated { .. })
    }
}

impl From<EffectError> for FluxError {
    fn from(e: EffectError) -> (r: Self) {
        FluxError::Effect(e)
    }
}

impl vstd::std_specs::convert::FromSpecImpl<EffectError> for FluxError {
    open spec fn obeys_from_spec() -> bool {
        true
    }

    open spec fn from_spec(e: EffectError) -> Self {
        FluxError::Effect(e)
    }
}

impl From<InferenceError> for FluxError {
    fn from(e: InferenceError) -> (r: Self) {
        FluxError::Inference(e)
    }
}

impl vstd::std_specs::convert::FromSpecImpl<InferenceError> for FluxError {
    open spec fn obeys_from_spec() -> bool {
        true
    }

    open spec fn from_spec(e: InferenceError) -> Self {
        FluxError::Inference(e)
    }
}

impl From<PipelineError> for FluxError {
    fn from(e: PipelineError) -> (r: Self) {
        FluxError::Pipeline(e)
    }
}

impl vstd::std_specs::convert::FromSpecImpl<PipelineError> for FluxError {
    open spec fn obeys_from_spec() -> bool {
        true
    }

    open spec fn from_spec(e: PipelineError) -> Self {
        FluxError::Pipeline(e)
    }
}

/// User-facing rendering of an error as reason and hint.
pub trait Diagnostic {
    /// The reason.
    spec fn reason_text(&self) -> Seq<char>;

    /// The hint, where there is one.
    spec fn hint_text(&self) -> Option<Seq<char>>;

    /// User-facing reason: the messages of the error and of what lies beneath
    /// it, joined by `": "`, with consecutive duplicates written once.
    fn reason(&self) -> (r: String)
        ensures
            r@ == self.reason_text(),
    ;

    /// Optional user-facing remediation hint.
    fn hint(&self) -> (r: Option<&str>)
        ensures
            match r {
                Some(h) => self.hint_text() == Some(h@),
                None => self.hint_text() is None,
            },
    ;
}

impl Diagnostic for FluxError {
    open spec fn reason_text(&self) -> Seq<char> {
        match self.cause() {
            Some(cause) => if cause == self.display() {
                cause
            } else {
                self.display() + ": "@ + cause
            },
            None => self.display(),
        }
    }

    open spec fn hint_text(&self) -> Option<Seq<char>> {
        match self {
            FluxError::Config { hint, .. } => match hint {
                Some(h) => Some(h@),
                None => None,
            },
            FluxError::Pipeline(PipelineError::MissingElement { hint, .. }) => Some(hint@),
            FluxError::Pipeline(PipelineError::InputDeviceUnavailable { hint, .. }) => Some(hint@),
            FluxError::Pipeline(PipelineError::OutputDeviceUnavailable { hint, .. }) => Some(hint@),
            FluxError::Inference(InferenceError::BackendUnavailable { hint, .. }) => Some(hint@),
            _ => None,
        }
    }

    fn reason(&self) -> (r: String) {
        let own = self.to_string();
        let cause: String = match self {
            FluxError::Effect(EffectError::Inference { source, .. }) => source.to_string(),
            FluxError::ConfigParse { source } => source.clone(),
            FluxError::Io { source, .. } => source.clone(),
            _ => {
                return own;
            },
        };
        if text::same(own.as_str(), cause.as_str()) {
            return own;
        }
        let mut out = own;
        out.append(": ");
        out.append(cause.as_str());
        out
    }

    fn hint(&self) -> (r: Option<&str>) {
        match self {
            FluxError::Config { hint, .. } => match hint {
                Some(h) => Some(h.as_str()),
                None => None,
            },
            FluxError::Pipeline(PipelineError::MissingElement { hint, .. }) => Some(hint.as_str()),
            FluxError::Pipeline(PipelineError::InputDeviceUnavailable { hint, .. }) => Some(
                hint.as_str(),
            ),
            FluxError::Pipeline(PipelineError::OutputDeviceUnavailable { hint, .. }) => Some(
                hint.as_str(),
            ),
            FluxError::Inference(InferenceError::BackendUnavailable { hint, .. }) => Some(
                hint.as_str(),
            ),
            _ => None,
        }
    }
}

} // verus!
