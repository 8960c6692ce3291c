//! Forced backends, from environment values.
//!
//! Recognised in any letter case and with surrounding white space: `auto`, `cpu`,
//! and `openvino` or `wgpu`.  A value that is absent, blank or unrecognised means
//! `auto`.

use vstd::prelude::*;
use crate::text;

verus! {

/// Which inference backend to use.
#[derive(Debug, Clone, Copy, PartialEq, Eq, Structural)]
#[non_exhaustive]
pub enum InferenceBackendChoice {
    /// The best one available.
    Auto,
    /// ONNX Runtime on the CPU.
    Cpu,
    /// OpenVINO, or an error.
    OpenVino,
}

impl Default for InferenceBackendChoice {
    fn default() -> (r: Self)
        ensures
            r == InferenceBackendChoice::Auto,
    {
        InferenceBackendChoice::Auto
    }
}

/// Which blur backend to use.
#[derive(Debug, Clone, Copy, PartialEq, Eq, Structural)]
#[non_exhaustive]
pub enum BlurBackendChoice {
    /// The best one available.
    Auto,
    /// The box blur on the CPU.
    Cpu,
    /// The compute shader, or an error.
    Wgpu,
}

impl Default for BlurBackendChoice {
    fn default() -> (r: Self)
        ensures
            r == BlurBackendChoice::Auto,
    {
        BlurBackendChoice::Auto
    }
}

/// Choice of each backend.
#[derive(Debug, Clone, Copy, PartialEq, Eq, Structural)]
#[non_exhaustive]
pub struct BackendOverrides {
    /// Inference.
    pub inference: InferenceBackendChoice,
    /// Blur.
    pub blur: BlurBackendChoice,
}

impl Default for BackendOverrides {
    fn default() -> (r: Self)
        ensures
            r.inference == InferenceBackendChoice::Auto,
            r.blur == BlurBackendChoice::Auto,
    {
        BackendOverrides {
            inference: InferenceBackendChoice::Auto,
            blur: BlurBackendChoice::Auto,
        }
    }
}

/// Environment variable for [`InferenceBackendChoice`].
pub const ENV_INFERENCE: &'static str = "FLUXFRAME_FORCE_INFERENCE_BACKEND";

/// Environment variable for [`BlurBackendChoice`].
pub const ENV_BLUR: &'static str = "FLUXFRAME_FORCE_BLUR_BACKEND";

/// A value without surrounding white space, in lower case; blank where absent.
pub open spec fn normal(raw: Option<Seq<char>>) -> Seq<char> {
    match raw {
        Some(s) => text::lower(text::trimmed(s)),
        None => Seq::empty(),
    }
}

/// The inference choice that a value spells.
pub open spec fn inference_of(raw: Option<Seq<char>>) -> InferenceBackendChoice {
    let value = normal(raw);
    if value == "cpu"@ {
        InferenceBackendChoice::Cpu
    } else if value == "openvino"@ {
        InferenceBackendChoice::OpenVino
    } else {
        InferenceBackendChoice::Auto
    }
}

/// The blur choice that a value spells.
pub open spec fn blur_of(raw: Option<Seq<char>>) -> BlurBackendChoice {
    let value = normal(raw);
    if value == "cpu"@ {
        BlurBackendChoice::Cpu
    } else if value == "wgpu"@ {
        BlurBackendChoice::Wgpu
    } else {
        BlurBackendChoice::Auto
    }
}

/// The characters of an optional value.
pub open spec fn value_chars(raw: Option<String>) -> Option<Seq<char>> {
    match raw {
        Some(s) => Some(s@),
        None => None,
    }
}

fn normalise(raw: &Option<String>) -> (r: String)
    ensures
        r@ == normal(value_chars(*raw)),
{
    match raw {
        Some(s) => {
            let trimmed = text::trim(s.as_str());
            text::to_lower(trimmed.as_str())
        },
        None => {
            let blank = String::new();
            assert(blank@ =~= Seq::empty());
            blank
        },
    }
}

fn parse_inference(raw: Option<String>) -> (r: InferenceBackendChoice)
    ensures
        r == inference_of(value_chars(raw)),
{
    let value = normalise(&raw);
    if text::same(value.as_str(), "cpu") {
        InferenceBackendChoice::Cpu
    } else if text::same(value.as_str(), "openvino") {
        InferenceBackendChoice::OpenVino
    } else {
        InferenceBackendChoice::Auto
    }
}

fn parse_blur(raw: Option<String>) -> (r: BlurBackendChoice)
    ensures
        r == blur_of(value_chars(raw)),
{
    let value = normalise(&raw);
    if text::same(value.as_str(), "cpu") {
        BlurBackendChoice::Cpu
    } else if text::same(value.as_str(), "wgpu") {
        BlurBackendChoice::Wgpu
    } else {
        BlurBackendChoice::Auto
    }
}

impl BackendOverrides {
    /// Replace the inference choice.
    #[must_use]
    pub fn with_inference(self, choice: InferenceBackendChoice) -> (r: Self)
        ensures
            r.inference == choice,
            r.blur == self.blur,
    {
        BackendOverrides { inference: choice, blur: self.blur }
    }

    /// Replace the blur choice.
    #[must_use]
    pub fn with_blur(self, choice: BlurBackendChoice) -> (r: Self)
        ensures
            r.inference == self.inference,
            r.blur == choice,
    {
        BackendOverrides { inference: self.inference, blur: choice }
    }

    /// Read the choices through a lookup of environment variables.
    #[must_use]
    pub fn from_lookup<F: Fn(&str) -> Option<String>>(lookup: F) -> (r: Self)
        requires
            forall|key: &str| call_requires(lookup, (key,)),
        ensures
            exists|v: Option<String>| #[trigger]
                call_ensures(lookup, (ENV_INFERENCE,), v) && r.inference == inference_of(
                    value_chars(v),
                ),
            exists|v: Option<String>| #[trigger]
                call_ensures(lookup, (ENV_BLUR,), v) && r.blur == blur_of(value_chars(v)),
    {
        let inference = lookup(ENV_INFERENCE);
        let blur = lookup(ENV_BLUR);
        BackendOverrides { inference: parse_inference(inference), blur: parse_blur(blur) }
    }
}

/// Letter case and surrounding white space do not matter, and what is not
/// recognised means `auto`.
pub proof fn law_choice_by_normal_form(a: Seq<char>, b: Seq<char>)
    requires
        text::lower(text::trimmed(a)) == text::lower(text::trimmed(b)),
    ensures
        inference_of(Some(a)) == inference_of(Some(b)),
        blur_of(Some(a)) == blur_of(Some(b)),
{
}

} // verus!
