//! What the inference engines have in common: the checks and the errors around
//! the calls into a runtime.

use vstd::prelude::*;
use crate::error::InferenceError;
use crate::ml::model_config::ModelConfig;
use crate::text;
use crate::traits::ModelInfo;

verus! {

/// An output tensor.
#[derive(Debug)]
pub struct RawOutput {
    /// Dimensions.
    pub dims: Vec<i64>,
    /// Values, as single-precision bit patterns.
    pub data: Vec<u32>,
}

/// What an engine says of its model.
pub open spec fn describes(info: ModelInfo, config: ModelConfig) -> bool {
    &&& info.name == config.name
    &&& info.input_width == config.input_width
    &&& info.input_height == config.input_height
    &&& info.input_format == config.input_color
}

/// What an engine says of its model.
pub(crate) fn model_info_of(config: &ModelConfig) -> (r: ModelInfo)
    ensures
        describes(r, *config),
{
    ModelInfo {
        name: config.name.clone(),
        input_width: config.input_width,
        input_height: config.input_height,
        input_format: config.input_color,
    }
}

/// Whether `e` is a failure to load for `reason`.
pub open spec fn load_failure(e: InferenceError, reason: Seq<char>) -> bool {
    e matches InferenceError::ModelLoadFailed { reason: t } && t@ == reason
}

/// Whether `e` is an invalid configuration for `reason`.
pub open spec fn config_failure(e: InferenceError, reason: Seq<char>) -> bool {
    e matches InferenceError::InvalidModelConfig { reason: t } && t@ == reason
}

/// Whether `e` is a failed inference for `reason`.
pub open spec fn run_failure(e: InferenceError, reason: Seq<char>) -> bool {
    e matches InferenceError::InferenceFailed { reason: t } && t@ == reason
}

/// Whether `e` is a missing model file.
pub open spec fn missing_model(e: InferenceError, path: Seq<char>) -> bool {
    e matches InferenceError::ModelNotFound { path: p } && p@ == path
}

/// Whether `e` is an unavailable backend.
pub open spec fn unavailable(e: InferenceError, reason: Seq<char>, hint: Seq<char>) -> bool {
    e matches InferenceError::BackendUnavailable { reason: t, hint: h } && t@ == reason && h@
        == hint
}

/// `<what><detail>`.
pub(crate) fn joined(what: &str, detail: &str) -> (r: String)
    ensures
        r@ == what@ + detail@,
{
    let mut out = what.to_owned();
    out.append(detail);
    out
}

/// `<what>(<arg>): <detail>`.
pub(crate) fn called(what: &str, arg: &str, detail: &str) -> (r: String)
    ensures
        r@ == what@ + "("@ + arg@ + "): "@ + detail@,
{
    let mut out = what.to_owned();
    out.append("(");
    out.append(arg);
    out.append("): ");
    out.append(detail);
    out
}

/// The failure to load for a reason.
pub(crate) fn load_failed(reason: String) -> (r: InferenceError)
    ensures
        load_failure(r, reason@),
{
    InferenceError::ModelLoadFailed { reason }
}

/// The failed inference for a reason.
pub(crate) fn run_failed(reason: String) -> (r: InferenceError)
    ensures
        run_failure(r, reason@),
{
    InferenceError::InferenceFailed { reason }
}

/// Number of elements of the first `n` dimensions, where every partial product
/// can be counted.
pub open spec fn elements(shape: Seq<usize>, n: int) -> Option<int>
    decreases n,
{
    if n <= 0 {
        Some(1)
    } else {
        match elements(shape, n - 1) {
            Some(k) => if k * shape[n - 1] <= usize::MAX {
                Some(k * shape[n - 1])
            } else {
                None
            },
            None => None,
        }
    }
}

/// Why an input is refused, if it is.
pub open spec fn input_complaint(len: nat, shape: Seq<usize>) -> Option<Seq<char>> {
    let start = "input length "@ + text::decimal(len) + " mismatches shape "@ + text::decimal_list(
        shape,
    );
    match elements(shape, shape.len() as int) {
        Some(k) => if len == k {
            None
        } else {
            Some(start + " (= "@ + text::decimal(k as nat) + ")"@)
        },
        None => Some(start + " (overflow)"@),
    }
}

/// An input has as many values as its shape says.
pub fn check_input(len: usize, shape: &[usize]) -> (r: Result<(), InferenceError>)
    ensures
        match input_complaint(len as nat, shape@) {
            Some(reason) => r matches Err(e) && run_failure(e, reason),
            None => r is Ok,
        },
{
    let mut product: Option<usize> = Some(1);
    let mut i: usize = 0;
    while i < shape.len()
        invariant
            i <= shape@.len(),
            match product {
                Some(k) => elements(shape@, i as int) == Some(k as int),
                None => elements(shape@, i as int) is None,
            },
        decreases shape@.len() - i,
    {
        product = match product {
            Some(k) => k.checked_mul(shape[i]),
            None => None,
        };
        i = i + 1;
    }
    match product {
        Some(k) => {
            if k == len {
                return Ok(());
            }
        },
        None => {},
    }
    let mut reason = "input length ".to_owned();
    text::push_decimal(&mut reason, len as u64);
    reason.append(" mismatches shape ");
    text::push_decimal_list(&mut reason, shape);
    match product {
        Some(k) => {
            reason.append(" (= ");
            text::push_decimal(&mut reason, k as u64);
            reason.append(")");
        },
        None => {
            reason.append(" (overflow)");
        },
    }
    Err(run_failed(reason))
}

} // verus!
