//! Configuration of a model from its own file or the one next to the model.

use vstd::prelude::*;
use crate::error::InferenceError;
use crate::ml::engine;
use crate::ml::model_config::ModelConfig;
use crate::traits::{self, ModelLoader};

verus! {

/// Whether `c` stands in for a model without a configuration of its own.
pub open spec fn stands_in(c: ModelConfig) -> bool {
    c.name@ == "<unknown>"@ && c.input_width == 1 && c.input_height == 1 && c.defect() is None
}

/// Whether the configuration that was `found` comes out as `r`.
pub open spec fn supplied(
    found: Option<Result<ModelConfig, InferenceError>>,
    r: Result<ModelConfig, InferenceError>,
) -> bool {
    match found {
        None => r matches Ok(c) && stands_in(c),
        Some(Err(_)) => r == found->0,
        Some(Ok(c)) => match c.defect() {
            None => r == found->0,
            Some(reason) => r matches Err(e) && engine::config_failure(e, reason),
        },
    }
}

/// The configuration of a model: `found` is what the file next to the model
/// holds, or why it cannot be read or parsed, and `None` where there is no such
/// file.  A configuration must be valid; without one a placeholder of one pixel
/// stands in.
pub fn load_sidecar_or_placeholder(found: Option<Result<ModelConfig, InferenceError>>) -> (r: Result<
    ModelConfig,
    InferenceError,
>)
    ensures
        supplied(found, r),
{
    match found {
        None => Ok(ModelConfig::placeholder()),
        Some(Err(e)) => Err(e),
        Some(Ok(c)) => {
            match c.validate() {
                Ok(()) => Ok(c),
                Err(e) => Err(e),
            }
        },
    }
}

/// The configuration of the model at `model`: the one at the path `given`, or
/// else the one next to the model, or else the placeholder.
pub fn load_model_config<L: ModelLoader>(loader: &L, model: &str, given: Option<&str>) -> (r: Result<
    ModelConfig,
    InferenceError,
>)
    ensures
        traits::may_load(
            loader,
            model@,
            match given {
                Some(p) => Some(p@),
                None => None,
            },
            r,
        ),
{
    match given {
        Some(path) => {
            let read = loader.read_config(path);
            let ghost found = Some(read);
            assert(call_ensures(L::read_config, (loader, path), found->0));
            assert(traits::may_find(loader, model@, Some(path@), found));
            load_sidecar_or_placeholder(Some(read))
        },
        None => {
            let found = loader.find_config(model);
            assert(traits::may_find(loader, model@, None, found));
            load_sidecar_or_placeholder(found)
        },
    }
}

} // verus!
