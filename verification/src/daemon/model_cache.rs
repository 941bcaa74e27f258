//! The models that the daemon keeps loaded.

use vstd::prelude::*;

use crate::error::{is_config_error, Outcome};
use crate::models::{reranker_named, resolve_model, unknown_reranker, CrossencoderModel};
use crate::text::cat4;

verus! {

/// What is done to have a reranker for a request.
#[derive(Debug, Clone, Copy, PartialEq, Eq, Structural)]
pub enum CrossencoderPlan {
    /// None is configured; the results keep their order.
    Skip,
    /// It is loaded already.
    Reuse(CrossencoderModel),
    /// It has to be loaded.
    Load(CrossencoderModel),
}

/// What is done to have the reranker that a request's configuration names;
/// `loaded` are those that are loaded.  Each is loaded once, whichever request
/// names it first.
pub fn plan_crossencoder(
    model_name: Option<&str>,
    loaded: &Vec<CrossencoderModel>,
) -> (out: Outcome<CrossencoderPlan>)
    ensures
        match model_name {
            None => out matches Ok(CrossencoderPlan::Skip),
            Some(name) => match reranker_named(name@) {
                Some(model) => out matches Ok(plan) && plan == (if loaded@.contains(model) {
                    CrossencoderPlan::Reuse(model)
                } else {
                    CrossencoderPlan::Load(model)
                }),
                None => is_config_error(out, unknown_reranker(name@)),
            },
        },
{
    let name = match model_name {
        Some(name) => name,
        None => {
            return Ok(CrossencoderPlan::Skip);
        },
    };
    let model = match resolve_model(name) {
        Ok(model) => model,
        Err(e) => {
            return Err(e);
        },
    };
    for i in 0..loaded.len()
        invariant
            model_name == Some(name),
            reranker_named(name@) == Some(model),
            forall|j: int| 0 <= j < i ==> loaded@[j] != model,
    {
        if loaded[i] == model {
            return Ok(CrossencoderPlan::Reuse(model));
        }
    }
    Ok(CrossencoderPlan::Load(model))
}

/// The message where a reranker cannot be loaded.
pub fn crossencoder_unavailable(model: CrossencoderModel, detail: &str) -> (out: String)
    ensures
        out@ == "init crossencoder ("@ + model.name() + "): "@ + detail@,
{
    cat4("init crossencoder (", model.model_name().as_str(), "): ", detail)
}

/// The message where the embedder cannot be loaded.
pub fn embedder_unavailable(model: &str, detail: &str) -> (out: String)
    ensures
        out@ == "init embedder ("@ + model@ + "): "@ + detail@,
{
    cat4("init embedder (", model, "): ", detail)
}

} // verus!
