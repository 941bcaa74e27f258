//! The models that can be configured.

use vstd::prelude::*;

use crate::error::{is_config_error, HallouminateError, Outcome};
use crate::text::{cat2, cat3, debug_quote, debug_text, owned, same};
use vstd::string::StringExecFns;

verus! {

/// The model that is used when none is configured.
pub const DEFAULT_MODEL: &'static str = "snowflake/snowflake-arctic-embed-s";

/// The small English model of BAAI.
pub const BGE_SMALL: &'static str = "BAAI/bge-small-en-v1.5";

/// The name under which `BGE_SMALL` was configured once.
pub const BGE_SMALL_ALIAS: &'static str = "bge-small-en-v1.5";

/// The multilingual model.
pub const MULTILINGUAL_E5_SMALL: &'static str = "intfloat/multilingual-e5-small";

/// The name by which the library knows the configured model.
pub open spec fn canonical_model(name: Seq<char>) -> Option<Seq<char>> {
    if name == DEFAULT_MODEL@ {
        Some(DEFAULT_MODEL@)
    } else if name == BGE_SMALL@ || name == BGE_SMALL_ALIAS@ {
        Some(BGE_SMALL@)
    } else if name == MULTILINGUAL_E5_SMALL@ {
        Some(MULTILINGUAL_E5_SMALL@)
    } else {
        None
    }
}

/// The message for a model that is not supported.
pub open spec fn unsupported_model_message(name: Seq<char>) -> Seq<char> {
    "unsupported embedding model "@ + debug_text(name) + "; supported models: "@ + DEFAULT_MODEL@
        + ", "@ + BGE_SMALL@ + ", "@ + MULTILINGUAL_E5_SMALL@
}

/// The name by which the library knows the configured embedding model.
pub fn canonical_model_name(name: &str) -> (out: Outcome<String>)
    ensures
        match canonical_model(name@) {
            Some(known) => out matches Ok(text) && text@ == known,
            None => is_config_error(out, unsupported_model_message(name@)),
        },
{
    if same(name, DEFAULT_MODEL) {
        Ok(owned(DEFAULT_MODEL))
    } else if same(name, BGE_SMALL) || same(name, BGE_SMALL_ALIAS) {
        Ok(owned(BGE_SMALL))
    } else if same(name, MULTILINGUAL_E5_SMALL) {
        Ok(owned(MULTILINGUAL_E5_SMALL))
    } else {
        let quoted = debug_quote(name);
        let mut message = cat3(
            "unsupported embedding model ",
            quoted.as_str(),
            "; supported models: ",
        );
        message.append(DEFAULT_MODEL);
        message.append(", ");
        message.append(BGE_SMALL);
        message.append(", ");
        message.append(MULTILINGUAL_E5_SMALL);
        Err(HallouminateError::Config(message))
    }
}

/// The name of a model is its own canonical name.
pub proof fn canonical_model_is_stable(name: Seq<char>)
    ensures
        canonical_model(name) matches Some(known) ==> canonical_model(known) == Some(known),
{
}

/// The rerankers that can be configured.
#[derive(Debug, Clone, Copy, PartialEq, Eq, Structural)]
pub enum CrossencoderModel {
    JinaV1TurboEn,
    JinaV2BaseMultilingual,
    BgeBase,
    BgeV2M3,
}

impl CrossencoderModel {
    /// The name under which the reranker is configured.
    pub open spec fn name(self) -> Seq<char> {
        match self {
            CrossencoderModel::JinaV1TurboEn => "jina-reranker-v1-turbo-en"@,
            CrossencoderModel::JinaV2BaseMultilingual => "jina-reranker-v2-base-multiligual"@,
            CrossencoderModel::BgeBase => "bge-reranker-base"@,
            CrossencoderModel::BgeV2M3 => "bge-reranker-v2-m3"@,
        }
    }

    /// The name under which the reranker is configured.
    pub fn model_name(self) -> (out: String)
        ensures
            out@ == self.name(),
    {
        match self {
            CrossencoderModel::JinaV1TurboEn => owned("jina-reranker-v1-turbo-en"),
            CrossencoderModel::JinaV2BaseMultilingual => owned("jina-reranker-v2-base-multiligual"),
            CrossencoderModel::BgeBase => owned("bge-reranker-base"),
            CrossencoderModel::BgeV2M3 => owned("bge-reranker-v2-m3"),
        }
    }
}

/// The reranker that a configured name means.  One of them is misspelt where it
/// comes from; its name is known in both spellings.
pub open spec fn reranker_named(name: Seq<char>) -> Option<CrossencoderModel> {
    if name == "jina-reranker-v1-turbo-en"@ {
        Some(CrossencoderModel::JinaV1TurboEn)
    } else if name == "jina-reranker-v2-base-multiligual"@ || name
        == "jina-reranker-v2-base-multilingual"@ {
        Some(CrossencoderModel::JinaV2BaseMultilingual)
    } else if name == "bge-reranker-base"@ {
        Some(CrossencoderModel::BgeBase)
    } else if name == "bge-reranker-v2-m3"@ {
        Some(CrossencoderModel::BgeV2M3)
    } else {
        None
    }
}

/// The message for a reranker that is not known.
pub open spec fn unknown_reranker(name: Seq<char>) -> Seq<char> {
    "unsupported crossencoder model "@ + debug_text(name)
}

/// The reranker that a configured name means.
pub fn resolve_model(name: &str) -> (out: Outcome<CrossencoderModel>)
    ensures
        match reranker_named(name@) {
            Some(model) => out == Ok::<CrossencoderModel, HallouminateError>(model),
            None => is_config_error(out, unknown_reranker(name@)),
        },
{
    if same(name, "jina-reranker-v1-turbo-en") {
        Ok(CrossencoderModel::JinaV1TurboEn)
    } else if same(name, "jina-reranker-v2-base-multiligual") || same(
        name,
        "jina-reranker-v2-base-multilingual",
    ) {
        Ok(CrossencoderModel::JinaV2BaseMultilingual)
    } else if same(name, "bge-reranker-base") {
        Ok(CrossencoderModel::BgeBase)
    } else if same(name, "bge-reranker-v2-m3") {
        Ok(CrossencoderModel::BgeV2M3)
    } else {
        Err(
            HallouminateError::Config(
                cat2("unsupported crossencoder model ", debug_quote(name).as_str()),
            ),
        )
    }
}

/// Every reranker is known under its own name.
pub proof fn rerankers_are_known_by_their_names(model: CrossencoderModel)
    ensures
        reranker_named(model.name()) == Some(model),
{
    reveal_strlit("jina-reranker-v1-turbo-en");
    reveal_strlit("jina-reranker-v2-base-multiligual");
    reveal_strlit("jina-reranker-v2-base-multilingual");
    reveal_strlit("bge-reranker-base");
    reveal_strlit("bge-reranker-v2-m3");
    assert("jina-reranker-v1-turbo-en"@[15] != "jina-reranker-v2-base-multiligual"@[15]);
    assert("bge-reranker-base"@[0] != "jina-reranker-v1-turbo-en"@[0]);
    assert("bge-reranker-v2-m3"@[0] != "jina-reranker-v1-turbo-en"@[0]);
    assert("bge-reranker-base"@.len() != "bge-reranker-v2-m3"@.len());
}

} // verus!
