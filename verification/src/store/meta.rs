//! The sidecar that ties a store to the embedding configuration that it was
//! built with.

use vstd::prelude::*;
use vstd::string::StringExecFns;

use crate::error::{is_config_error, HallouminateError, Outcome};
use crate::models::{
    canonical_model, canonical_model_is_stable, canonical_model_name, unsupported_model_message,
};
use crate::path::{parent, parent_of};
use crate::text::{cat2, cat3, debug_quote, debug_text, decimal, decimal_text, owned, same};

verus! {

/// The layout of the rows that this build reads and writes.
pub const SCHEMA_VERSION: u32 = 3;

/// The name of the sidecar inside the directory of the store.
pub const META_FILENAME: &'static str = "meta.toml";

/// The first line of the sidecar.
pub const META_HEADER: &'static str = "# auto-managed by hallouminate; do not edit\n";

/// The layout of the rows that this build reads and writes.
pub fn default_schema_version() -> (out: u32)
    ensures
        out == SCHEMA_VERSION,
{
    SCHEMA_VERSION
}

/// The layout of the rows that this build reads and writes, for those who
/// write a sidecar of their own.
pub fn default_schema_version_pub() -> (out: u32)
    ensures
        out == SCHEMA_VERSION,
{
    default_schema_version()
}

/// Whether a sidecar that does not say so means quantized embeddings.
pub fn default_quantized() -> (out: bool)
    ensures
        !out,
{
    false
}

/// Whether a sidecar that does not say so means that there are embeddings.
pub fn default_embeddings_enabled() -> (out: bool)
    ensures
        out,
{
    true
}

/// What the sidecar says.
#[derive(Debug, PartialEq, Eq)]
pub struct Meta {
    pub embedding_model_name: String,
    pub quantized: bool,
    pub embeddings_enabled: bool,
    pub schema_version: u32,
}

/// The model of a sidecar.
#[verifier::ext_equal]
pub struct MetaModel {
    pub model: Seq<char>,
    pub quantized: bool,
    pub enabled: bool,
    pub version: u32,
}

impl View for Meta {
    type V = MetaModel;

    open spec fn view(&self) -> MetaModel {
        MetaModel {
            model: self.embedding_model_name@,
            quantized: self.quantized,
            enabled: self.embeddings_enabled,
            version: self.schema_version,
        }
    }
}

/// The value, or the one that stands for its absence.
pub open spec fn or_default<T>(value: Option<T>, default: T) -> T {
    match value {
        Some(v) => v,
        None => default,
    }
}

impl Meta {
    /// What a sidecar says that may lack some of its fields: those that it
    /// lacks have the values of the time before they were written.
    pub fn from_fields(
        embedding_model_name: String,
        quantized: Option<bool>,
        embeddings_enabled: Option<bool>,
        schema_version: Option<u32>,
    ) -> (out: Meta)
        ensures
            out@ == (MetaModel {
                model: embedding_model_name@,
                quantized: or_default(quantized, false),
                enabled: or_default(embeddings_enabled, true),
                version: or_default(schema_version, SCHEMA_VERSION),
            }),
    {
        Meta {
            embedding_model_name,
            quantized: match quantized {
                Some(v) => v,
                None => default_quantized(),
            },
            embeddings_enabled: match embeddings_enabled {
                Some(v) => v,
                None => default_embeddings_enabled(),
            },
            schema_version: match schema_version {
                Some(v) => v,
                None => default_schema_version(),
            },
        }
    }
}

/// What reading the sidecar gave.
pub enum MetaFile {
    /// There is none.
    Absent,
    /// It cannot be read; the text says why.
    Unreadable(String),
    /// It was read, but is no sidecar; the text says why.
    Malformed(String),
    /// It says this.
    Read(Meta),
}

/// What has to be done about the sidecar before the store is opened.
#[derive(Debug, PartialEq, Eq)]
pub enum MetaAction {
    /// Nothing.
    Keep,
    /// It has to be written.
    Write(Meta),
}

/// The directory of the store whose sidecar is at `meta_path`.
pub open spec fn store_dir(meta_path: Seq<char>) -> Seq<char> {
    match parent(meta_path) {
        Some(dir) => dir,
        None => meta_path,
    }
}

/// How a message shows a truth value.
pub open spec fn bool_shown(b: bool) -> Seq<char> {
    if b {
        "true"@
    } else {
        "false"@
    }
}

/// The message for a store that a later build wrote.
pub open spec fn newer_message(found: u32, dir: Seq<char>) -> Seq<char> {
    "store schema version "@ + decimal(found as nat) + " is NEWER than this build expects ("@
        + decimal(SCHEMA_VERSION as nat)
        + "); this binary is older than the one that wrote "@ + dir
        + ". Upgrade hallouminate, or delete the store to rebuild."@
}

/// How a message shows an embedding configuration.
pub open spec fn embedding_shown(model: Seq<char>, quantized: bool, enabled: bool) -> Seq<char> {
    "(model "@ + debug_text(model) + ", quantized "@ + bool_shown(quantized)
        + ", embeddings_enabled "@ + bool_shown(enabled) + ")"@
}

/// The message for a store that was built with another embedding
/// configuration.
pub open spec fn mismatch_message(stored: MetaModel, wanted: MetaModel, dir: Seq<char>) -> Seq<
    char,
> {
    "embedding store mismatch: store has "@ + embedding_shown(
        stored.model,
        stored.quantized,
        stored.enabled,
    ) + ", requested "@ + embedding_shown(wanted.model, wanted.quantized, wanted.enabled)
        + "; delete "@ + dir + " and re-run `hallouminate index` to rebuild"@
}

/// What the sidecar of a store with the requested configuration says.
pub open spec fn wanted_meta(model: Seq<char>, quantized: bool, enabled: bool) -> MetaModel {
    MetaModel { model, quantized, enabled, version: SCHEMA_VERSION }
}

/// Whether opening the store ends as `out` says.  `model` is the canonical name
/// of the requested model.
pub open spec fn checked_meta(
    meta_path: Seq<char>,
    file: MetaFile,
    model: Seq<char>,
    quantized: bool,
    enabled: bool,
    out: Outcome<MetaAction>,
) -> bool {
    let wanted = wanted_meta(model, quantized, enabled);
    match file {
        MetaFile::Absent => out matches Ok(MetaAction::Write(meta)) && meta@ == wanted,
        MetaFile::Unreadable(detail) => out matches Err(HallouminateError::Io(m)) && m@ == detail@,
        MetaFile::Malformed(detail) => is_config_error(out, "parse meta.toml: "@ + detail@),
        MetaFile::Read(meta) => match canonical_model(meta@.model) {
            None => is_config_error(out, unsupported_model_message(meta@.model)),
            Some(known) => {
                let stored = MetaModel { model: known, ..meta@ };
                if stored.version < SCHEMA_VERSION {
                    out matches Err(
                        HallouminateError::StoreSchemaStale { found, expected, ground_dir },
                    ) && found == stored.version && expected == SCHEMA_VERSION && ground_dir@
                        == store_dir(meta_path)
                } else if stored.version > SCHEMA_VERSION {
                    is_config_error(out, newer_message(stored.version, store_dir(meta_path)))
                } else if stored != wanted {
                    out matches Err(HallouminateError::Embed(m)) && m@ == mismatch_message(
                        stored,
                        wanted,
                        store_dir(meta_path),
                    )
                } else if meta@ != stored {
                    out matches Ok(MetaAction::Write(next)) && next@ == stored
                } else {
                    out matches Ok(MetaAction::Keep)
                }
            },
        },
    }
}

fn show_bool(b: bool) -> (out: &'static str)
    ensures
        out@ == bool_shown(b),
{
    if b {
        "true"
    } else {
        "false"
    }
}

fn show_embedding(model: &str, quantized: bool, enabled: bool) -> (out: String)
    ensures
        out@ == embedding_shown(model@, quantized, enabled),
{
    let mut out = cat2("(model ", debug_quote(model).as_str());
    out.append(", quantized ");
    out.append(show_bool(quantized));
    out.append(", embeddings_enabled ");
    out.append(show_bool(enabled));
    out.append(")");
    out
}

/// Whether the store can be opened with the requested embedding configuration,
/// and what its sidecar needs first.  A missing sidecar is written; one that
/// an older build wrote is stale; one that a later build wrote, or that names
/// another configuration, is an error and nothing is touched.
pub fn meta_check_or_init(
    meta_path: &str,
    file: MetaFile,
    requested_model: &str,
    quantized: bool,
    enabled: bool,
) -> (out: Outcome<MetaAction>)
    ensures
        match canonical_model(requested_model@) {
            None => is_config_error(out, unsupported_model_message(requested_model@)),
            Some(model) => checked_meta(meta_path@, file, model, quantized, enabled, out),
        },
{
    let model = match canonical_model_name(requested_model) {
        Ok(model) => model,
        Err(e) => {
            return Err(e);
        },
    };
    let meta = match file {
        MetaFile::Absent => {
            return Ok(
                MetaAction::Write(
                    Meta {
                        embedding_model_name: model,
                        quantized,
                        embeddings_enabled: enabled,
                        schema_version: default_schema_version(),
                    },
                ),
            );
        },
        MetaFile::Unreadable(detail) => {
            return Err(HallouminateError::Io(detail));
        },
        MetaFile::Malformed(detail) => {
            return Err(HallouminateError::Config(cat2("parse meta.toml: ", detail.as_str())));
        },
        MetaFile::Read(meta) => meta,
    };
    let stored_model = match canonical_model_name(meta.embedding_model_name.as_str()) {
        Ok(stored_model) => stored_model,
        Err(e) => {
            return Err(e);
        },
    };
    let dir = match parent_of(meta_path) {
        Some(dir) => dir,
        None => owned(meta_path),
    };
    if meta.schema_version < default_schema_version() {
        return Err(
            HallouminateError::StoreSchemaStale {
                found: meta.schema_version,
                expected: default_schema_version(),
                ground_dir: dir,
            },
        );
    }
    if meta.schema_version > default_schema_version() {
        let mut message = cat3(
            "store schema version ",
            decimal_text(meta.schema_version as u64).as_str(),
            " is NEWER than this build expects (",
        );
        message.append(decimal_text(default_schema_version() as u64).as_str());
        message.append("); this binary is older than the one that wrote ");
        message.append(dir.as_str());
        message.append(". Upgrade hallouminate, or delete the store to rebuild.");
        return Err(HallouminateError::Config(message));
    }
    if !same(stored_model.as_str(), model.as_str()) || meta.quantized != quantized
        || meta.embeddings_enabled != enabled {
        let mut message = cat2(
            "embedding store mismatch: store has ",
            show_embedding(
                stored_model.as_str(),
                meta.quantized,
                meta.embeddings_enabled,
            ).as_str(),
        );
        message.append(", requested ");
        message.append(show_embedding(model.as_str(), quantized, enabled).as_str());
        message.append("; delete ");
        message.append(dir.as_str());
        message.append(" and re-run `hallouminate index` to rebuild");
        return Err(HallouminateError::Embed(message));
    }
    if !same(meta.embedding_model_name.as_str(), stored_model.as_str()) {
        return Ok(MetaAction::Write(Meta { embedding_model_name: stored_model, ..meta }));
    }
    Ok(MetaAction::Keep)
}

/// The text of the sidecar, from its fields as they are written.
pub fn meta_text(body: &str) -> (out: String)
    ensures
        out@ == META_HEADER@ + body@,
{
    cat2(META_HEADER, body)
}

/// A sidecar that was written for a request is kept by the next request like
/// it: opening a store twice is opening it once.
pub proof fn written_meta_is_kept(
    meta_path: Seq<char>,
    file: MetaFile,
    requested: Seq<char>,
    quantized: bool,
    enabled: bool,
    meta: Meta,
    next: Outcome<MetaAction>,
)
    requires
        canonical_model(requested) is Some,
        checked_meta(
            meta_path,
            file,
            canonical_model(requested)->0,
            quantized,
            enabled,
            Ok(MetaAction::Write(meta)),
        ),
        checked_meta(
            meta_path,
            MetaFile::Read(meta),
            canonical_model(requested)->0,
            quantized,
            enabled,
            next,
        ),
    ensures
        next == Ok::<MetaAction, HallouminateError>(MetaAction::Keep),
{
    canonical_model_is_stable(requested);
}

/// A store opens for one embedding configuration only: where it opens for two
/// requests, they ask for the same.
pub proof fn store_has_one_configuration(
    meta_path: Seq<char>,
    meta: Meta,
    model: Seq<char>,
    quantized: bool,
    enabled: bool,
    out: Outcome<MetaAction>,
    other_model: Seq<char>,
    other_quantized: bool,
    other_enabled: bool,
    other_out: Outcome<MetaAction>,
)
    requires
        checked_meta(meta_path, MetaFile::Read(meta), model, quantized, enabled, out),
        checked_meta(
            meta_path,
            MetaFile::Read(meta),
            other_model,
            other_quantized,
            other_enabled,
            other_out,
        ),
        out is Ok,
        other_out is Ok,
    ensures
        model == other_model,
        quantized == other_quantized,
        enabled == other_enabled,
{
}

/// A store opens where it has no sidecar yet, and where its sidecar is of this
/// layout and names the model, the size and the use of embeddings that are asked
/// for; it opens for no other.
pub proof fn stores_open_for_what_they_were_built_with(
    meta_path: Seq<char>,
    file: MetaFile,
    model: Seq<char>,
    quantized: bool,
    enabled: bool,
    out: Outcome<MetaAction>,
)
    requires
        checked_meta(meta_path, file, model, quantized, enabled, out),
    ensures
        file is Absent ==> (out matches Ok(MetaAction::Write(meta))
            && meta.embedding_model_name@ == model && meta.quantized == quantized
            && meta.embeddings_enabled == enabled && meta.schema_version == 3),
        file is Unreadable || file is Malformed ==> out is Err,
        file matches MetaFile::Read(meta) ==> {
            &&& out is Ok <==> canonical_model(meta.embedding_model_name@) == Some(model)
                && meta.quantized == quantized && meta.embeddings_enabled == enabled
                && meta.schema_version == 3
            &&& canonical_model(meta.embedding_model_name@) is Some && meta.schema_version < 3 ==> (
            out matches Err(HallouminateError::StoreSchemaStale { found, expected, ground_dir })
                && found == meta.schema_version && expected == 3)
            &&& canonical_model(meta.embedding_model_name@) is Some && meta.schema_version > 3 ==> (
            out matches Err(HallouminateError::Config(_)))
            &&& out matches Ok(MetaAction::Write(next)) ==> next.embedding_model_name@ == model
            &&& out is Ok && meta.embedding_model_name@ == model ==> out matches Ok(
                MetaAction::Keep,
            )
        },
{
}

/// A store that was built with another configuration is refused with both
/// configurations and the place of the store.
pub proof fn refusals_name_both_configurations(
    stored: MetaModel,
    wanted: MetaModel,
    dir: Seq<char>,
)
    ensures
        ({
            let truth = |b: bool|
                if b {
                    "true"@
                } else {
                    "false"@
                };
            mismatch_message(stored, wanted, dir) == "embedding store mismatch: store has "@ + (
            "(model "@ + debug_text(stored.model) + ", quantized "@ + truth(stored.quantized)
                + ", embeddings_enabled "@ + truth(stored.enabled) + ")"@) + ", requested "@ + (
            "(model "@ + debug_text(wanted.model) + ", quantized "@ + truth(wanted.quantized)
                + ", embeddings_enabled "@ + truth(wanted.enabled) + ")"@) + "; delete "@ + dir
                + " and re-run `hallouminate index` to rebuild"@
        }),
{
}

/// A store that a later build wrote is refused with both layouts and its place,
/// and a sidecar that cannot be understood with what is wrong with it.
pub proof fn refusals_say_what_is_wrong(
    meta_path: Seq<char>,
    file: MetaFile,
    model: Seq<char>,
    quantized: bool,
    enabled: bool,
    out: Outcome<MetaAction>,
)
    requires
        checked_meta(meta_path, file, model, quantized, enabled, out),
    ensures
        file matches MetaFile::Malformed(detail) ==> is_config_error(
            out,
            "parse meta.toml: "@ + detail@,
        ),
        file matches MetaFile::Unreadable(detail) ==> (out matches Err(HallouminateError::Io(m))
            && m@ == detail@),
        file matches MetaFile::Read(meta) ==> (canonical_model(meta.embedding_model_name@) is Some
            && meta.schema_version > 3 ==> is_config_error(
            out,
            "store schema version "@ + decimal(meta.schema_version as nat)
                + " is NEWER than this build expects ("@ + decimal(3)
                + "); this binary is older than the one that wrote "@ + store_dir(meta_path)
                + ". Upgrade hallouminate, or delete the store to rebuild."@,
        )),
{
}

} // verus!
