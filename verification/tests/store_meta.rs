use hallouminate::error::HallouminateError;
use hallouminate::store::meta::{
    default_embeddings_enabled, default_quantized, default_schema_version,
    default_schema_version_pub, meta_check_or_init, meta_text, Meta, MetaAction, MetaFile,
};

const META_PATH: &str = "/data/ground/meta.toml";
const BGE: &str = "BAAI/bge-small-en-v1.5";

fn written(action: MetaAction) -> Meta {
    match action {
        MetaAction::Write(meta) => meta,
        MetaAction::Keep => panic!("expected the sidecar to be written"),
    }
}

/// Reads a sidecar as it stands in a file, with the defaults for what it lacks.
fn sidecar(text: &str) -> MetaFile {
    let table: toml::Table = toml::from_str(text).expect("sidecar is TOML");
    MetaFile::Read(Meta::from_fields(
        table["embedding_model_name"].as_str().expect("model").to_string(),
        table.get("quantized").and_then(|v| v.as_bool()),
        table.get("embeddings_enabled").and_then(|v| v.as_bool()),
        table.get("schema_version").and_then(|v| v.as_integer()).map(|n| n as u32),
    ))
}

fn fresh() -> Meta {
    written(meta_check_or_init(META_PATH, MetaFile::Absent, BGE, false, true).unwrap())
}

#[test]
fn meta_check_or_init_writes_meta_when_absent() {
    let meta = fresh();
    assert_eq!(meta.embedding_model_name, BGE);
    assert!(!meta.quantized);
    assert!(meta.embeddings_enabled);
    assert_eq!(meta.schema_version, 3);
    assert!(meta_text("body = 1\n").starts_with("# auto-managed by hallouminate; do not edit\n"));
    assert!(meta_text("body = 1\n").ends_with("body = 1\n"));
}

#[test]
fn meta_check_or_init_passes_when_existing_matches() {
    let again = meta_check_or_init(META_PATH, MetaFile::Read(fresh()), BGE, false, true)
        .expect("second call must succeed");
    assert_eq!(again, MetaAction::Keep);
}

#[test]
fn meta_check_or_init_errors_on_model_mismatch() {
    let err = meta_check_or_init(
        META_PATH,
        MetaFile::Read(fresh()),
        "intfloat/multilingual-e5-small",
        false,
        true,
    )
    .unwrap_err();
    let msg = err.message();
    assert!(msg.contains("BAAI/bge-small-en-v1.5"), "{msg}");
    assert!(msg.contains("intfloat/multilingual-e5-small"), "{msg}");
    assert!(msg.contains("delete"), "{msg}");
    assert!(msg.contains("hallouminate index"), "{msg}");
    assert_eq!(
        msg,
        "embedding store mismatch: store has (model \"BAAI/bge-small-en-v1.5\", quantized false, \
         embeddings_enabled true), requested (model \"intfloat/multilingual-e5-small\", quantized \
         false, embeddings_enabled true); delete /data/ground and re-run `hallouminate index` to \
         rebuild"
    );
}

#[test]
fn meta_check_or_init_errors_on_quantized_mismatch() {
    let err = meta_check_or_init(META_PATH, MetaFile::Read(fresh()), BGE, true, true)
        .expect_err("flipping quantized must invalidate the store");
    let msg = err.message();
    assert!(msg.contains("quantized"), "{msg}");
    assert!(msg.contains("delete"), "{msg}");
}

#[test]
fn meta_check_or_init_errors_on_enabled_mismatch() {
    let err = meta_check_or_init(META_PATH, MetaFile::Read(fresh()), BGE, false, false)
        .expect_err("flipping embeddings_enabled must invalidate the store");
    let msg = err.message();
    assert!(msg.contains("embeddings_enabled"), "{msg}");
    assert!(msg.contains("delete"), "{msg}");
}

#[test]
fn meta_check_or_init_reads_pre_feature_sidecar_as_enabled_full_precision() {
    let file = sidecar(
        "# auto-managed by hallouminate; do not edit\n\
         embedding_model_name = \"BAAI/bge-small-en-v1.5\"\n\
         schema_version = 3\n",
    );
    assert_eq!(
        meta_check_or_init(META_PATH, file, BGE, false, true)
            .expect("pre-feature sidecar must match ON + full-precision config"),
        MetaAction::Keep
    );
    assert!(!default_quantized());
    assert!(default_embeddings_enabled());
}

fn versioned(version: u32) -> MetaFile {
    sidecar(&format!(
        "embedding_model_name = \"BAAI/bge-small-en-v1.5\"\nquantized = false\n\
         embeddings_enabled = true\nschema_version = {version}\n"
    ))
}

#[test]
fn meta_check_or_init_stale_on_schema_version_below_expected() {
    let err = meta_check_or_init(META_PATH, versioned(1), BGE, false, true)
        .expect_err("a v1 store must be rejected by the v3 binary");
    let msg = err.message();
    assert!(
        matches!(err, HallouminateError::StoreSchemaStale { found: 1, expected: 3, .. }),
        "expected StoreSchemaStale, got: {msg}"
    );
    assert!(msg.contains("stale"), "{msg}");
    assert!(msg.contains('1'), "must name found version: {msg}");
    assert!(msg.contains('3'), "must name expected version: {msg}");
}

#[test]
fn meta_check_or_init_stale_on_v2_store() {
    let err = meta_check_or_init(META_PATH, versioned(2), BGE, false, true)
        .expect_err("a v2 store must be rejected by the v3 binary");
    let msg = err.message();
    assert!(
        matches!(err, HallouminateError::StoreSchemaStale { found: 2, expected: 3, .. }),
        "expected StoreSchemaStale, got: {msg}"
    );
    assert!(msg.contains('2'), "must name the stored version: {msg}");
    assert!(msg.contains('3'), "must name the expected version: {msg}");
}

#[test]
fn guard_fatal_config_when_stored_version_above_expected() {
    let err = meta_check_or_init(META_PATH, versioned(4), BGE, false, true)
        .expect_err("a newer store must not be touched");
    assert!(matches!(err, HallouminateError::Config(_)));
    let msg = err.message();
    assert!(msg.contains("NEWER"), "must say NEWER: {msg}");
    assert!(msg.to_lowercase().contains("upgrade"), "must advise upgrade: {msg}");
    assert!(msg.contains("/data/ground"), "{msg}");
}

#[test]
fn meta_check_or_init_roundtrips_current_schema_version() {
    let meta = fresh();
    assert_eq!(meta.schema_version, default_schema_version());
    assert_eq!(default_schema_version_pub(), 3);
    assert_eq!(
        meta_check_or_init(META_PATH, MetaFile::Read(meta), BGE, false, true)
            .expect("current-version store must re-open"),
        MetaAction::Keep
    );
}

#[test]
fn meta_check_or_init_rejects_unsupported_requested_model() {
    let err = meta_check_or_init(META_PATH, MetaFile::Absent, "clip-vit-b32", false, true)
        .expect_err("unsupported request must error before any write");
    assert!(
        err.message().contains("unsupported embedding model"),
        "{}",
        err.message()
    );
}

#[test]
fn meta_check_or_init_rejects_corrupt_stored_model() {
    let file = sidecar("embedding_model_name = \"hand-edited-garbage\"\nschema_version = 1\n");
    let err = meta_check_or_init(META_PATH, file, BGE, false, true)
        .expect_err("corrupt sidecar must error");
    assert!(
        err.message().contains("unsupported embedding model"),
        "{}",
        err.message()
    );
}

#[test]
fn sidecar_with_an_old_model_name_is_rewritten() {
    let file = sidecar("embedding_model_name = \"bge-small-en-v1.5\"\nschema_version = 3\n");
    let meta = written(meta_check_or_init(META_PATH, file, BGE, false, true).expect("opens"));
    assert_eq!(meta.embedding_model_name, BGE);
}

#[test]
fn sidecar_that_cannot_be_read_is_an_error() {
    let err = meta_check_or_init(
        META_PATH,
        MetaFile::Unreadable("denied".to_string()),
        BGE,
        false,
        true,
    )
    .unwrap_err();
    assert_eq!(err, HallouminateError::Io("denied".to_string()));
    let err = meta_check_or_init(
        META_PATH,
        MetaFile::Malformed("expected a key".to_string()),
        BGE,
        false,
        true,
    )
    .unwrap_err();
    assert_eq!(
        err,
        HallouminateError::Config("parse meta.toml: expected a key".to_string())
    );
}

fn lexical(version: u32) -> MetaFile {
    sidecar(&format!(
        "embedding_model_name = \"BAAI/bge-small-en-v1.5\"\nquantized = false\n\
         embeddings_enabled = false\nschema_version = {version}\n"
    ))
}

#[test]
fn guard_stale_when_stored_version_below_expected() {
    let stale_version = default_schema_version() - 1;
    let err = meta_check_or_init(META_PATH, lexical(stale_version), BGE, false, false)
        .expect_err("stale store must be rejected");
    assert!(
        matches!(
            err,
            HallouminateError::StoreSchemaStale { found, expected, .. }
                if found == stale_version && expected == default_schema_version()
        ),
        "expected StoreSchemaStale, got: {}",
        err.message()
    );
}

#[test]
fn guard_ok_when_stored_version_equals_expected() {
    meta_check_or_init(META_PATH, lexical(default_schema_version()), BGE, false, false)
        .expect("matching version must succeed");
}
