use hallouminate::cli::config::{
    baseline_source_path, collect_warnings, download_summary, effective_summary,
    format_no_repo_error, layered_header, plan_config_init, validate_verdict, BaselineOrigin,
    BaselineSource,
};
use hallouminate::cli::init_repo::{
    plan_init_repo, InitPlan, INDEX_END_MARKER, INDEX_START_MARKER,
};
use hallouminate::config::{
    load, load_xdg, parse, Config, ConfigFile, EmbeddingsConfig, LoggingConfig, SearchConfig,
    StorageConfig, WatchConfig, DEFAULT_CHUNKS_PER_FILE,
};
use hallouminate::corpus::{CorpusConfig, RepositoryConfig};
use hallouminate::daemon::dispatch::{config_refusal, handle_list_corpora};
use hallouminate::daemon::ipc::{DaemonResponse, ErrorKind};
use hallouminate::error::HallouminateError;
use hallouminate::layers::{
    absolute_cwd, discover, discover_repo_config, load_repo_layer, merge_crossencoder, merge_layers,
    merge_layers_with_sources, resolve_for_cwd, Below, Discovery, Level, ResolvedLayers,
};
use hallouminate::path::{ancestors_of, join};
use hallouminate::union::{walk_enters, Rooted, WALK_DEPTH};
use hallouminate::xdg::{
    daemon_socket_path_from, state_dir_from, xdg_config_path_from, xdg_path_from,
};

fn texts(value: Option<&toml::Value>) -> Vec<String> {
    match value.and_then(|v| v.as_array()) {
        Some(list) => list.iter().map(|v| v.as_str().expect("text").to_string()).collect(),
        None => Vec::new(),
    }
}

fn text_or(table: Option<&toml::Table>, key: &str, default: String) -> String {
    table
        .and_then(|t| t.get(key))
        .map(|v| v.as_str().expect("text").to_string())
        .unwrap_or(default)
}

fn flag_or(table: Option<&toml::Table>, key: &str, default: bool) -> bool {
    table
        .and_then(|t| t.get(key))
        .map(|v| v.as_bool().expect("flag"))
        .unwrap_or(default)
}

fn number_or(table: Option<&toml::Table>, key: &str, default: u64) -> u64 {
    table
        .and_then(|t| t.get(key))
        .map(|v| v.as_integer().expect("number") as u64)
        .unwrap_or(default)
}

/// Reads a configuration from its text, as the file decoder does.
fn decode(text: &str) -> Result<Config, String> {
    let root: toml::Table = toml::from_str(text).map_err(|e| e.to_string())?;
    let mut cfg = Config::default();
    if let Some(list) = root.get("corpus").and_then(|v| v.as_array()) {
        for entry in list {
            cfg.corpora.push(CorpusConfig {
                name: text_or(entry.as_table(), "name", String::new()),
                paths: texts(entry.get("paths")),
                globs: texts(entry.get("globs")),
                exclude: texts(entry.get("exclude")),
                global: false,
            });
        }
    }
    if let Some(list) = root.get("repository").and_then(|v| v.as_array()) {
        for entry in list {
            cfg.repositories.push(RepositoryConfig {
                name: text_or(entry.as_table(), "name", String::new()),
                path: text_or(entry.as_table(), "path", String::new()),
                corpus_paths: texts(entry.get("corpus_paths")),
            });
        }
    }
    let section = |name: &str| root.get(name).and_then(|v| v.as_table());
    let d = Config::default();
    cfg.search = SearchConfig {
        top_files_default: number_or(
            section("search"),
            "top_files_default",
            d.search.top_files_default as u64,
        ) as usize,
        chunks_per_file_default: number_or(
            section("search"),
            "chunks_per_file_default",
            d.search.chunks_per_file_default as u64,
        ) as usize,
    };
    cfg.embeddings = EmbeddingsConfig {
        enabled: flag_or(section("embeddings"), "enabled", d.embeddings.enabled),
        model: text_or(section("embeddings"), "model", d.embeddings.model),
        quantized: flag_or(section("embeddings"), "quantized", d.embeddings.quantized),
        cache_dir: text_or(section("embeddings"), "cache_dir", d.embeddings.cache_dir),
    };
    cfg.watch = WatchConfig {
        debounce_ms: number_or(section("watch"), "debounce_ms", d.watch.debounce_ms),
        failure_reminder_secs: number_or(
            section("watch"),
            "failure_reminder_secs",
            d.watch.failure_reminder_secs,
        ),
    };
    cfg.logging = LoggingConfig {
        max_file_bytes: number_or(
            section("logging"),
            "max_file_bytes",
            d.logging.max_file_bytes,
        ),
        max_total_bytes: number_or(
            section("logging"),
            "max_total_bytes",
            d.logging.max_total_bytes,
        ),
    };
    cfg.storage = StorageConfig {
        ground_dir: text_or(section("storage"), "ground_dir", d.storage.ground_dir),
    };
    Ok(cfg)
}

fn parsed(text: &str) -> Result<Config, HallouminateError> {
    parse(decode(text), None)
}

fn config_message(err: HallouminateError) -> String {
    match err {
        HallouminateError::Config(msg) => msg,
        other => panic!("unexpected error: {other:?}"),
    }
}

const SPEC_EXAMPLE: &str = r#"
[[corpus]]
name = "agent-config"
paths = ["~/.agent/skills", "~/.agent/agents", "~/.agent/AGENT.md"]
globs = ["**/*.md"]
exclude = ["**/.git/**", "**/node_modules/**"]

[[repository]]
name = "tern"
path = "~/Dev/tern"

[search]
top_files_default       = 10
chunks_per_file_default = 3

[embeddings]
model     = "BAAI/bge-small-en-v1.5"
cache_dir = "~/.cache/hallouminate/fastembed"

[watch]
debounce_ms = 500

[storage]
ground_dir = "~/.local/share/hallouminate/ground"
"#;

#[test]
fn parse_spec_example_decodes_every_field() {
    let cfg = parsed(SPEC_EXAMPLE).expect("spec example parses");

    assert_eq!(cfg.corpora.len(), 1);
    let corpus = &cfg.corpora[0];
    assert_eq!(corpus.name, "agent-config");
    assert_eq!(
        corpus.paths,
        vec![
            "~/.agent/skills".to_string(),
            "~/.agent/agents".into(),
            "~/.agent/AGENT.md".into(),
        ]
    );
    assert_eq!(corpus.globs, vec!["**/*.md".to_string()]);
    assert_eq!(
        corpus.exclude,
        vec!["**/.git/**".to_string(), "**/node_modules/**".into()]
    );

    assert_eq!(cfg.repositories.len(), 1);
    assert_eq!(cfg.repositories[0].name, "tern");
    assert_eq!(cfg.repositories[0].path, "~/Dev/tern");

    assert_eq!(cfg.search.top_files_default, 10);
    assert_eq!(cfg.search.chunks_per_file_default, 3);

    assert_eq!(cfg.embeddings.model, "BAAI/bge-small-en-v1.5");
    assert_eq!(cfg.embeddings.cache_dir, "~/.cache/hallouminate/fastembed");

    assert_eq!(cfg.watch.debounce_ms, 500);
    assert_eq!(cfg.storage.ground_dir, "~/.local/share/hallouminate/ground");
}

#[test]
fn parse_empty_string_yields_full_defaults() {
    let cfg = parsed("").expect("empty toml parses");
    assert!(cfg.corpora.is_empty());
    assert!(cfg.repositories.is_empty());
    assert_eq!(cfg.search, SearchConfig::default());
    assert_eq!(cfg.embeddings, EmbeddingsConfig::default());
    assert_eq!(cfg.watch, WatchConfig::default());
    assert_eq!(cfg.storage, StorageConfig::default());
}

#[test]
fn defaults_are_the_documented_ones() {
    let cfg = Config::default();
    assert_eq!(cfg.search.top_files_default, 10);
    assert_eq!(cfg.search.chunks_per_file_default, 3);
    assert_eq!(cfg.embeddings.model, "snowflake/snowflake-arctic-embed-s");
    assert_eq!(cfg.embeddings.cache_dir, "~/.cache/hallouminate/fastembed");
    assert_eq!(cfg.watch.debounce_ms, 500);
    assert_eq!(cfg.storage.ground_dir, "~/.local/share/hallouminate/ground");
}

#[test]
fn parse_legacy_embedding_alias_normalizes_to_canonical_model() {
    let cfg = parsed("[embeddings]\nmodel = \"bge-small-en-v1.5\"\n").expect("legacy alias");
    assert_eq!(cfg.embeddings.model, "BAAI/bge-small-en-v1.5");
}

#[test]
fn parse_rejects_unknown_embedding_model_before_runtime_downloads() {
    let err = parsed("[embeddings]\nmodel = \"clip-vit-b32\"\n")
        .expect_err("unsupported model must fail during config parse");
    let msg = config_message(err);
    assert!(msg.contains("unsupported embedding model"), "got: {msg}");
    assert!(msg.contains("BAAI/bge-small-en-v1.5"), "got: {msg}");
}

#[test]
fn parse_partial_search_section_uses_defaults_for_missing_fields() {
    let cfg = parsed("[search]\ntop_files_default = 5\n").expect("partial search parses");
    assert_eq!(cfg.search.top_files_default, 5);
    assert_eq!(cfg.search.chunks_per_file_default, DEFAULT_CHUNKS_PER_FILE);
}

#[test]
fn parse_rejects_corpus_with_empty_name() {
    let msg = config_message(
        parsed("[[corpus]]\nname = \"\"\npaths = [\"/x\"]\n").expect_err("empty corpus name"),
    );
    assert!(msg.contains("empty name"), "got: {msg}");
    assert_eq!(msg, "corpus #0 has empty name");
}

#[test]
fn parse_rejects_corpus_with_no_paths() {
    let msg = config_message(parsed("[[corpus]]\nname = \"docs\"\n").expect_err("no paths"));
    assert!(msg.contains("no paths"), "got: {msg}");
}

#[test]
fn parse_rejects_repository_with_empty_name() {
    let msg = config_message(
        parsed("[[repository]]\nname = \"\"\npath = \"/r\"\n").expect_err("empty repository name"),
    );
    assert!(msg.contains("empty name"), "got: {msg}");
}

#[test]
fn parse_rejects_repository_with_empty_path() {
    let msg = config_message(
        parsed("[[repository]]\nname = \"tern\"\npath = \"\"\n")
            .expect_err("empty repository path"),
    );
    assert!(msg.contains("empty path"), "got: {msg}");
}

#[test]
fn parse_rejects_repository_name_containing_colon() {
    let msg = config_message(
        parsed("[[repository]]\nname = \"bad:name\"\npath = \"/r\"\n")
            .expect_err("colon in repo name must surface during validate"),
    );
    assert!(msg.contains("bad:name"), "got: {msg}");
}

#[test]
fn parse_names_the_file_that_is_no_configuration() {
    let msg = config_message(
        parse(Err("expected a key".to_string()), Some("/etc/h.toml")).expect_err("no TOML"),
    );
    assert_eq!(msg, "parsing config at /etc/h.toml: expected a key");
    let msg = config_message(parse(decode("= ="), None).expect_err("no TOML"));
    assert!(msg.starts_with("parsing config: "), "got: {msg}");
}

fn names(list: &[CorpusConfig]) -> Vec<&str> {
    list.iter().map(|c| c.name.as_str()).collect()
}

#[test]
fn effective_corpora_includes_repository_wiki_after_user_corpora() {
    let cfg = parsed(
        r#"
[[corpus]]
name = "docs"
paths = ["/docs"]

[[repository]]
name = "tern"
path = "/repos/tern"
"#,
    )
    .expect("parses");
    let all = cfg.effective_corpora().expect("derive");
    assert_eq!(names(&all), vec!["docs", "repo:tern:wiki"]);
}

#[test]
fn effective_corpora_includes_repository_source_corpus_when_paths_set() {
    let cfg = parsed(
        r#"
[[repository]]
name = "tern"
path = "/repos/tern"
corpus_paths = ["docs"]
"#,
    )
    .expect("parses");
    let all = cfg.effective_corpora().expect("derive");
    assert_eq!(names(&all), vec!["repo:tern:wiki", "repo:tern:corpus"]);
    assert_eq!(all[1].paths, vec!["/repos/tern/docs".to_string()]);
}

#[test]
fn parse_rejects_duplicate_user_corpus_shadowing_repository_wiki() {
    let msg = config_message(
        parsed(
            r#"
[[corpus]]
name = "repo:tern:wiki"
paths = ["/x"]

[[repository]]
name = "tern"
path = "/r"
"#,
        )
        .expect_err("duplicate must fail"),
    );
    assert!(msg.contains("duplicate"), "got: {msg}");
    assert!(msg.contains("repo:tern:wiki"), "got: {msg}");
}

#[test]
fn parse_rejects_two_repositories_with_same_name_via_derived_corpus_collision() {
    let msg = config_message(
        parsed(
            r#"
[[repository]]
name = "tern"
path = "/r1"

[[repository]]
name = "tern"
path = "/r2"
"#,
        )
        .expect_err("two repos with the same name must fail"),
    );
    assert!(msg.contains("duplicate"), "got: {msg}");
    assert!(msg.contains("repo:tern:wiki"), "got: {msg}");
}

#[test]
fn load_xdg_with_explicit_missing_path_returns_defaults() {
    let cfg = load_xdg("/does-not-exist.toml", ConfigFile::NotFound).expect("missing file");
    assert_eq!(cfg, Config::default());
}

#[test]
fn load_xdg_missing_path_returns_defaults_without_error() {
    let cfg = load_xdg("/nowhere/config.toml", ConfigFile::NotFound).expect("missing file");
    assert_eq!(cfg, Config::default());
}

#[test]
fn load_xdg_reads_file_from_explicit_path() {
    let cfg = load_xdg("/c.toml", ConfigFile::Read(decode(SPEC_EXAMPLE))).expect("load");
    assert_eq!(cfg.corpora[0].name, "agent-config");
}

#[test]
fn load_is_alias_for_load_xdg() {
    assert_eq!(
        load("/c.toml", ConfigFile::Read(decode(SPEC_EXAMPLE))).expect("load"),
        load_xdg("/c.toml", ConfigFile::Read(decode(SPEC_EXAMPLE))).expect("load_xdg"),
    );
}

#[test]
fn load_xdg_propagates_non_notfound_io_error() {
    let err = load_xdg("/c.toml", ConfigFile::Unreadable("denied".to_string())).unwrap_err();
    assert_eq!(err, HallouminateError::Io("denied".to_string()));
}

#[test]
fn parse_silently_ignores_legacy_fusion_fields() {
    let legacy = r#"
[search]
top_files_default       = 7
chunks_per_file_default = 2
fusion                  = "convex"
convex_alpha            = 0.65
rrf_k                   = 60
"#;
    let cfg = parsed(legacy).expect("legacy config must still parse");
    assert_eq!(cfg.search.top_files_default, 7);
    assert_eq!(cfg.search.chunks_per_file_default, 2);
    assert_eq!(
        cfg.search,
        SearchConfig {
            top_files_default: 7,
            chunks_per_file_default: 2,
        },
        "SearchConfig must hold only the two surviving fields"
    );
}

#[test]
fn xdg_config_path_falls_back_to_dot_config_when_xdg_env_absent() {
    let path = xdg_config_path_from(None);
    assert!(path.ends_with(".config/hallouminate/config.toml"), "got {path}");
    assert!(path.starts_with('/'), "tilde must expand: {path}");
}

#[test]
fn xdg_config_path_falls_back_when_xdg_env_is_empty_string() {
    let path = xdg_config_path_from(Some(""));
    assert!(
        path.ends_with(".config/hallouminate/config.toml"),
        "empty XDG_CONFIG_HOME must fall back; got {path}"
    );
}

#[test]
fn xdg_config_path_honors_custom_xdg_config_home() {
    let path = xdg_config_path_from(Some("/var/tmp/custom-xdg"));
    assert_eq!(path, "/var/tmp/custom-xdg/hallouminate/config.toml");
}

#[test]
fn honors_env_var_when_set() {
    let p = xdg_path_from(Some("/var/xdg"), "~/.local/state", &["hallouminate", "x.log"]);
    assert_eq!(p, "/var/xdg/hallouminate/x.log");
}

#[test]
fn empty_env_var_treated_as_unset() {
    let p = xdg_path_from(Some(""), "~/.local/state", &["hallouminate"]);
    assert!(p.ends_with(".local/state/hallouminate"), "unexpected fallback: {p:?}");
    assert!(p.starts_with('/'), "tilde must expand: {p:?}");
}

#[test]
fn unset_env_var_falls_back_to_tilde_expanded_base() {
    let p = xdg_path_from(None, "~/.config", &["hallouminate", "config.toml"]);
    assert!(
        p.ends_with(".config/hallouminate/config.toml"),
        "unexpected fallback: {p:?}"
    );
    assert!(p.starts_with('/'), "tilde must expand: {p:?}");
}

#[test]
fn empty_subpath_returns_base() {
    let p = xdg_path_from(Some("/x"), "~/.local/state", &[]);
    assert_eq!(p, "/x");
}

#[test]
fn state_dir_honors_xdg_state_home_when_set() {
    assert_eq!(state_dir_from(Some("/var/state")), "/var/state/hallouminate");
}

#[test]
fn state_dir_treats_empty_xdg_state_home_as_unset() {
    let dir = state_dir_from(Some(""));
    assert!(dir.ends_with(".local/state/hallouminate"), "unexpected fallback: {dir:?}");
}

#[test]
fn state_dir_falls_back_to_local_state_under_home() {
    let dir = state_dir_from(None);
    assert!(dir.ends_with(".local/state/hallouminate"), "unexpected fallback: {dir:?}");
}

#[test]
fn socket_resolution_follows_the_documented_order() {
    assert_eq!(daemon_socket_path_from(Some("/tmp/t.sock"), Some("/run/u")), "/tmp/t.sock");
    assert_eq!(
        daemon_socket_path_from(None, Some("/run/u")),
        "/run/u/hallouminate/daemon.sock"
    );
    assert!(daemon_socket_path_from(Some(""), None).ends_with("/.cache/hallouminate/daemon.sock"));
}

/// The directories above `cwd`, with what each of them holds.
fn levels(cwd: &str, configs: &[&str], gits: &[&str]) -> Vec<Level> {
    ancestors_of(cwd)
        .into_iter()
        .map(|dir| Level {
            has_config: configs.contains(&dir.as_str()),
            has_git: gits.contains(&dir.as_str()),
            dir,
        })
        .collect()
}

#[test]
fn discover_repo_config_finds_at_cwd_itself() {
    let found = discover_repo_config("/w/r", &levels("/w/r", &["/w/r"], &[])).expect("found");
    assert_eq!(found, "/w/r/.hallouminate/config.toml");
}

#[test]
fn discover_repo_config_finds_at_ancestor() {
    let found = discover_repo_config("/w/r/a/b/c", &levels("/w/r/a/b/c", &["/w/r"], &[]))
        .expect("walked up to ancestor");
    assert_eq!(found, "/w/r/.hallouminate/config.toml");
}

#[test]
fn discover_repo_config_stops_at_git_directory() {
    let msg = config_message(
        discover_repo_config("/w/r/src", &levels("/w/r/src", &["/w"], &["/w/r"]))
            .expect_err("stop at repo root"),
    );
    assert!(msg.contains("stopped at repo root"), "got: {msg}");
    assert!(msg.contains("/w/r/src"), "got: {msg}");
    assert_eq!(
        msg,
        "no .hallouminate/config.toml found walking up from /w/r/src (stopped at repo root /w/r)"
    );
}

#[test]
fn discover_repo_config_relative_cwd_resolves_against_current_dir() {
    let rel = "nonexistent-relative-input-zzz";
    let here = "/here/now";
    let abs = join(here, rel);
    let message = |cwd: &str, gits: &[&str]| {
        let start = absolute_cwd(cwd, here);
        assert_eq!(start, abs);
        config_message(
            discover_repo_config(cwd, &levels(&start, &[], gits)).expect_err("input must error"),
        )
    };
    let tail =
        |m: &str| m.rfind('(').map(|i| m[i..].to_string()).unwrap_or_else(|| m.to_string());
    for gits in [&[] as &[&str], &["/here"]] {
        let rel_msg = message(rel, gits);
        let abs_msg = message(&abs, gits);
        assert_eq!(
            tail(&rel_msg),
            tail(&abs_msg),
            "relative and absolute cwd must reach the same walk endpoint;\n  rel: {rel_msg}\n  \
             abs: {abs_msg}",
        );
        assert!(rel_msg.contains(&format!("walking up from {rel} (")), "got: {rel_msg}");
        assert!(abs_msg.contains(&format!("walking up from {abs} (")), "got: {abs_msg}");
    }
    assert_eq!(tail(&message(rel, &["/here"])), "(stopped at repo root /here)");
}

#[test]
fn discover_repo_config_errors_walking_past_no_git_no_config() {
    let msg = config_message(
        discover_repo_config("/w/r", &levels("/w/r", &[], &[])).expect_err("nothing on the way up"),
    );
    assert!(
        msg.contains("filesystem root") || msg.contains("stopped at repo root"),
        "got: {msg}"
    );
}

#[test]
fn a_config_beside_a_git_entry_wins() {
    assert_eq!(
        discover("/w/r", &levels("/w/r", &["/w/r"], &["/w/r"])),
        Discovery::Found("/w/r/.hallouminate/config.toml".to_string())
    );
}

#[test]
fn load_repo_layer_resolves_relative_paths_against_repo_root() {
    let cfg = r#"
[[corpus]]
name = "docs"
paths = ["docs", "specs/cur"]

[[repository]]
name = "self"
path = "."
corpus_paths = ["sub/docs"]

[storage]
ground_dir = "var/ground"

[embeddings]
cache_dir = "var/fastembed"
"#;
    let parsed =
        load_repo_layer("/w/r/.hallouminate/config.toml", decode(cfg)).expect("load_repo_layer");
    assert_eq!(
        parsed.corpora[0].paths,
        vec!["/w/r/docs".to_string(), "/w/r/specs/cur".to_string()]
    );
    assert_eq!(parsed.repositories[0].path, "/w/r/.");
    assert_eq!(parsed.repositories[0].corpus_paths, vec!["/w/r/sub/docs".to_string()]);
    assert_eq!(parsed.storage.ground_dir, "/w/r/var/ground");
    assert_eq!(parsed.embeddings.cache_dir, "/w/r/var/fastembed");
}

#[test]
fn load_repo_layer_preserves_absolute_paths_untouched() {
    let cfg = r#"
[[corpus]]
name = "abs"
paths = ["/abs/docs"]

[[repository]]
name = "absrepo"
path = "/abs/repo"
corpus_paths = ["/abs/repo/docs"]

[storage]
ground_dir = "/abs/ground"

[embeddings]
cache_dir = "/abs/cache"
"#;
    let parsed =
        load_repo_layer("/w/r/.hallouminate/config.toml", decode(cfg)).expect("load_repo_layer");
    assert_eq!(parsed.corpora[0].paths, vec!["/abs/docs".to_string()]);
    assert_eq!(parsed.repositories[0].path, "/abs/repo");
    assert_eq!(parsed.repositories[0].corpus_paths, vec!["/abs/repo/docs".to_string()]);
    assert_eq!(parsed.storage.ground_dir, "/abs/ground");
    assert_eq!(parsed.embeddings.cache_dir, "/abs/cache");
}

#[test]
fn load_repo_layer_preserves_tilde_paths_untouched() {
    let cfg = r#"
[[corpus]]
name = "home"
paths = ["~/docs"]

[[repository]]
name = "homerepo"
path = "~/repo"
corpus_paths = ["~/repo/docs"]

[storage]
ground_dir = "~/ground"

[embeddings]
cache_dir = "~/cache"
"#;
    let parsed =
        load_repo_layer("/w/r/.hallouminate/config.toml", decode(cfg)).expect("load_repo_layer");
    assert_eq!(parsed.corpora[0].paths, vec!["~/docs".to_string()]);
    assert_eq!(parsed.repositories[0].path, "~/repo");
    assert_eq!(parsed.repositories[0].corpus_paths, vec!["~/repo/docs".to_string()]);
    assert_eq!(parsed.storage.ground_dir, "~/ground");
    assert_eq!(parsed.embeddings.cache_dir, "~/cache");
}

#[test]
fn load_repo_layer_needs_a_directory() {
    let msg = config_message(load_repo_layer("", decode("")).expect_err("no directory"));
    assert_eq!(msg, "repo config path has no parent directory: ");
}

#[test]
fn merge_layers_appends_repo_corpora_after_baseline() {
    let baseline =
        parsed("[[corpus]]\nname = \"global\"\npaths = [\"/global\"]\n").expect("baseline parses");
    let repo = parsed("[[corpus]]\nname = \"local\"\npaths = [\"/local\"]\n").expect("repo parses");
    let merged = merge_layers(&baseline, &repo).expect("merge");
    assert_eq!(names(&merged.corpora), vec!["global", "local"]);
}

#[test]
fn merge_layers_appends_repo_repositories_after_baseline() {
    let baseline =
        parsed("[[repository]]\nname = \"a\"\npath = \"/a\"\n").expect("baseline parses");
    let repo = parsed("[[repository]]\nname = \"b\"\npath = \"/b\"\n").expect("repo parses");
    let merged = merge_layers(&baseline, &repo).expect("merge");
    let names: Vec<&str> = merged.repositories.iter().map(|r| r.name.as_str()).collect();
    assert_eq!(names, vec!["a", "b"]);
}

#[test]
fn merge_layers_uses_baseline_scalar_when_repo_left_default() {
    let baseline = parsed("[search]\ntop_files_default = 20\n").expect("baseline");
    let repo = parsed("").expect("repo default");
    let merged = merge_layers(&baseline, &repo).expect("merge");
    assert_eq!(merged.search.top_files_default, 20);
}

#[test]
fn merge_layers_uses_repo_scalar_when_baseline_left_default() {
    let baseline = parsed("").expect("baseline default");
    let repo = parsed("[search]\ntop_files_default = 30\n").expect("repo");
    let merged = merge_layers(&baseline, &repo).expect("merge");
    assert_eq!(merged.search.top_files_default, 30);
}

#[test]
fn merge_layers_accepts_both_sides_explicit_equal() {
    let cfg = "[embeddings]\nmodel = \"BAAI/bge-small-en-v1.5\"\ncache_dir = \"/shared\"\n";
    let baseline = parsed(cfg).expect("baseline");
    let repo = parsed(cfg).expect("repo");
    let merged = merge_layers(&baseline, &repo).expect("merge");
    assert_eq!(merged.embeddings.cache_dir, "/shared");
    assert_eq!(merged.embeddings.model, "BAAI/bge-small-en-v1.5");
}

#[test]
fn merge_layers_fails_on_scalar_conflict_with_field_name_in_message() {
    let baseline = parsed("[embeddings]\ncache_dir = \"/a\"\n").expect("baseline");
    let repo = parsed("[embeddings]\ncache_dir = \"/b\"\n").expect("repo");
    let msg = config_message(merge_layers(&baseline, &repo).expect_err("conflict must fail"));
    assert!(msg.contains("embeddings.cache_dir"), "got: {msg}");
    assert!(msg.contains("\"/a\""), "got: {msg}");
    assert!(msg.contains("\"/b\""), "got: {msg}");
    assert_eq!(
        msg,
        "scalar conflict on embeddings.cache_dir: baseline = \"/a\" (baseline), repo = \"/b\" \
         (repo layer)"
    );
}

#[test]
fn merge_layers_conflict_names_both_source_paths_when_supplied() {
    let baseline = parsed("[embeddings]\ncache_dir = \"/a\"\n").expect("baseline");
    let repo = parsed("[embeddings]\ncache_dir = \"/b\"\n").expect("repo");
    let msg = config_message(
        merge_layers_with_sources(
            &baseline,
            &repo,
            Some("/etc/hallouminate/config.toml"),
            Some("/work/.hallouminate/config.toml"),
        )
        .expect_err("conflict must fail"),
    );
    assert!(msg.contains("/etc/hallouminate/config.toml"), "got: {msg}");
    assert!(msg.contains("/work/.hallouminate/config.toml"), "got: {msg}");
}

#[test]
fn merge_layers_names_a_number_that_conflicts() {
    let baseline = parsed("[watch]\ndebounce_ms = 1\n").expect("baseline");
    let repo = parsed("[watch]\ndebounce_ms = 2\n").expect("repo");
    let msg = config_message(merge_layers(&baseline, &repo).expect_err("conflict must fail"));
    assert_eq!(
        msg,
        "scalar conflict on watch.debounce_ms: baseline = 1 (baseline), repo = 2 (repo layer)"
    );
}

#[test]
fn merge_layers_rejects_one_name_in_both_layers() {
    let one = parsed("[[corpus]]\nname = \"docs\"\npaths = [\"/a\"]\n").expect("baseline");
    let other = parsed("[[corpus]]\nname = \"docs\"\npaths = [\"/b\"]\n").expect("repo");
    let msg = config_message(merge_layers(&one, &other).expect_err("one name twice"));
    assert_eq!(msg, "duplicate corpus name 'docs'");
}

fn nothing_below(baseline: &Config) -> Below {
    Below {
        baseline_roots: baseline.repositories.iter().map(|r| r.path.clone()).collect(),
        found: Vec::new(),
    }
}

fn resolve_at(
    baseline: &Config,
    cwd: &str,
    configs: &[&str],
    gits: &[&str],
    layer: &str,
    xdg: Option<&str>,
) -> Result<(Config, ResolvedLayers), HallouminateError> {
    let discovery = discover(cwd, &levels(cwd, configs, gits));
    resolve_for_cwd(baseline, discovery, decode(layer), &nothing_below(baseline), xdg)
}

#[test]
fn resolve_for_cwd_walks_finds_and_merges_repo_layer() {
    let baseline = parsed("[[corpus]]\nname = \"global\"\npaths = [\"/g\"]\n").expect("baseline");
    let (effective, layers) = resolve_at(
        &baseline,
        "/w/r/src/inner",
        &["/w/r"],
        &[],
        "[[corpus]]\nname = \"repo-docs\"\npaths = [\"docs\"]\n",
        Some("/etc/hallouminate/config.toml"),
    )
    .expect("resolve");
    assert_eq!(names(&effective.corpora), vec!["global", "repo-docs"]);
    assert_eq!(effective.corpora[1].paths, vec!["/w/r/docs"]);
    assert_eq!(layers.xdg_path.as_deref(), Some("/etc/hallouminate/config.toml"));
    assert_eq!(layers.repo_path.as_deref(), Some("/w/r/.hallouminate/config.toml"));
}

#[test]
fn resolve_for_cwd_with_repository_dot_path_derives_corpora_against_repo_root() {
    let (effective, _layers) = resolve_at(
        &Config::default(),
        "/w/r",
        &["/w/r"],
        &[],
        "[[repository]]\nname = \"X\"\npath = \".\"\ncorpus_paths = [\"docs\"]\n",
        None,
    )
    .expect("resolve");
    let all = effective.effective_corpora().expect("derive corpora");
    assert_eq!(names(&all), vec!["repo:X:wiki", "repo:X:corpus"]);
    assert_eq!(all[0].paths, vec!["/w/r/./.hallouminate/wiki".to_string()]);
    assert_eq!(all[1].paths, vec!["/w/r/docs".to_string()]);
}

#[test]
fn resolve_for_cwd_returns_hard_error_when_no_repo_config_found() {
    let msg = config_message(
        resolve_at(&Config::default(), "/w/r/src", &[], &["/w/r"], "", None)
            .expect_err("must error"),
    );
    assert!(msg.contains("stopped at repo root"), "got: {msg}");
}

#[test]
fn resolve_for_cwd_passes_xdg_path_into_conflict_messages() {
    let baseline = parsed("[embeddings]\ncache_dir = \"/xdg-cache\"\n").expect("baseline parse");
    let msg = config_message(
        resolve_at(
            &baseline,
            "/w/r",
            &["/w/r"],
            &[],
            "[embeddings]\ncache_dir = \"/repo-cache\"\n",
            Some("/etc/hallouminate/config.toml"),
        )
        .expect_err("conflict must fail"),
    );
    assert!(msg.contains("embeddings.cache_dir"), "got: {msg}");
    assert!(msg.contains("/etc/hallouminate/config.toml"), "got: {msg}");
    assert!(msg.contains("/w/r/.hallouminate/config.toml"), "got: {msg}");
    assert!(msg.contains("/xdg-cache"), "got: {msg}");
    assert!(msg.contains("/repo-cache"), "got: {msg}");
}

#[test]
fn above_all_repos_the_baseline_stands() {
    let baseline =
        parsed("[[repository]]\nname = \"tern\"\npath = \"/repos/tern\"\n").expect("baseline");
    let (effective, layers) =
        resolve_at(&baseline, "/w", &[], &[], "", None).expect("falls back to the baseline");
    assert_eq!(effective, baseline);
    assert_eq!(layers.repo_path, None);
    assert!(layers.warnings.is_empty());
}

fn rooted(name: &str, path: &str) -> Rooted {
    Rooted {
        repository: RepositoryConfig {
            name: name.into(),
            path: path.into(),
            corpus_paths: Vec::new(),
        },
        root: path.into(),
    }
}

#[test]
fn declared_corpora_are_seen_above_all_repositories() {
    let baseline = parsed(
        "[[corpus]]\nname = \"notes\"\npaths = [\"/n\"]\n\n\
         [[repository]]\nname = \"tern\"\npath = \"/repos/tern\"\ncorpus_paths = [\"docs\"]\n",
    )
    .expect("baseline");
    let mut below = nothing_below(&baseline);
    below.found = vec![rooted("auk", "/dev/auk")];
    let discovery = || discover("/dev", &levels("/dev", &[], &[]));
    let (effective, _) =
        resolve_for_cwd(&baseline, discovery(), decode(""), &below, None).expect("resolve");
    let all = effective.effective_corpora().expect("derive corpora");
    assert_eq!(names(&all), vec!["notes", "repo:tern:wiki", "repo:tern:corpus", "repo:auk:wiki"]);
    let taken = parsed("[[corpus]]\nname = \"repo:auk:wiki\"\npaths = [\"/n\"]\n").expect("baseline");
    let mut below = nothing_below(&taken);
    below.found = vec![rooted("auk", "/dev/auk")];
    let err = resolve_for_cwd(&taken, discovery(), decode(""), &below, None)
        .expect_err("one name for two corpora");
    assert_eq!(config_message(err), "duplicate corpus name 'repo:auk:wiki'");
}

#[test]
fn repositories_below_join_the_baseline() {
    let baseline = parsed(
        "[[repository]]\nname = \"tern\"\npath = \"/repos/tern\"\n\n\
         [[repository]]\nname = \"gull\"\npath = \"/repos/gull\"\n",
    )
    .expect("baseline");
    let mut below = nothing_below(&baseline);
    below.found = vec![
        rooted("anything", "/repos//tern/"),
        rooted("gull", "/dev/gull"),
        rooted("auk", "/dev/auk"),
    ];
    let discovery = discover("/dev", &levels("/dev", &[], &[]));
    let (effective, layers) =
        resolve_for_cwd(&baseline, discovery, decode(""), &below, None).expect("resolve");
    let all = effective.effective_corpora().expect("derive corpora");
    assert_eq!(names(&all), vec!["repo:tern:wiki", "repo:gull:wiki", "repo:auk:wiki"]);
    assert_eq!(all[1].paths, vec!["/dev/gull/.hallouminate/wiki"]);
    assert_eq!(
        layers.warnings,
        vec!["repository 'gull' at /dev/gull shadows the one at /repos/gull"]
    );
}

#[test]
fn collect_warnings_flags_unknown_top_level_keys_with_hints() {
    let raw = "\n[[corpora]]\nname = \"wiki\"\n\n[[code_repos]]\nname = \"self\"\n";
    let cfg = decode(raw).expect("parse skeleton");
    let warnings = collect_warnings(Some(raw), &cfg);
    assert!(
        warnings
            .iter()
            .any(|w| w.contains("`corpora`") && w.contains("[[corpus]]")),
        "missing corpora hint: {warnings:?}"
    );
    assert!(
        warnings
            .iter()
            .any(|w| w.contains("`code_repos`") && w.contains("renamed to `[[repository]]`")),
        "missing code_repos hint: {warnings:?}"
    );
}

#[test]
fn collect_warnings_flags_empty_corpora_even_for_valid_keys() {
    let raw = "\n[storage]\nground_dir = \"~/.local/share/hallouminate\"\n";
    let cfg = decode(raw).expect("parse storage-only");
    let warnings = collect_warnings(Some(raw), &cfg);
    assert!(
        warnings.iter().any(|w| w.contains("no corpora configured")),
        "missing empty-corpora warning: {warnings:?}"
    );
}

#[test]
fn collect_warnings_returns_empty_for_valid_config_with_one_corpus() {
    let raw = "\n[[corpus]]\nname = \"wiki\"\npaths = [\"/tmp/wiki\"]\n";
    let cfg = decode(raw).expect("parse valid");
    let warnings = collect_warnings(Some(raw), &cfg);
    assert!(warnings.is_empty(), "expected no warnings, got {warnings:?}");
}

#[test]
fn collect_warnings_flags_code_repo_with_rename_hint() {
    let raw = "[[code_repo]]\nname = \"tern\"\npath = \"/r\"\n";
    let warnings = collect_warnings(Some(raw), &Config::default());
    let hint = warnings
        .iter()
        .find(|w| w.contains("code_repo"))
        .unwrap_or_else(|| panic!("missing code_repo hint: {warnings:?}"));
    assert!(
        hint.contains("renamed to `[[repository]]`"),
        "hint must spell out the rename target: {hint}"
    );
}

#[test]
fn collect_warnings_flags_code_repos_plural_with_same_rename_hint() {
    let raw = "[[code_repos]]\nname = \"tern\"\npath = \"/r\"\n";
    let warnings = collect_warnings(Some(raw), &Config::default());
    let hint = warnings
        .iter()
        .find(|w| w.contains("code_repos"))
        .unwrap_or_else(|| panic!("missing code_repos hint: {warnings:?}"));
    assert!(
        hint.contains("renamed to `[[repository]]`"),
        "plural alias must point at the same target: {hint}"
    );
}

#[test]
fn collect_warnings_flags_corpora_typo_with_corpus_hint() {
    let raw = "[[corpora]]\nname = \"docs\"\npaths = [\"/x\"]\n";
    let warnings = collect_warnings(Some(raw), &Config::default());
    let hint = warnings
        .iter()
        .find(|w| w.contains("corpora"))
        .unwrap_or_else(|| panic!("missing corpora hint: {warnings:?}"));
    assert!(
        hint.contains("[[corpus]]"),
        "corpora hint must point at the singular: {hint}"
    );
}

#[test]
fn collect_warnings_flags_repositories_plural_typo_with_repository_hint() {
    let raw = "[[repositories]]\nname = \"tern\"\npath = \"/r\"\n";
    let warnings = collect_warnings(Some(raw), &Config::default());
    let hint = warnings
        .iter()
        .find(|w| w.contains("repositories"))
        .unwrap_or_else(|| panic!("missing repositories hint: {warnings:?}"));
    assert!(
        hint.contains("[[repository]]"),
        "plural typo hint must point at singular: {hint}"
    );
}

#[test]
fn collect_warnings_flags_unknown_key_without_specific_hint() {
    let raw = "[zzz_unknown]\nfoo = 1\n";
    let warnings = collect_warnings(Some(raw), &Config::default());
    assert!(
        warnings.iter().any(|w| w.contains("zzz_unknown")
            && !w.contains("did you mean")
            && !w.contains("renamed to")),
        "unknown key must surface as a plain warning: {warnings:?}"
    );
}

#[test]
fn collect_warnings_is_silent_when_every_top_level_key_is_known() {
    let raw = "[[corpus]]\nname = \"docs\"\npaths = [\"/x\"]\n\n[[repository]]\nname = \"tern\"\npath = \"/r\"\n\n[search]\n[embeddings]\n[watch]\n[storage]\n";
    let mut cfg = Config::default();
    cfg.corpora.push(CorpusConfig {
        name: "docs".into(),
        paths: vec!["/x".into()],
        globs: Vec::new(),
        exclude: Vec::new(),
        global: false,
    });
    let warnings = collect_warnings(Some(raw), &cfg);
    assert!(
        warnings.is_empty(),
        "known keys + non-empty corpora must produce zero warnings: {warnings:?}"
    );
}

#[test]
fn collect_warnings_surfaces_empty_corpora_advisory_when_no_corpora_present() {
    let warnings = collect_warnings(None, &Config::default());
    assert!(
        warnings.iter().any(|w| w.contains("no corpora configured")),
        "empty corpora advisory missing: {warnings:?}"
    );
}

#[test]
fn collect_warnings_says_what_is_wrong_with_the_text() {
    let warnings = collect_warnings(Some("= ="), &Config::default());
    assert!(warnings[0].starts_with("re-parse for key check failed: "), "{warnings:?}");
    assert_eq!(
        validate_verdict(&warnings),
        Err("2 warning(s); see above".to_string())
    );
    assert_eq!(validate_verdict(&Vec::new()), Ok(()));
}

#[test]
fn format_no_repo_error_surfaces_baseline_path_and_origin_for_xdg() {
    let baseline = BaselineSource {
        path: "/etc/hallouminate/config.toml".to_string(),
        origin: BaselineOrigin::Xdg,
    };
    let err = HallouminateError::Config("walked from /work".into());
    let out = format_no_repo_error(&baseline, false, "/work", &err);
    assert!(out.contains("baseline: /etc/hallouminate/config.toml"), "{out}");
    assert!(out.contains("from XDG"), "missing XDG origin tag: {out}");
    assert!(out.contains("not found"), "missing status: {out}");
}

#[test]
fn format_no_repo_error_surfaces_baseline_path_and_origin_for_config_flag() {
    let baseline = baseline_source_path(Some("/tmp/override.toml"), None);
    let err = HallouminateError::Config("walked from /work".into());
    let out = format_no_repo_error(&baseline, false, "/work", &err);
    assert!(out.contains("baseline: /tmp/override.toml"), "{out}");
    assert!(out.contains("from --config"), "missing --config origin tag: {out}");
    assert_eq!(
        out,
        "baseline: /tmp/override.toml (not found, from --config)\n\
         repo: not found (walked from /work)\n\
         error: hallouminate requires a .hallouminate/config.toml in the working directory's repo \
         (cwd: /work)"
    );
}

#[test]
fn summaries_list_corpora_and_repositories() {
    let cfg = parsed("[[repository]]\nname = \"tern\"\npath = \"/r\"\n").expect("parses");
    assert_eq!(
        effective_summary(&cfg).expect("summary"),
        "\nEffective corpora (1):\n  - repo:tern:wiki         → /r/.hallouminate/wiki\n\
         \nEffective repositories (1):\n  - tern                   → /r\n"
    );
    let baseline = baseline_source_path(Some("/c.toml"), None);
    assert_eq!(
        layered_header(&baseline, true, Some("/r/.hallouminate/config.toml")),
        "baseline: /c.toml (loaded, from --config)\nrepo: /r/.hallouminate/config.toml (loaded)\n"
    );
    assert!(download_summary("m", true).starts_with("downloaded model"));
    assert!(download_summary("m", false).starts_with("embeddings disabled"));
}

#[test]
fn first_configuration_is_not_written_over_another() {
    assert_eq!(
        plan_config_init("/c/config.toml", true, false),
        Err("config already exists at /c/config.toml; pass --force to overwrite".to_string())
    );
    assert_eq!(plan_config_init("/c/config.toml", true, true), Ok(Some("/c".to_string())));
    assert_eq!(plan_config_init("config.toml", false, false), Ok(None));
}

#[test]
fn embeddings_are_on_unless_switched_off() {
    assert!(Config::default().embeddings.enabled);
    let off = parsed("[embeddings]\nenabled = false\n").expect("parses");
    assert!(!off.embeddings.enabled);
    let merged = merge_layers(&Config::default(), &off).expect("merges");
    assert!(!merged.embeddings.enabled);
    let merged = merge_layers(&off, &Config::default()).expect("merges");
    assert!(!merged.embeddings.enabled);
}

#[test]
fn limits_of_the_log_are_scalars() {
    let d = Config::default();
    assert_eq!(d.logging.max_file_bytes, 10 * 1024 * 1024);
    assert_eq!(d.logging.max_total_bytes, 100 * 1024 * 1024);
    assert_eq!(d.watch.failure_reminder_secs, 60);
    let a = parsed("[logging]\nmax_file_bytes = 7\n").expect("parses");
    let b = parsed("[logging]\nmax_file_bytes = 8\n").expect("parses");
    assert_eq!(merge_layers(&d, &a).expect("merges").logging.max_file_bytes, 7);
    let message = config_message(merge_layers(&a, &b).expect_err("both chose"));
    assert_eq!(
        message,
        "scalar conflict on logging.max_file_bytes: baseline = 7 (baseline), repo = 8 (repo layer)"
    );
}

#[test]
fn init_creates_missing_parent_directories() {
    let dir = plan_config_init("/t/a/b/c/config.toml", false, false).expect("init creates parents");
    assert_eq!(dir.as_deref(), Some("/t/a/b/c"));
}

#[test]
fn init_refuses_to_overwrite_existing_without_force() {
    let err = plan_config_init("/t/config.toml", true, false).expect_err("must refuse overwrite");
    assert!(err.contains("--force"), "{err}");
}

#[test]
fn init_overwrites_existing_when_force_is_set() {
    let dir = plan_config_init("/t/config.toml", true, true).expect("force overwrite");
    assert_eq!(dir.as_deref(), Some("/t"));
}

fn validated(baseline: &str, layer: &str) -> Result<(), String> {
    let loaded = load_xdg("/t/xdg.toml", ConfigFile::Read(decode(baseline)))
        .map_err(|e| e.message())?;
    let (effective, _) = resolve_at(&loaded, "/t", &["/t"], &[], layer, Some("/t/xdg.toml"))
        .map_err(|e| e.message())?;
    validate_verdict(&collect_warnings(Some(baseline), &effective))
}

#[test]
fn validate_flags_corpora_typo_and_returns_err() {
    let msg = validated(
        "[[corpora]]\nname = \"wiki\"\npaths = [\"/tmp/wiki\"]\n",
        "[[corpus]]\nname = \"present\"\npaths = [\"/x\"]\n",
    )
    .expect_err("typo must surface a warning");
    assert!(msg.contains("warning"), "{msg}");
    assert_eq!(msg, "1 warning(s); see above");
}

#[test]
fn validate_accepts_config_with_one_corpus_and_no_warnings() {
    validated("[[corpus]]\nname = \"wiki\"\npaths = [\"/tmp/wiki\"]\n", "")
        .expect("valid config must return Ok");
}

#[test]
fn validate_renders_layered_breakdown_when_repo_config_found() {
    validated("", "[[corpus]]\nname = \"docs\"\npaths = [\"/x\"]\n")
        .expect("layered validate must succeed");
}

#[test]
fn validate_exits_non_zero_when_no_repo_config_in_walk() {
    let err = resolve_at(&Config::default(), "/t", &[], &["/t"], "", Some("/t/xdg.toml"))
        .expect_err("no repo layer must exit non-zero");
    let source = baseline_source_path(Some("/t/xdg.toml"), None);
    let msg = format_no_repo_error(&source, true, "/t", &err);
    assert!(msg.contains("repo: not found"), "missing repo-not-found line: {msg}");
    assert!(
        msg.contains("hallouminate requires a .hallouminate/config.toml"),
        "missing user-facing error: {msg}"
    );
    assert!(msg.contains("from --config"), "header must tag baseline origin as --config: {msg}");
}

#[test]
fn show_uses_effective_merged_config() {
    let baseline = parsed("[[corpus]]\nname = \"global\"\npaths = [\"/global\"]\n").expect("load");
    let (effective, _) = resolve_at(
        &baseline,
        "/t",
        &["/t"],
        &[],
        "[[corpus]]\nname = \"local\"\npaths = [\"/local\"]\n",
        None,
    )
    .expect("resolve");
    assert_eq!(names(&effective.corpora), vec!["global", "local"]);
    let text = effective_summary(&effective).expect("show with merged layers");
    assert!(text.contains("Effective corpora (2):"), "{text}");
}

#[test]
fn download_rejects_unsupported_model_during_config_load() {
    let file = ConfigFile::Read(decode("\n[embeddings]\nmodel = \"clip-vit-b32\"\n"));
    let err = load("/t/config.toml", file).expect_err("unsupported model must fail before download");
    assert!(err.message().contains("unsupported embedding model"), "{}", err.message());
}

#[test]
fn discover_repo_config_treats_git_file_as_repo_boundary() {
    let err = discover_repo_config("/t", &levels("/t", &[], &["/t"])).expect_err("git file stops walk");
    let msg = config_message(err);
    assert!(msg.contains("stopped at repo root"), "got: {msg}");
}

fn listed_from(
    baseline: &Config,
    cwd: &str,
    configs: &[&str],
    gits: &[&str],
    layer: &str,
    path: Option<&str>,
) -> Result<Vec<String>, DaemonResponse> {
    let (cfg, _) = resolve_at(baseline, cwd, configs, gits, layer, path)
        .map_err(|e| config_refusal(&e))?;
    Ok(handle_list_corpora(&cfg)?.into_iter().map(|e| e.name).collect())
}

fn refusal(answer: Result<Vec<String>, DaemonResponse>) -> String {
    match answer {
        Err(DaemonResponse::Failure { kind, message }) => {
            assert_eq!(kind, ErrorKind::InvalidParams, "must map to InvalidParams: {message}");
            message
        }
        other => panic!("must be refused; got {other:?}"),
    }
}

#[test]
fn dispatch_above_all_repos_falls_back_to_baseline_corpora() {
    let baseline = parsed("[[corpus]]\nname = \"cheese-global\"\npaths = [\"/srv/cheese-global\"]\n")
        .expect("baseline");
    let names = listed_from(&baseline, "/tmp/x", &[], &[], "", None).expect("must not error");
    assert!(
        names.contains(&"cheese-global".to_string()),
        "baseline corpus must be reachable from above all repos; got {names:?}",
    );
}

#[test]
fn dispatch_inside_repo_without_config_still_hard_errors() {
    let message =
        refusal(listed_from(&Config::default(), "/tmp/r/src", &[], &["/tmp/r"], "", None));
    assert!(
        message.contains("stopped at repo root"),
        "in-repo discovery error must explain the boundary: {message}",
    );
}

#[test]
fn dispatch_with_scalar_conflict_returns_config_error() {
    let baseline = parsed("[embeddings]\ncache_dir = \"/a\"\n").expect("baseline");
    let layer = "[embeddings]\ncache_dir = \"/b\"\n";
    let message = refusal(listed_from(&baseline, "/tmp/r", &["/tmp/r"], &[], layer, None));
    assert!(
        message.contains("embeddings.cache_dir"),
        "conflict error must name the field: {message}",
    );
    assert!(
        message.contains("\"/a\"") && message.contains("\"/b\""),
        "conflict error must show both values: {message}",
    );
}

#[test]
fn dispatch_scalar_conflict_names_baseline_xdg_path_when_known() {
    let baseline = parsed("[embeddings]\ncache_dir = \"/a\"\n").expect("baseline");
    let layer = "[embeddings]\ncache_dir = \"/b\"\n";
    let path = Some("/tmp/baseline.toml");
    let message = refusal(listed_from(&baseline, "/tmp/r", &["/tmp/r"], &[], layer, path));
    assert!(
        message.contains("/tmp/baseline.toml"),
        "conflict message must name the baseline source path: {message}",
    );
    assert!(!message.contains("(XDG baseline)"), "must name the file: {message}");
}

#[test]
fn a_repository_may_choose_its_reranker() {
    let named = |name: &str| Some(name.to_string());
    assert_eq!(merge_crossencoder(None, None, None, None), Ok(None));
    assert_eq!(merge_crossencoder(named("a"), None, None, None), Ok(named("a")));
    assert_eq!(merge_crossencoder(None, named("b"), None, None), Ok(named("b")));
    assert_eq!(merge_crossencoder(named("a"), named("a"), None, None), Ok(named("a")));
    assert_eq!(
        config_message(merge_crossencoder(named("a"), named("b"), Some("/x"), None).unwrap_err()),
        "scalar conflict on search.crossencoder: baseline = Some(\"a\") (baseline at /x), \
         repo = Some(\"b\") (repo layer)"
    );
}

/// The configuration that is seen in the repository after it was set up.
fn resolve_seeded(plan: &InitPlan, root: &str) -> (Config, ResolvedLayers) {
    resolve_at(&Config::default(), root, &[root], &[], &plan.config_body, None)
        .expect("resolve seeded repo")
}

#[test]
fn seeds_config_and_wiki_skeleton_that_the_config_loader_accepts() {
    let plan = plan_init_repo("demo", "/r", false, false, false).expect("init-repo");
    assert_eq!(plan.config_path, "/r/.hallouminate/config.toml");
    assert_eq!(plan.wiki_dir, "/r/.hallouminate/wiki");
    assert_eq!(plan.index_path, "/r/.hallouminate/wiki/index.md");
    let (effective, layers) = resolve_seeded(&plan, "/r");
    assert_eq!(layers.repo_path, Some(plan.config_path));
    let all = effective.effective_corpora().expect("effective corpora");
    assert!(
        names(&all).contains(&"repo:demo:wiki"),
        "seeded repo must derive the wiki corpus, got {:?}",
        names(&all)
    );
    assert_eq!(effective.repositories.len(), 1);
    assert_eq!(effective.repositories[0].path, "/r/.");
    assert!(effective.repositories[0].corpus_paths.is_empty());
    let index = plan.index_body.expect("seeds the index");
    assert!(index.starts_with("# demo wiki\n"), "H1-first convention");
    assert!(index.contains(INDEX_START_MARKER) && index.contains(INDEX_END_MARKER));
    assert!(plan.summary.contains("(corpus: repo:demo:wiki)"));
}

#[test]
fn quotes_names_needing_toml_escaping() {
    let plan = plan_init_repo("has \"quotes\"", "/r", false, false, false).expect("init-repo");
    let (effective, _) = resolve_seeded(&plan, "/r");
    assert_eq!(
        effective.repositories[0].name, "has \"quotes\"",
        "name must round-trip through TOML escaping"
    );
}

#[test]
fn seeds_a_target_directory_that_does_not_exist_yet() {
    let target = "/t/brand/new/repo";
    let plan =
        plan_init_repo("demo", target, false, false, false).expect("init-repo into missing dir");
    assert_eq!(plan.wiki_dir, "/t/brand/new/repo/.hallouminate/wiki");
    let (effective, _) = resolve_seeded(&plan, target);
    assert_eq!(effective.repositories[0].name, "demo");
    assert_eq!(plan.index_path, "/t/brand/new/repo/.hallouminate/wiki/index.md");
    assert!(plan.index_body.is_some());
}

#[test]
fn the_search_below_a_directory_is_bounded() {
    assert!(walk_enters("repo", true, false, WALK_DEPTH));
    assert!(walk_enters("repo", true, false, 1));
    assert!(!walk_enters("repo", true, false, 0), "its depth is capped");
    assert!(!walk_enters("repo", false, false, 1), "files are not entered");
    assert!(!walk_enters("target", true, true, 1), "what git ignores is left out");
    assert!(!walk_enters(".git", true, false, 1), "hidden directories are skipped");
    assert!(walk_enters(".hallouminate", true, false, 1), "but for the one with the layer");
    assert!(!walk_enters(".hallouminate", true, true, 1));
}
