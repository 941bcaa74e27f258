use hallouminate::cli::args::{DaemonCli, FormatArg, GroundCli, IndexCli};
use hallouminate::cli::ground::{
    ground_request, index_request, resolve_path_prefix_strip, shorten_outline, Format, GroundArgs,
};
use hallouminate::cli::init_repo::{plan_init_repo, InitRepoArgs};
use hallouminate::config::Config;
use hallouminate::corpus::{
    default_wiki_for_cwd, derived_corpus_name, is_wiki_corpus, pick_corpus,
    pick_corpus_or_default, repository_roots, CorpusConfig, RepoCorpusKind, RepositoryConfig,
};
use hallouminate::daemon::ipc::DaemonRequestPayload;
use hallouminate::daemon::server::DaemonArgs;
use hallouminate::globs::{not_included, plain_filter, Verdict};
use hallouminate::index::{
    ad_hoc_corpus, ad_hoc_corpus_unsupported, fold_apply_stats, select_corpora, ApplyStats,
    IndexArgs, PathsFile, SelectError, AD_HOC_CORPUS_NAME,
};
use hallouminate::models::{canonical_model_name, resolve_model, CrossencoderModel};
use hallouminate::path::{
    file_name_of, is_within, join, parent_of, strip_prefix, with_file_name,
};
use hallouminate::rerank::{
    apply_permutation, check_order, missing_row_id, ranks_of, reorder, rerank, rerank_with, Scored,
};
use hallouminate::text::{
    body_of_line, decimal_text, is_space_char, pad_left, signed_text, split_lines, split_on,
    trim_text,
};
use hallouminate::tilde::expand_tilde;

fn corpus(name: &str, paths: &[&str]) -> CorpusConfig {
    CorpusConfig {
        name: name.into(),
        paths: paths.iter().map(|p| p.to_string()).collect(),
        ..Default::default()
    }
}

fn config(corpora: Vec<CorpusConfig>) -> Config {
    Config { corpora, ..Default::default() }
}

fn tern() -> Config {
    Config {
        repositories: vec![RepositoryConfig {
            name: "tern".into(),
            path: "/repos/tern".into(),
            ..Default::default()
        }],
        ..Default::default()
    }
}

#[test]
fn path_prefix_strip_returns_sole_corpus_path_with_trailing_slash() {
    let cfg = config(vec![corpus("only", &["/abs/cheese"])]);
    assert_eq!(
        resolve_path_prefix_strip(&cfg, None),
        Some("/abs/cheese/".to_string())
    );
}

#[test]
fn path_prefix_strip_preserves_existing_trailing_slash() {
    let cfg = config(vec![corpus("only", &["/abs/cheese/"])]);
    assert_eq!(
        resolve_path_prefix_strip(&cfg, None),
        Some("/abs/cheese/".to_string()),
        "single trailing slash, not two"
    );
}

#[test]
fn path_prefix_strip_returns_none_for_multi_path_corpus() {
    let cfg = config(vec![corpus("only", &["/a", "/b"])]);
    assert_eq!(resolve_path_prefix_strip(&cfg, None), None);
}

#[test]
fn path_prefix_strip_returns_none_for_multi_corpus_without_filter() {
    let cfg = config(vec![corpus("a", &["/a"]), corpus("b", &["/b"])]);
    assert_eq!(resolve_path_prefix_strip(&cfg, None), None);
}

#[test]
fn path_prefix_strip_uses_named_corpus_in_multi_corpus_config() {
    let cfg = config(vec![corpus("a", &["/a"]), corpus("b", &["/b"])]);
    assert_eq!(
        resolve_path_prefix_strip(&cfg, Some("b")),
        Some("/b/".to_string()),
    );
}

#[test]
fn path_prefix_strip_returns_none_when_named_corpus_missing() {
    let cfg = config(vec![corpus("a", &["/a"])]);
    assert_eq!(resolve_path_prefix_strip(&cfg, Some("ghost")), None);
}

#[test]
fn path_prefix_strip_expands_tilde_in_corpus_path() {
    let cfg = config(vec![corpus("cheese", &["~/.cheese"])]);
    let prefix = resolve_path_prefix_strip(&cfg, None).expect("strip resolved");
    assert!(!prefix.starts_with('~'), "tilde must be expanded: got {prefix:?}");
    assert!(prefix.ends_with("/.cheese/"), "trailing slash: {prefix:?}");
}

#[test]
fn path_prefix_strip_resolves_against_single_repository_wiki() {
    assert_eq!(
        resolve_path_prefix_strip(&tern(), None),
        Some("/repos/tern/.hallouminate/wiki/".to_string())
    );
}

#[test]
fn select_corpora_uses_paths_from_when_set() {
    let list = PathsFile {
        path: "/tmp/paths.txt".to_string(),
        text: Ok("/some/path\n  /another/path  \n\n".to_string()),
    };
    let out = select_corpora(&Config::default(), None, Some(&list)).unwrap();
    assert_eq!(out.len(), 1);
    assert_eq!(out[0].name, AD_HOC_CORPUS_NAME);
    assert_eq!(out[0].paths, vec!["/some/path", "/another/path"]);
}

#[test]
fn select_corpora_filters_by_name_when_corpus_arg_set() {
    let cfg = config(vec![corpus("docs", &["/d"]), corpus("notes", &["/n"])]);
    let out = select_corpora(&cfg, Some("notes"), None).unwrap();
    assert_eq!(out.len(), 1);
    assert_eq!(out[0].name, "notes");
}

#[test]
fn select_corpora_errors_when_named_corpus_missing() {
    let cfg = Config::default();
    let err = select_corpora(&cfg, Some("ghost"), None).unwrap_err();
    assert!(err.message().contains("ghost"), "{err:?}");
    assert_eq!(err.message(), "corpus \"ghost\" not found in config");
}

#[test]
fn select_corpora_errors_when_no_corpora_and_no_filters() {
    let cfg = Config::default();
    let err = select_corpora(&cfg, None, None).unwrap_err();
    assert!(err.message().contains("no corpora"), "{err:?}");
}

#[test]
fn select_corpora_returns_all_when_no_filters_set() {
    let cfg = config(vec![corpus("alpha", &["/a"])]);
    let out = select_corpora(&cfg, None, None).unwrap();
    assert_eq!(out.len(), 1);
    assert_eq!(out[0].name, "alpha");
}

#[test]
fn ad_hoc_corpus_rejects_empty_file() {
    let list = PathsFile {
        path: "/tmp/empty.txt".to_string(),
        text: Ok("\n  \n".to_string()),
    };
    let err = ad_hoc_corpus(&list).unwrap_err();
    assert!(err.message().contains("empty"), "{err:?}");
    assert!(err.is_input_error(), "empty paths-from is the caller's error: {err:?}");
}

#[test]
fn ad_hoc_corpus_names_the_file_that_cannot_be_read() {
    let list = PathsFile {
        path: "/tmp/none.txt".to_string(),
        text: Err("no such file".to_string()),
    };
    assert_eq!(
        ad_hoc_corpus(&list).unwrap_err(),
        SelectError::Input("read paths-from file /tmp/none.txt: no such file".to_string())
    );
}

#[test]
fn select_corpora_resolves_repository_derived_wiki_by_name() {
    let out = select_corpora(&tern(), Some("repo:tern:wiki"), None).unwrap();
    assert_eq!(out.len(), 1);
    assert_eq!(out[0].name, "repo:tern:wiki");
    assert_eq!(
        out[0].paths,
        vec!["/repos/tern/.hallouminate/wiki".to_string()]
    );
}

#[test]
fn select_corpora_includes_repository_derived_corpora_when_no_filters_set() {
    let out = select_corpora(&tern(), None, None).unwrap();
    let names: Vec<&str> = out.iter().map(|c| c.name.as_str()).collect();
    assert_eq!(names, vec!["repo:tern:wiki"]);
}

#[test]
fn select_corpora_passes_on_a_fault_of_the_configuration() {
    let cfg = config(vec![corpus("a", &["/a"]), corpus("a", &["/b"])]);
    let err = select_corpora(&cfg, None, None).unwrap_err();
    assert!(!err.is_input_error());
    assert_eq!(err.message(), "duplicate corpus name 'a'");
}

#[test]
fn run_index_paths_from_returns_input_error_before_dialing_daemon() {
    let args = IndexArgs {
        paths_from: Some("/tmp/paths.txt".to_string()),
        ..Default::default()
    };
    let err = index_request(args, "/w".to_string()).expect_err("must surface a clear error");
    let msg = err.message();
    assert!(
        msg.contains("--paths-from") && msg.contains("not supported"),
        "got: {msg}",
    );
    assert!(err.is_input_error());
    assert_eq!(ad_hoc_corpus_unsupported("/tmp/paths.txt"), err);
}

#[test]
fn derived_corpus_name_emits_canonical_string_for_valid_inputs() {
    let name =
        derived_corpus_name("tern", RepoCorpusKind::Wiki).expect("valid repo name must succeed");
    assert_eq!(name, "repo:tern:wiki");
}

#[test]
fn derived_corpus_name_surfaces_underlying_error_as_string() {
    let err = derived_corpus_name("", RepoCorpusKind::Wiki).expect_err("empty repo name must fail");
    assert!(err.contains("empty"), "got: {err}");
}

#[test]
fn derived_corpus_name_refuses_a_colon() {
    let err = derived_corpus_name("a:b", RepoCorpusKind::Corpus).expect_err("colon must fail");
    assert!(err.contains("a:b"), "got: {err}");
}

#[test]
fn corpus_is_picked_by_name_or_alone() {
    let one = vec![corpus("a", &["/a"])];
    let two = vec![corpus("a", &["/a"]), corpus("b", &["/b"])];
    assert_eq!(pick_corpus(&one, None).unwrap().name, "a");
    assert_eq!(pick_corpus(&two, Some("b")).unwrap().name, "b");
    assert!(pick_corpus(&two, None).unwrap_err().contains("multiple corpora"));
    assert!(pick_corpus(&Vec::new(), None).unwrap_err().contains("no corpora"));
    assert!(pick_corpus(&two, Some("c")).unwrap_err().contains("not found"));
}

#[test]
fn reads_default_to_the_wiki_around_the_working_directory() {
    let mut cfg = tern();
    cfg.repositories.push(RepositoryConfig {
        name: "inner".into(),
        path: "/repos/tern/vendor/inner".into(),
        ..Default::default()
    });
    let roots = repository_roots(&cfg.repositories);
    assert_eq!(roots, vec!["/repos/tern", "/repos/tern/vendor/inner"]);
    let wiki = |cwd: &str| default_wiki_for_cwd(&cfg.repositories, &roots, cwd);
    assert_eq!(wiki("/repos/tern/src").as_deref(), Some("repo:tern:wiki"));
    assert_eq!(
        wiki("/repos/tern/vendor/inner/src").as_deref(),
        Some("repo:inner:wiki")
    );
    assert_eq!(wiki("/repos/ternary"), None);
    assert_eq!(wiki("/repos"), None);

    let corpora = cfg.effective_corpora().unwrap();
    let picked = pick_corpus_or_default(&corpora, Some("repo:tern:wiki"), None).unwrap();
    assert_eq!(picked.name, "repo:tern:wiki");
    assert!(is_wiki_corpus(&picked));
    let named =
        pick_corpus_or_default(&corpora, Some("repo:tern:wiki"), Some("repo:inner:wiki")).unwrap();
    assert_eq!(named.name, "repo:inner:wiki");
    assert!(!is_wiki_corpus(&corpus("repo:tern:corpus", &["/x"])));
}

#[test]
fn expand_tilde_resolves_home() {
    let expanded = expand_tilde("~/foo");
    assert!(!expanded.starts_with('~'), "tilde should be replaced: {expanded}");
    assert!(expanded.starts_with('/'), "{expanded} should start with home");
    assert!(expanded.ends_with("/foo"), "{expanded} should end with foo");
}

#[test]
fn expand_tilde_leaves_absolute_path_unchanged() {
    assert_eq!(expand_tilde("/etc/hosts"), "/etc/hosts");
}

#[test]
fn expand_tilde_leaves_relative_path_unchanged() {
    assert_eq!(expand_tilde("foo/bar"), "foo/bar");
    assert_eq!(expand_tilde("~other/bar"), "~other/bar");
}

#[test]
fn models_are_known_by_their_names() {
    for name in [
        "snowflake/snowflake-arctic-embed-s",
        "BAAI/bge-small-en-v1.5",
        "intfloat/multilingual-e5-small",
    ] {
        assert_eq!(canonical_model_name(name).unwrap(), name);
    }
    assert_eq!(
        canonical_model_name("clip").unwrap_err().message(),
        "unsupported embedding model \"clip\"; supported models: \
         snowflake/snowflake-arctic-embed-s, BAAI/bge-small-en-v1.5, intfloat/multilingual-e5-small"
    );
    assert_eq!(
        resolve_model("bge-reranker-base").unwrap(),
        CrossencoderModel::BgeBase
    );
    assert_eq!(
        CrossencoderModel::JinaV2BaseMultilingual.model_name(),
        "jina-reranker-v2-base-multiligual"
    );
    assert!(resolve_model("gpt").unwrap_err().message().contains("\"gpt\""));
}

#[test]
fn apply_permutation_reorders_in_place() {
    let mut hits = vec!["/a.md#0", "/b.md#0", "/c.md#0"];
    apply_permutation(&mut hits, &vec![2, 1, 0]);
    assert_eq!(hits, vec!["/c.md#0", "/b.md#0", "/a.md#0"]);
}

#[test]
fn only_orders_of_the_hits_are_applied() {
    let mut hits = vec!["a", "b"];
    for (order, fault) in [
        (vec![0], "crossencoder returned 1 scores for 2 docs"),
        (vec![0, 2], "crossencoder returned out-of-range index 2 for 2 docs"),
        (vec![1, 1], "crossencoder returned duplicate index 1"),
    ] {
        assert_eq!(reorder(&mut hits, &order).unwrap_err().message(), fault);
        assert_eq!(hits, vec!["a", "b"], "the hits stay as they were");
    }
    reorder(&mut hits, &vec![1, 0]).unwrap();
    assert_eq!(hits, vec!["b", "a"]);
    let mut none: Vec<&str> = Vec::new();
    reorder(&mut none, &vec![7]).unwrap();
    assert!(none.is_empty());
    assert!(check_order(&vec![0, 1, 2], 3).is_ok());
}

#[test]
fn each_hit_gets_its_own_score() {
    let mut hits = vec![("a", 0.1), ("b", 0.3)];
    let twice = vec![Scored { index: 1, score: 0.9 }, Scored { index: 1, score: 0.2 }];
    assert_eq!(
        rerank(&mut hits, &twice).unwrap_err().message(),
        "crossencoder returned duplicate index 1"
    );
    assert_eq!(hits, vec![("a", 0.1), ("b", 0.3)], "an error leaves the hits as they were");
    assert_eq!(
        rerank_with(&mut hits, Err("onnx".to_string())).unwrap_err().message(),
        "crossencoder rerank: onnx"
    );
    assert_eq!(hits, vec![("a", 0.1), ("b", 0.3)]);
    let scored = vec![Scored { index: 1, score: 0.9 }, Scored { index: 0, score: 0.2 }];
    rerank_with(&mut hits, Ok(scored)).unwrap();
    assert_eq!(hits, vec![("b", 0.9), ("a", 0.2)]);
    let mut none: Vec<(&str, f64)> = Vec::new();
    rerank(&mut none, &twice).unwrap();
    rerank_with(&mut none, Err("not asked".to_string())).unwrap();
    assert!(none.is_empty());
}

#[test]
fn ranks_are_the_places_in_the_list() {
    assert_eq!(ranks_of(&vec![5, 9, 5], 5), vec![0, 2]);
    assert!(ranks_of(&vec![5, 9], 7).is_empty());
    assert_eq!(
        missing_row_id("fts_results", &vec!["name".to_string(), "text".to_string()]),
        "expected column _rowid not found in fts_results; found [\"name\", \"text\"]"
    );
}

#[test]
fn counts_are_counted_together() {
    let mut a = ApplyStats { files_upserted: 1, chunks_inserted: 4, ..Default::default() };
    let b = ApplyStats { files_upserted: 2, files_deleted: 1, ..Default::default() };
    assert!(a.fits(&b));
    fold_apply_stats(&mut a, &b);
    assert_eq!(
        a,
        ApplyStats {
            files_upserted: 3,
            files_deleted: 1,
            chunks_inserted: 4,
            ..Default::default()
        }
    );
    let full = ApplyStats { files_touched: usize::MAX, ..Default::default() };
    assert!(!full.fits(&ApplyStats { files_touched: 1, ..Default::default() }));
}

#[test]
fn paths_are_joined_and_taken_apart() {
    assert_eq!(join("/a", "b"), "/a/b");
    assert_eq!(join("/a/", "b"), "/a/b");
    assert_eq!(join("/a", "/b"), "/b");
    assert_eq!(join("", "b"), "b");
    assert_eq!(parent_of("/a/b").as_deref(), Some("/a"));
    assert_eq!(parent_of("/a").as_deref(), Some("/"));
    assert_eq!(parent_of("/"), None);
    assert_eq!(parent_of("a").as_deref(), Some(""));
    assert_eq!(parent_of(""), None);
    assert_eq!(parent_of("/a//b/").as_deref(), Some("/a"));
    assert_eq!(parent_of("./a").as_deref(), Some("."));
    assert_eq!(parent_of("a/./b").as_deref(), Some("a"));
    assert!(is_within("/a/b/c", "/a//b/"));
    assert!(!is_within("/a/bc", "/a/b"));
    assert!(!is_within("a/b", "/a"));
    assert_eq!(strip_prefix("/a/b/c.md", "/a").as_deref(), Some("b/c.md"));
    assert_eq!(strip_prefix("/a/b/c.md", "/b"), None);
    assert_eq!(file_name_of("/a/b.md/").as_deref(), Some("b.md"));
    assert_eq!(file_name_of("/a/.."), None);
    assert_eq!(with_file_name("/a/ground", "x"), "/a/x");
    assert_eq!(with_file_name("/", "x"), "/x");
}

#[test]
fn paths_agree_with_the_standard_library() {
    for p in [
        "", "/", ".", "..", "a", "/a", "a/b", "/a/b", "a/b/", "/a//b", "./a", "a/./b", "/./a",
        "../a", "/a/..", "a/b/.", "//a", "/a/./.", "./.", "./", "a/../b",
        "/a/b//c/./d/", "a//b/./", "./a//b", "/./a//b/c",
    ] {
        let std_path = std::path::Path::new(p);
        assert_eq!(
            parent_of(p).as_deref(),
            std_path.parent().map(|q| q.to_str().unwrap()),
            "parent of {p:?}"
        );
        assert_eq!(
            file_name_of(p).as_deref(),
            std_path.file_name().map(|q| q.to_str().unwrap()),
            "file name of {p:?}"
        );
        for rel in ["x", "/x", "", "./x", "x/y"] {
            assert_eq!(
                join(p, rel),
                std_path.join(rel).to_str().unwrap(),
                "{p:?} joined with {rel:?}"
            );
        }
        for q in ["/", "/a", "a", "", "./a", "/a/b", ".", "./", "a/", "//a"] {
            assert_eq!(
                is_within(p, q),
                std_path.starts_with(q),
                "{p:?} within {q:?}"
            );
            assert_eq!(
                strip_prefix(p, q).as_deref(),
                std_path.strip_prefix(q).ok().map(|r| r.to_str().unwrap()),
                "{p:?} behind {q:?}"
            );
        }
    }
}

#[test]
fn texts_are_taken_apart() {
    assert_eq!(split_on("a,,b", ','), vec!["a", "", "b"]);
    assert_eq!(split_lines("a\nb\r\n\nc"), vec!["a\n", "b\r\n", "\n", "c"]);
    assert_eq!(body_of_line("b\r\n"), "b");
    assert_eq!(trim_text(" \t\u{a0}x y\u{3000}\n"), "x y");
    assert_eq!(decimal_text(0), "0");
    assert_eq!(decimal_text(u64::MAX), "18446744073709551615");
    assert_eq!(signed_text(i64::MIN), "-9223372036854775808");
    assert_eq!(pad_left("7", 3), "  7");
    for c in '\0'..='\u{3100}' {
        assert_eq!(is_space_char(c), c.is_whitespace(), "{c:?}");
    }
}

#[test]
fn commands_become_requests() {
    let cli = GroundCli {
        query: "q".into(),
        corpus: Some("docs".into()),
        format: FormatArg::Json,
        full: true,
        snippet_chars: Some(80),
        top_files: None,
        chunks_per_file: None,
        limit: None,
        config: None,
        socket: None,
    };
    let args: GroundArgs = cli.into();
    assert_eq!(args.format, Format::JsonPretty);
    let req = ground_request(args, "/w".to_string());
    assert_eq!(req.cwd, "/w");
    match req.payload {
        DaemonRequestPayload::Ground(g) => {
            assert_eq!(g.query, "q");
            assert_eq!(g.corpus.as_deref(), Some("docs"));
            assert_eq!(g.limit, Some(50));
            assert_eq!(g.snippet_chars, Some(80));
        }
        other => panic!("wrong payload: {other:?}"),
    }
    let index: IndexArgs = IndexCli {
        corpus: Some("docs".into()),
        paths_from: None,
        config: None,
        socket: None,
    }
    .into();
    match index_request(index, "/w".to_string()).unwrap().payload {
        DaemonRequestPayload::Index(i) => {
            assert_eq!(i.corpus.as_deref(), Some("docs"));
            assert!(i.paths_from.is_none());
            assert!(!i.strict);
        }
        other => panic!("wrong payload: {other:?}"),
    }
    let daemon: DaemonArgs = DaemonCli { config: Some("/tmp/cfg.toml".into()) }.into();
    assert_eq!(daemon.config.as_deref(), Some("/tmp/cfg.toml"));
    assert_eq!(FormatArg::default(), FormatArg::Outline);
}

fn init(name: &str, force: bool, config_there: bool, index_there: bool) -> Result<String, String> {
    let args = InitRepoArgs { name: name.to_string(), path: Some("/r".to_string()), force };
    plan_init_repo(
        &args.name,
        args.path.as_deref().unwrap(),
        args.force,
        config_there,
        index_there,
    )
    .map(|plan| plan.config_body)
}

#[test]
fn refuses_to_overwrite_existing_config_without_force() {
    let err = init("other", false, true, false).expect_err("second init must fail");
    assert!(err.contains("--force"), "err: {err}");
}

#[test]
fn force_overwrites_config_but_preserves_existing_wiki_index() {
    let plan = plan_init_repo("renamed", "/r", true, true, true).expect("forced init");
    assert!(plan.config_body.contains("name = \"renamed\""), "{}", plan.config_body);
    assert!(plan.index_body.is_none(), "wiki must survive --force");
}

#[test]
fn rejects_names_the_config_loader_would_reject() {
    for bad in ["", "with:colon"] {
        let err = init(bad, false, false, false).expect_err("bad name must fail");
        assert!(err.contains("invalid repository name"), "err for {bad:?}: {err}");
    }
}

#[test]
fn outlines_lose_the_prefix_at_the_start_of_a_line() {
    assert_eq!(
        shorten_outline("/w/a.md\n  see /w/b.md\n/w/sub/c.md", "/w/"),
        "a.md\n  see /w/b.md\nsub/c.md"
    );
    assert_eq!(shorten_outline("/x/w/a.md\n", "/w/"), "/x/w/a.md\n");
    assert_eq!(shorten_outline("", "/w/"), "");
}

#[test]
fn patterns_for_an_ending_are_read_off() {
    let with = |globs: &[&str], exclude: &[&str]| CorpusConfig {
        globs: globs.iter().map(|g| g.to_string()).collect(),
        exclude: exclude.iter().map(|g| g.to_string()).collect(),
        ..corpus("c", &["/c"])
    };
    assert_eq!(plain_filter(&with(&["**/*.md"], &[]), "/c/a.md"), Verdict::Takes);
    assert_eq!(plain_filter(&with(&["**/*.md"], &[]), "/c/a.txt"), Verdict::Refuses);
    assert_eq!(plain_filter(&with(&["**/*.md"], &[]), "/c/amd"), Verdict::Refuses);
    assert_eq!(plain_filter(&with(&["**/*.txt", "**/*.md"], &[]), "/c/a.md"), Verdict::Takes);
    assert_eq!(plain_filter(&with(&[], &[]), "/c/a"), Verdict::Takes);
    for glob in ["docs/*.md", "**/*.m?", "**/*.", "**/*", "**/*.{md,txt}"] {
        assert_eq!(plain_filter(&with(&[glob], &[]), "/c/a.md"), Verdict::Open, "{glob}");
    }
    assert_eq!(plain_filter(&with(&["**/*.md"], &["drafts"]), "/c/a.md"), Verdict::Open);
    assert_eq!(not_included("a.txt"), "a.txt is not included by corpus globs");
}
