use hallouminate::cli::init_repo::{INDEX_END_MARKER, INDEX_START_MARKER};
use hallouminate::config::{Config, LoggingConfig};
use hallouminate::corpus::{CorpusConfig, RepositoryConfig};
use hallouminate::daemon::add_run::{
    add_next, add_result, add_start, add_start_linted, add_target, page_of, AddEvent, AddRun,
    AddStep, PageReadFailure, WriteFailure, Written,
};
use hallouminate::daemon::boot::{
    boot_next, boot_start, stale_backup_path, BootEvent, BootStep, StoreOpening,
};
use hallouminate::daemon::bootstrap::{
    bootstrap_next, ensure_daemon_running, has_explicit_socket_override,
    running_daemon_version_matches, stop_next, BootstrapEvent, BootstrapStep, StopEvent, StopStep,
};
use hallouminate::daemon::client::{
    cannot_connect, daemon_client_unavailable, daemon_unsupported, frame, result_of, unframe,
    DaemonClient, DaemonRpcError,
};
use hallouminate::daemon::delete_run::{
    delete_next, delete_result, delete_start, DeleteEvent, DeleteStep, FileStat, UnlinkFailure,
};
use hallouminate::daemon::dispatch::{
    config_refusal, dispatch_control, ensure_paths_exist, ground_next, ground_start,
    ground_warnings, handle_list_corpora, plan_ground, select_for_listing, takes_write_lane,
    GroundEvent, GroundStep, GroundTarget,
};
use hallouminate::daemon::edit::{
    replace_lines, replace_match, splice_under_heading, Heading, Page,
};
use hallouminate::daemon::endpoint::{daemon_endpoint, lock_path_for, pipe_path};
use hallouminate::daemon::globalize::{global_corpus, globalize_request, globalize_result};
use hallouminate::daemon::idle::{idle_watch_next, idle_watch_start, is_idle, Activity, IdleStep};
use hallouminate::daemon::index_page::{
    compose_index_md, is_listed, link_list, title_of, IndexEntry,
};
use hallouminate::daemon::index_run::{index_next, index_start, IndexRunEvent, IndexRunStep};
use hallouminate::daemon::ipc::{
    is_our_version, pong_reports_our_version, pong_value, AddMarkdownRequest, AddMarkdownResult,
    DaemonRequestPayload, DaemonResponse, ErrorKind, GlobalizeMarkdownRequest, GroundRequest,
    IndexRequest, LineRange, Position, VERSION,
};
use hallouminate::daemon::locks::{GuardStep, MutationGuard};
use hallouminate::daemon::model_cache::{
    crossencoder_unavailable, embedder_unavailable, plan_crossencoder, CrossencoderPlan,
};
use hallouminate::daemon::read::{read_answer, read_result, ReadFailure};
use hallouminate::daemon::rebuild_run::{
    ancestor_dirs, rebuild_next, rebuild_start, PageFailure, RebuildEvent, RebuildStep,
    RewriteOutcome,
};
use hallouminate::daemon::server::{
    accept_next, already_running, request_body, serve_next, socket_dir, undecodable, AcceptEvent,
    AcceptStep, DaemonStatus, LineRead, ServeStep,
};
use hallouminate::daemon::single_file::{
    finish_single_file, known_of_content, known_snapshot, mtime_ms_from_duration, mtime_ms_of, needs_hash,
};
use hallouminate::daemon::stats::{corpus_stats, IndexedRow};
use hallouminate::daemon::wiki::{
    map_delete_error, map_read_error, read_target, require_single_root, safe_relative_path,
    validate_wiki_path, validate_wiki_read_path, wiki_target, PathChecks, WikiTarget, WriteError,
    WriteErrorKind,
};
use hallouminate::error::HallouminateError;
use hallouminate::index::ApplyStats;
use hallouminate::logs::{
    archives_kept, limit_from, limits_from, log_path, next_log_step, renamings, LogStep,
};
use hallouminate::markdown::{headings_of, lint_markdown};
use hallouminate::models::CrossencoderModel;
use hallouminate::store::rows::{content_hash_of, FileSnapshot};

fn failure(resp: DaemonResponse) -> (ErrorKind, String) {
    match resp {
        DaemonResponse::Failure { kind, message } => (kind, message),
        DaemonResponse::Success { result } => panic!("expected an error, got {result:?}"),
    }
}

fn assert_invalid_params(resp: DaemonResponse, needle: &str) {
    let (kind, message) = failure(resp);
    assert_eq!(
        kind,
        ErrorKind::InvalidParams,
        "a validation failure must surface as InvalidParams: {message}"
    );
    assert!(message.contains(needle), "want {needle:?}: {message}");
}

fn assert_internal(resp: DaemonResponse, text: &str) {
    assert_eq!(failure(resp), (ErrorKind::Internal, text.to_string()));
}

fn wiki_corpus_at(root: &str) -> CorpusConfig {
    CorpusConfig {
        name: "repo:tern:wiki".into(),
        paths: vec![root.to_string()],
        globs: vec!["**/*.md".into()],
        exclude: vec![],
        global: false,
    }
}

fn plain_corpus(name: &str, paths: &[&str]) -> CorpusConfig {
    CorpusConfig {
        name: name.into(),
        paths: paths.iter().map(|p| p.to_string()).collect(),
        ..Default::default()
    }
}

fn fine() -> PathChecks {
    PathChecks { filter_refusal: None, parent_is_link: false, root_is_link: false }
}

#[test]
fn validate_wiki_path_returns_corpus_root_and_relative_on_valid_input() {
    let corpora = vec![wiki_corpus_at("/w")];
    let target = wiki_target(&corpora, "repo:tern:wiki", "notes/a.md")
        .expect("valid corpus + path must resolve");
    let target = validate_wiki_path(target, &fine()).expect("allowed");
    assert_eq!(target.corpus.name, "repo:tern:wiki");
    assert_eq!(target.root, "/w");
    assert_eq!(target.relative, "notes/a.md");
    assert_eq!(target.path(), "/w/notes/a.md");
}

#[test]
fn validate_wiki_path_maps_unknown_corpus_to_invalid_params() {
    let corpora = vec![wiki_corpus_at("/w")];
    let resp = wiki_target(&corpora, "repo:nope:wiki", "a.md")
        .expect_err("unknown corpus must fail validation");
    assert_invalid_params(resp, "not found");
}

#[test]
fn validate_wiki_path_rejects_path_traversal_as_invalid_params() {
    let corpora = vec![wiki_corpus_at("/w")];
    let resp = wiki_target(&corpora, "repo:tern:wiki", "../../etc/passwd")
        .expect_err("path traversal must fail validation");
    assert_invalid_params(resp, "normal file components");
}

#[test]
fn validate_wiki_path_enforces_corpus_globs_as_invalid_params() {
    let corpora = vec![wiki_corpus_at("/w")];
    let target = wiki_target(&corpora, "repo:tern:wiki", "notes/a.txt").expect("a safe path");
    let checks = PathChecks {
        filter_refusal: Some("/w/notes/a.txt is not included by corpus globs".to_string()),
        ..fine()
    };
    let resp = validate_wiki_path(target, &checks)
        .expect_err("a non-markdown path must be rejected by corpus globs");
    assert_invalid_params(resp, "not included by corpus globs");
}

#[test]
fn validate_wiki_path_refuses_linked_wikis() {
    let corpora = vec![wiki_corpus_at("/r/.hallouminate/wiki"), plain_corpus("docs", &["/d"])];
    let target = || wiki_target(&corpora, "repo:tern:wiki", "a.md").expect("a safe path");
    let linked_parent = PathChecks { parent_is_link: true, ..fine() };
    assert_invalid_params(
        validate_wiki_path(target(), &linked_parent).unwrap_err(),
        "wiki corpus repo:tern:wiki is unsafe: parent /r/.hallouminate is a symlink",
    );
    let linked_root = PathChecks { root_is_link: true, ..fine() };
    assert_invalid_params(
        validate_wiki_path(target(), &linked_root).unwrap_err(),
        "wiki root is a symlink",
    );
    let plain = wiki_target(&corpora, "docs", "a.md").expect("a safe path");
    assert!(validate_wiki_path(plain, &linked_root).is_ok(), "other corpora may use links");
}

#[test]
fn safe_paths_are_made_of_names() {
    assert_eq!(safe_relative_path("a//b/./c.md").unwrap(), "a/b/c.md");
    for bad in ["", "/", "/a.md", "..", "a/../b", "./a.md", "."] {
        assert!(safe_relative_path(bad).is_err(), "{bad:?} must be refused");
    }
}

#[test]
fn writes_need_a_single_root() {
    let many = plain_corpus("docs", &["/a", "/b"]);
    let (kind, message) = failure(require_single_root(&many).unwrap_err());
    assert_eq!(kind, ErrorKind::InvalidParams);
    assert!(message.starts_with("corpus \"docs\" has 2 roots;"), "{message}");
    assert_eq!(require_single_root(&plain_corpus("docs", &["/a"])).unwrap(), "/a");
    assert!(wiki_target(&vec![many], "docs", "a.md").is_err());
}

#[test]
fn reads_take_any_root() {
    let corpora = vec![plain_corpus("docs", &["/a", "/b"])];
    let target = read_target(&corpora, "docs", "x.md").expect("a safe path");
    let file = validate_wiki_read_path(target, Ok("/b".to_string()), "/a", &fine()).expect("found");
    assert_eq!(file.path(), "/b/x.md");
    let target = read_target(&corpora, "docs", "x.md").expect("a safe path");
    let missing = WriteError {
        kind: WriteErrorKind::InvalidPath,
        not_found: true,
        detail: "none".to_string(),
    };
    assert_invalid_params(
        validate_wiki_read_path(target, Err(missing), "/a", &fine()).unwrap_err(),
        "x.md does not exist",
    );
    assert!(read_target(&corpora, "docs", "../x.md").is_err());
    assert!(read_target(&corpora, "nope", "x.md").is_err());
}

fn error(kind: WriteErrorKind, not_found: bool) -> WriteError {
    WriteError { kind, not_found, detail: "why".to_string() }
}

#[test]
fn access_errors_are_told_apart() {
    assert_invalid_params(
        map_read_error(&error(WriteErrorKind::Symlink, false), "a.md"),
        "refusing to read symlink a.md: why",
    );
    assert_invalid_params(
        map_read_error(&error(WriteErrorKind::InvalidPath, false), "a.md"),
        "refusing unsafe path a.md: why",
    );
    assert_invalid_params(
        map_read_error(&error(WriteErrorKind::Io, true), "a.md"),
        "a.md does not exist",
    );
    assert_internal(map_read_error(&error(WriteErrorKind::Io, false), "a.md"), "read a.md: why");
    assert_internal(map_read_error(&error(WriteErrorKind::Exists, false), "a.md"), "why");
    assert_invalid_params(
        map_delete_error(&error(WriteErrorKind::Symlink, false), "a.md"),
        "refusing to delete symlink a.md: why",
    );
    assert_internal(
        map_delete_error(&error(WriteErrorKind::Io, false), "a.md"),
        "unlink a.md: why",
    );
}

fn target() -> WikiTarget {
    WikiTarget {
        corpus: plain_corpus("docs", &["/d"]),
        root: "/d".to_string(),
        relative: "a/b.md".to_string(),
    }
}

fn wiki_target_at(relative: &str) -> WikiTarget {
    WikiTarget {
        corpus: wiki_corpus_at("/w"),
        root: "/w".to_string(),
        relative: relative.to_string(),
    }
}

#[test]
fn reads_return_the_bytes_of_the_file() {
    let file = target();
    let read = read_result(&file, Ok("# é\n".as_bytes().to_vec())).expect("UTF-8");
    assert_eq!(read.content, "# é\n");
    assert_eq!(read.bytes, 5);
    assert_eq!(read.corpus, "docs");
    assert_eq!(read.path, "a/b.md");
    assert_eq!(read.absolute_path, "/d/a/b.md");
    assert_invalid_params(
        read_result(&file, Ok(vec![0x66, 0xff])).unwrap_err(),
        "a/b.md is not valid UTF-8: invalid utf-8 sequence",
    );
    assert_invalid_params(
        read_result(&file, Err(ReadFailure::Refused(error(WriteErrorKind::Io, true)))).unwrap_err(),
        "does not exist",
    );
    assert_invalid_params(
        read_answer(&file, 2, Err("bad byte".into())).unwrap_err(),
        "a/b.md is not valid UTF-8: bad byte",
    );
    assert_internal(
        read_result(&file, Err(ReadFailure::Panicked("p".into()))).unwrap_err(),
        "read task panicked: p",
    );
}

#[test]
fn mtime_ms_from_duration_passes_through_normal_value() {
    let got = mtime_ms_from_duration(1_700_000_000_000, "/tmp/a.md").expect("a sane mtime");
    assert_eq!(got, 1_700_000_000_000_i64);
}

#[test]
fn mtime_ms_from_duration_accepts_i64_max_milliseconds() {
    let max_ms = u128::try_from(i64::MAX).unwrap();
    let got = mtime_ms_from_duration(max_ms, "/tmp/max.md").expect("representable");
    assert_eq!(got, i64::MAX);
}

#[test]
fn mtime_ms_from_duration_errors_one_past_i64_max() {
    let overflow_ms = u128::try_from(i64::MAX).unwrap() + 1;
    let msg = mtime_ms_from_duration(overflow_ms, "/tmp/huge.md")
        .expect_err("an mtime past i64::MAX ms must error, not truncate");
    assert!(
        msg.contains("overflows i64") && msg.contains("huge.md"),
        "overflow error must name the cause and file: {msg}",
    );
    assert_eq!(mtime_ms_of(None, "/a").unwrap_err(), "pre-epoch mtime on /a");
    assert_eq!(mtime_ms_of(Some(9), "/a").unwrap(), 9);
}

#[test]
fn unnoticed_changes_are_indexed_anew() {
    let snap = || FileSnapshot {
        file_ref: "/a.md".into(),
        corpus: "docs".into(),
        mtime_ms: 5,
        content_hash: "old".into(),
    };
    assert!(needs_hash(Some(&snap()), 5));
    assert!(!needs_hash(Some(&snap()), 6));
    assert!(!needs_hash(None, 5));
    assert!(known_snapshot(Some(snap()), 5, Some("new")).is_none());
    assert_eq!(known_snapshot(Some(snap()), 5, Some("old")), Some(snap()));
    assert_eq!(known_snapshot(Some(snap()), 6, None), Some(snap()));
    assert!(known_snapshot(None, 5, Some("new")).is_none());
    let kept = || FileSnapshot { content_hash: content_hash_of(b"same"), ..snap() };
    assert_eq!(known_of_content(Some(kept()), 5, b"same"), Some(kept()));
    assert!(known_of_content(Some(kept()), 5, b"other").is_none());
    assert_eq!(known_of_content(Some(kept()), 6, b"other"), Some(kept()));
    assert!(known_of_content(None, 5, b"same").is_none());
    let empty = ApplyStats { files_skipped_empty: 1, ..Default::default() };
    let pruned = finish_single_file(empty, true);
    assert!(pruned.prune);
    assert_eq!(pruned.stats.files_deleted, 1);
    assert!(!finish_single_file(empty, false).prune);
}

fn add_request(content: &str, overwrite: bool) -> AddMarkdownRequest {
    AddMarkdownRequest {
        corpus: "docs".into(),
        path: "a/b.md".into(),
        content: content.into(),
        overwrite,
        under_heading: None,
        position: Position::Append,
        replace_lines: None,
        replace_match: None,
    }
}

fn start(target: WikiTarget, req: &AddMarkdownRequest, warnings: Vec<String>, embed: bool) -> AddRun {
    add_start(target, req, warnings, embed).unwrap_or_else(|resp| panic!("must start: {resp:?}"))
}

fn step(run: AddRun, event: AddEvent) -> AddRun {
    add_next(run, event).unwrap_or_else(|resp| panic!("must go on: {resp:?}"))
}

fn wrote() -> AddEvent {
    AddEvent::Written(Ok(Written {
        dest: "/d/a/b.md".to_string(),
        file_ref: Some("/real/a/b.md".to_string()),
    }))
}

#[test]
fn a_written_file_is_embedded_and_indexed() {
    let mut run = start(target(), &add_request("# B\n", false), vec!["hm".into()], true);
    run = step(run, AddEvent::Locked(Ok(())));
    run = step(run, wrote());
    assert_eq!(run.step, AddStep::Embedder);
    run = step(run, AddEvent::Embedder(Ok(())));
    let stats = ApplyStats { files_upserted: 1, chunks_inserted: 3, ..Default::default() };
    run = step(run, AddEvent::Indexed(Ok(stats)));
    assert_eq!(run.step, AddStep::Finished, "a plain corpus has no index pages");
    let result = add_result(run);
    assert_eq!(result.corpus, "docs");
    assert_eq!(result.path, "a/b.md");
    assert_eq!(result.absolute_path, "/d/a/b.md");
    assert_eq!(result.warnings, vec!["hm"]);
    assert_eq!(result.indexed.corpora[0].chunks_inserted, 3);
}

#[test]
fn a_wiki_has_its_index_pages_rewritten() {
    let mut run = start(wiki_target_at("a/b.md"), &add_request("# B\n", false), vec![], false);
    run = step(run, AddEvent::Locked(Ok(())));
    run = step(run, wrote());
    assert_eq!(run.step, AddStep::IndexFile, "no embedder where embeddings are off");
    let one = ApplyStats { files_upserted: 1, ..Default::default() };
    run = step(run, AddEvent::Indexed(Ok(one)));
    assert_eq!(run.step, AddStep::Rebuild);
    let two = ApplyStats { files_upserted: 2, ..Default::default() };
    run = step(run, AddEvent::Rebuilt(Ok(two)));
    assert_eq!(add_result(run).indexed.corpora[0].files_upserted, 3);
}

#[test]
fn an_empty_file_that_replaces_another_loses_its_rows() {
    let mut run = start(target(), &add_request(" \n", true), vec![], true);
    run = step(run, AddEvent::Locked(Ok(())));
    run = step(run, wrote());
    assert_eq!(run.step, AddStep::Snapshot, "nothing to embed");
    run = step(run, AddEvent::Snapshot(Ok(true)));
    run = step(run, AddEvent::RowsDeleted(Ok(())));
    let report = add_result(run).indexed.corpora.remove(0);
    assert_eq!((report.files_skipped_empty, report.files_deleted), (1, 1));

    let mut fresh = start(target(), &add_request("", false), vec![], true);
    fresh = step(fresh, AddEvent::Locked(Ok(())));
    fresh = step(fresh, wrote());
    assert_eq!(fresh.step, AddStep::Finished);
}

#[test]
fn failures_of_a_write_end_the_request() {
    let writing = || {
        step(
            start(target(), &add_request("x", false), vec![], true),
            AddEvent::Locked(Ok(())),
        )
    };
    let fail = |kind: WriteErrorKind| {
        AddEvent::Written(Err(WriteFailure::Refused(error(kind, false))))
    };
    assert_invalid_params(
        add_next(writing(), fail(WriteErrorKind::Exists)).unwrap_err(),
        "a/b.md already exists; pass overwrite=true to replace it",
    );
    assert_invalid_params(
        add_next(writing(), fail(WriteErrorKind::Symlink)).unwrap_err(),
        "refusing unsafe path a/b.md: why",
    );
    assert_internal(add_next(writing(), fail(WriteErrorKind::Io)).unwrap_err(), "why");
    assert_internal(
        add_next(writing(), AddEvent::Written(Err(WriteFailure::Panicked("p".into())))).unwrap_err(),
        "write task panicked: p",
    );
    let fresh = start(target(), &add_request("x", false), vec![], true);
    assert_internal(
        add_next(fresh, AddEvent::Locked(Err("write lane closed".into()))).unwrap_err(),
        "write lane closed",
    );
    let embedding = step(writing(), wrote());
    assert_internal(
        add_next(embedding, AddEvent::Embedder(Err("offline".into()))).unwrap_err(),
        "offline",
    );
    assert_eq!(
        step(writing(), AddEvent::Locked(Ok(()))).step,
        AddStep::Write,
        "what does not answer the step changes nothing"
    );
}

fn heading(first: usize, level: usize, text: &str) -> Heading {
    Heading { first, after: first + 1, level, text: text.to_string() }
}

fn page() -> Page {
    Page::of("# A\n\none\n##  B \ntwo\n### C\nthree\n## D\nfour".to_string())
}

#[test]
fn headings_are_found_outside_code() {
    let found: Vec<(usize, usize, usize, String)> = headings_of(
        "# A\n```\n# not one\n```\n#no\n####### no\n## B\r\n###\nx # no\n",
    )
    .into_iter()
    .map(|h| (h.first, h.after, h.level, h.text))
    .collect();
    assert_eq!(
        found,
        vec![
            (0, 1, 1, "A".to_string()),
            (6, 7, 2, "B".to_string()),
            (7, 8, 3, String::new())
        ]
    );
}

#[test]
fn authors_are_told_what_to_mend() {
    assert!(lint_markdown("# A\n\n[b](./b.md)\n\n## B\n").is_empty());
    assert_eq!(
        lint_markdown("# A\n[b]()\n```mermaid\n\n```\n```mermaid\ngraph\n```\n### C\n"),
        vec![
            "link without a destination on line 2",
            "empty mermaid block on line 3",
            "heading level jumps from 1 to 3 on line 9"
        ]
    );
    assert!(lint_markdown("```\n[b]()\n```\n").is_empty(), "code is not linted");
}

fn edited_page(req: &AddMarkdownRequest) -> Result<String, DaemonResponse> {
    let mut run = start(target(), req, vec![], false);
    run = step(run, AddEvent::Locked(Ok(())));
    assert_eq!(run.step, AddStep::ReadPage);
    let run = add_next(run, AddEvent::Page(Ok(page())))?;
    assert_eq!(run.step, AddStep::Write);
    assert!(run.overwrite, "an edit takes the place of the page");
    Ok(run.content)
}

#[test]
fn a_fragment_goes_into_its_section() {
    let mut req = add_request("new", false);
    req.under_heading = Some("B".into());
    assert_eq!(
        edited_page(&req).unwrap(),
        "# A\n\none\n##  B \ntwo\n### C\nthree\nnew\n## D\nfour"
    );
    req.position = Position::Prepend;
    assert_eq!(
        edited_page(&req).unwrap(),
        "# A\n\none\n##  B \nnew\ntwo\n### C\nthree\n## D\nfour"
    );
    req.position = Position::Append;
    req.under_heading = Some("D".into());
    assert_eq!(
        edited_page(&req).unwrap(),
        "# A\n\none\n##  B \ntwo\n### C\nthree\n## D\nfour\nnew"
    );
    req.under_heading = Some("E".into());
    assert_invalid_params(edited_page(&req).unwrap_err(), "heading \"E\" not found in a/b.md");
    let twice = Page {
        text: "# A\n# A\n".to_string(),
        headings: vec![heading(0, 1, "A"), heading(1, 1, "A")],
    };
    assert_eq!(
        splice_under_heading(&twice, "A", Position::Append, "x", "p.md").unwrap_err(),
        "heading \"A\" is ambiguous in p.md"
    );
}

#[test]
fn lines_are_replaced() {
    let range = |start, end| LineRange { start, end };
    assert_eq!(replace_lines("a\nb\nc\n", range(2, 2), "x", "p.md").unwrap(), "a\nx\nc\n");
    assert_eq!(replace_lines("a\nb\nc\n", range(2, 3), "x\ny\n", "p.md").unwrap(), "a\nx\ny\n");
    assert_eq!(replace_lines("a\nb\nc", range(3, 3), "x", "p.md").unwrap(), "a\nb\nx");
    assert_eq!(replace_lines("a\nb\nc\n", range(1, 2), "", "p.md").unwrap(), "c\n");
    for (start, end) in [(0, 1), (2, 1), (3, 4), (4, 4)] {
        assert_eq!(
            replace_lines("a\nb\nc\n", range(start, end), "x", "p.md").unwrap_err(),
            format!("lines {start}-{end} are out of range: p.md has 3 lines")
        );
    }
    let mut req = add_request("x\n", true);
    req.replace_lines = Some(range(1, 2));
    assert_eq!(edited_page(&req).unwrap(), "x\none\n##  B \ntwo\n### C\nthree\n## D\nfour");
}

#[test]
fn a_text_is_replaced_where_it_stands_alone() {
    assert_eq!(replace_match("a bc d", "bc", "x", "p.md").unwrap(), "a x d");
    assert_eq!(replace_match("ab", "ab", "", "p.md").unwrap(), "");
    assert_eq!(replace_match("ab", "c", "x", "p.md").unwrap_err(), "text not found in p.md");
    assert_eq!(
        replace_match("aaa", "aa", "x", "p.md").unwrap_err(),
        "text is ambiguous in p.md: 2 matches"
    );
    let mut req = add_request("2", false);
    req.replace_match = Some("two".into());
    assert_eq!(edited_page(&req).unwrap(), "# A\n\none\n##  B \n2\n### C\nthree\n## D\nfour");
}

#[test]
fn answers_carry_the_lint_of_what_is_written() {
    let content = "# A\n\n[x]()\n";
    let remarks = lint_markdown(content);
    assert_eq!(remarks, vec!["link without a destination on line 3"]);
    let req = add_request(content, false);
    let run = add_start_linted(target(), &req, vec!["more".into()], false).expect("starts");
    assert_eq!(run.step, AddStep::Lock);
    assert_eq!(run.content, content);
    let run = step(run, AddEvent::Locked(Ok(())));
    let written = Written { dest: "/d/a/b.md".into(), file_ref: Some("/d/a/b.md".into()) };
    let run = step(run, AddEvent::Written(Ok(written)));
    let run = step(run, AddEvent::Indexed(Ok(ApplyStats::default())));
    assert_eq!(run.step, AddStep::Finished);
    assert_eq!(
        add_result(run).warnings,
        vec!["link without a destination on line 3", "more"]
    );
    let mut both = add_request("x", true);
    both.replace_match = Some("two".into());
    both.under_heading = Some("A".into());
    assert_invalid_params(
        add_start_linted(target(), &both, vec![], true).unwrap_err(),
        "set only one of under_heading, replace_lines and replace_match",
    );
}

#[test]
fn pages_are_decoded_from_their_bytes() {
    let page = page_of(Ok("# Käse\ntext\n".as_bytes().to_vec())).expect("is text");
    assert_eq!(page.text, "# Käse\ntext\n");
    assert_eq!(page.headings.len(), 1);
    match page_of(Ok(vec![0xff])) {
        Err(PageReadFailure::NotText(fault)) => {
            assert_eq!(fault, "invalid utf-8 sequence of 1 bytes from index 0")
        }
        other => panic!("expected a refusal, got {other:?}"),
    }
    let refused = page_of(Err(ReadFailure::Refused(error(WriteErrorKind::Io, true))));
    assert!(matches!(refused, Err(PageReadFailure::Refused(_))));
    let broken = page_of(Err(ReadFailure::Panicked("p".into())));
    assert!(matches!(broken, Err(PageReadFailure::Panicked(_))));
}

#[test]
fn edits_need_the_page_and_exclude_each_other() {
    let mut req = add_request("x", true);
    req.replace_match = Some("two".into());
    let reading = || step(start(target(), &req, vec![], true), AddEvent::Locked(Ok(())));
    assert_invalid_params(
        add_next(
            reading(),
            AddEvent::Page(Err(PageReadFailure::Refused(error(WriteErrorKind::Io, true)))),
        )
        .unwrap_err(),
        "a/b.md does not exist",
    );
    assert_invalid_params(
        add_next(reading(), AddEvent::Page(Err(PageReadFailure::NotText("bad byte".into()))))
            .unwrap_err(),
        "a/b.md is not valid UTF-8: bad byte",
    );
    assert_internal(
        add_next(reading(), AddEvent::Page(Err(PageReadFailure::Panicked("p".into())))).unwrap_err(),
        "read task panicked: p",
    );
    let mut both = add_request("x", true);
    both.replace_match = Some("two".into());
    both.under_heading = Some("A".into());
    assert_invalid_params(
        add_start(target(), &both, vec![], true).unwrap_err(),
        "set only one of under_heading, replace_lines and replace_match",
    );
}

#[test]
fn health_is_counted_from_the_rows() {
    let row = |file: &str, at: i64| IndexedRow { file_ref: file.to_string(), indexed_at_ms: at };
    let files = vec!["/a.md".to_string(), "/b.md".to_string(), "/c.md".to_string()];
    let stats = corpus_stats("docs", &vec![row("/a.md", 3), row("/a.md", 7), row("/b.md", 5)], &files);
    assert_eq!(stats.corpus, "docs");
    assert_eq!((stats.indexed_files, stats.total_chunks), (2, 3));
    assert_eq!((stats.last_indexed_ms, stats.unindexed_files), (Some(7), 1));
    let none = corpus_stats("docs", &vec![], &files);
    assert_eq!((none.indexed_files, none.total_chunks), (0, 0));
    assert_eq!((none.last_indexed_ms, none.unindexed_files), (None, 3));
}

#[test]
fn logs_are_rotated_when_they_are_full() {
    let limits = LoggingConfig { max_file_bytes: 10, max_total_bytes: 100 };
    assert_eq!(next_log_step(0, 4, &limits), LogStep::Append(4));
    assert_eq!(next_log_step(8, 4, &limits), LogStep::Append(2));
    assert_eq!(next_log_step(10, 4, &limits), LogStep::Rotate);
    assert_eq!(archives_kept(&vec![10; 20], &limits), 9);
    assert_eq!(archives_kept(&vec![3, 2], &limits), 2);
    assert_eq!(log_path("/s/hallouminate"), "/s/hallouminate/hallouminate.log");
    let moves = renamings("/s/l.log", 2);
    let names: Vec<(&str, &str)> = moves.iter().map(|m| (m.from.as_str(), m.to.as_str())).collect();
    assert_eq!(
        names,
        vec![
            ("/s/l.log.2", "/s/l.log.3"),
            ("/s/l.log.1", "/s/l.log.2"),
            ("/s/l.log", "/s/l.log.1")
        ]
    );
    let read = limits_from(&limits, Some("7"), Some("many"));
    assert_eq!(read, LoggingConfig { max_file_bytes: 7, max_total_bytes: 100 });
    assert_eq!(limit_from(Some("18446744073709551616"), 5), 5);
    assert_eq!(limit_from(Some("18446744073709551615"), 5), u64::MAX);
    assert_eq!(limit_from(Some(""), 5), 5);
}

#[test]
fn add_target_lists_the_corpora_first() {
    let cfg = Config {
        corpora: vec![plain_corpus("docs", &["/d"])],
        ..Default::default()
    };
    let found = add_target(&cfg, &add_request("x", false)).expect("resolves");
    assert_eq!(found.path(), "/d/a/b.md");
    let broken = Config {
        corpora: vec![plain_corpus("docs", &["/d"]), plain_corpus("docs", &["/e"])],
        ..Default::default()
    };
    assert_internal(
        add_target(&broken, &add_request("x", false)).unwrap_err(),
        "duplicate corpus name 'docs'",
    );
}

#[test]
fn a_deleted_file_loses_its_rows() {
    let mut run = delete_start(wiki_target_at("a/b.md"));
    assert_eq!(run.dest, "/w/a/b.md");
    run = delete_next(run, DeleteEvent::Locked(Ok(()))).unwrap();
    run = delete_next(run, DeleteEvent::Stat(FileStat::File("/real/b.md".into()))).unwrap();
    run = delete_next(run, DeleteEvent::Unlinked(Ok(()))).unwrap();
    assert_eq!(run.step, DeleteStep::DeleteRows);
    run = delete_next(run, DeleteEvent::RowsDeleted(Ok(()))).unwrap();
    assert_eq!(run.step, DeleteStep::Rebuild);
    run = delete_next(run, DeleteEvent::Rebuilt(Ok(()))).unwrap();
    let result = delete_result(run);
    assert_eq!(result.corpus, "repo:tern:wiki");
    assert_eq!(result.path, "a/b.md");
    assert_eq!(result.absolute_path, "/w/a/b.md");
    assert_eq!(result.file_ref, "/real/b.md");
}

#[test]
fn only_regular_files_are_deleted() {
    let looking = || delete_next(delete_start(target()), DeleteEvent::Locked(Ok(()))).unwrap();
    let stat = |s: FileStat| delete_next(looking(), DeleteEvent::Stat(s)).unwrap_err();
    assert_invalid_params(stat(FileStat::NotFound), "a/b.md does not exist");
    assert_invalid_params(stat(FileStat::Link), "refusing to delete symlink a/b.md");
    assert_invalid_params(stat(FileStat::Other), "a/b.md is not a regular file");
    assert_internal(stat(FileStat::Unknown("io".into())), "stat /d/a/b.md: io");
    assert_internal(stat(FileStat::NamelessFile("/d/?".into())), "non-utf8 path: /d/?");
    let unlinking =
        || delete_next(looking(), DeleteEvent::Stat(FileStat::File("/d/a/b.md".into()))).unwrap();
    let refused = UnlinkFailure::Refused(error(WriteErrorKind::Symlink, false));
    assert_invalid_params(
        delete_next(unlinking(), DeleteEvent::Unlinked(Err(refused))).unwrap_err(),
        "refusing to delete symlink a/b.md: why",
    );
    assert_internal(
        delete_next(
            unlinking(),
            DeleteEvent::Unlinked(Err(UnlinkFailure::Panicked("p".into()))),
        )
        .unwrap_err(),
        "unlink task panicked: p",
    );
    let pruned = delete_next(unlinking(), DeleteEvent::Unlinked(Ok(()))).unwrap();
    let done = delete_next(pruned, DeleteEvent::RowsDeleted(Ok(()))).unwrap();
    assert_eq!(done.step, DeleteStep::Finished, "a plain corpus has no index pages");
}

#[test]
fn index_pages_are_rewritten_from_the_root_down() {
    assert_eq!(ancestor_dirs("a/b/c.md"), vec!["", "a", "a/b"]);
    assert_eq!(ancestor_dirs("c.md"), vec![""]);
    assert_eq!(ancestor_dirs("a/b/index.md"), vec!["", "a"], "the author's page stands");
    assert!(ancestor_dirs("index.md").is_empty());
}

#[test]
fn index_pages_are_written_where_they_change() {
    let entry = |name: &str, is_dir: bool| IndexEntry { name: name.into(), is_dir, gloss: None };
    let mut run = rebuild_start("/w", "a/c.md", true);
    assert_eq!(run.current_page(), "/w/index.md");
    assert_eq!(run.page_relative(), "index.md");
    let page = format!(
        "# Mine\n\nMy words.\n{INDEX_START_MARKER}\n- [a/](./a/index.md)\n{INDEX_END_MARKER}\n"
    );
    run = rebuild_next(run, RebuildEvent::Read(Ok(Some(page.clone())))).unwrap();
    run = rebuild_next(run, RebuildEvent::Entries(Ok(vec![entry("a", true)]))).unwrap();
    assert_eq!(run.current_page(), "/w/a/index.md", "a page that is as it should be is not written");
    assert_eq!(run.page_relative(), "a/index.md");
    run = rebuild_next(run, RebuildEvent::Read(Ok(None))).unwrap();
    let listed = vec![entry("c.md", false), entry("index.md", false), entry(".x.md", false)];
    run = rebuild_next(run, RebuildEvent::Entries(Ok(listed))).unwrap();
    assert_eq!(run.step, RebuildStep::Write);
    let fresh =
        format!("# a\n\n{INDEX_START_MARKER}\n- [c](./c.md)\n{INDEX_END_MARKER}\n");
    assert_eq!(run.content, fresh);
    assert_eq!(run.bytes(), fresh.into_bytes());
    run = rebuild_next(run, RebuildEvent::Written(Ok("/w/a/index.md".into()))).unwrap();
    assert_eq!(run.step, RebuildStep::Embedder);
    run = rebuild_next(run, RebuildEvent::Embedder(Ok(()))).unwrap();
    let one = ApplyStats { files_upserted: 1, ..Default::default() };
    run = rebuild_next(run, RebuildEvent::Reindexed(Ok(one))).unwrap();
    assert_eq!(run.step, RebuildStep::Finished);
    assert_eq!(run.totals, one);
}

#[test]
fn rewritten_pages_keep_the_words_of_their_author() {
    let entry = |name: &str| IndexEntry { name: name.into(), is_dir: false, gloss: None };
    let page = |list: &str| {
        format!("# Mine\n\nMy words.\n{INDEX_START_MARKER}\n{list}{INDEX_END_MARKER}\nMore.\n")
    };
    let read = |existing: &str| {
        let run = rebuild_start("/w", "c.md", false);
        rebuild_next(run, RebuildEvent::Read(Ok(Some(existing.to_string())))).unwrap()
    };
    let entries = || RebuildEvent::Entries(Ok(vec![entry("b.md"), entry("c.md")]));
    let run = rebuild_next(read(&page("- [b](./b.md)\n")), entries()).unwrap();
    assert_eq!(run.step, RebuildStep::Write);
    assert_eq!(run.content, page("- [b](./b.md)\n- [c](./c.md)\n"));
    let run = rebuild_next(read("# No marks\n"), entries()).unwrap();
    assert_eq!(run.step, RebuildStep::Finished, "a page without marks is left alone");
}

#[test]
fn index_pages_belong_to_their_authors() {
    let entry = |name: &str, is_dir: bool, gloss: Option<&str>| IndexEntry {
        name: name.to_string(),
        is_dir,
        gloss: gloss.map(str::to_string),
    };
    let list = link_list(&vec![
        entry("adapters", true, None),
        entry("corpus-walker.md", false, Some("Corpus walker")),
    ]);
    assert_eq!(
        list,
        "- [adapters/](./adapters/index.md)\n\
         - [corpus-walker](./corpus-walker.md) — Corpus walker\n"
    );
    let (page, outcome) = compose_index_md(None, "demo wiki", &list);
    assert_eq!(outcome, RewriteOutcome::Created);
    assert_eq!(
        page,
        format!(
            "# demo wiki\n\n<!-- HALLOUMINATE:INDEX-START -->\n{list}\
             <!-- HALLOUMINATE:INDEX-END -->\n"
        )
    );
    assert_eq!(
        compose_index_md(Some(&page), "demo wiki", &list),
        (page.clone(), RewriteOutcome::Unchanged)
    );
    let tagged = link_list(&vec![entry("a.md", false, Some("<b> & <!-- x -->"))]);
    let (once, _) = compose_index_md(Some(&page), "demo wiki", &tagged);
    assert_eq!(
        compose_index_md(Some(&once), "demo wiki", &tagged),
        (once.clone(), RewriteOutcome::Unchanged),
        "a list is found again where it was put"
    );
    let prose = page.replace("# demo wiki\n", "# Mine\n\nMy words.\n") + "More words.";
    let (next, outcome) = compose_index_md(Some(&prose), "demo wiki", "- x\n");
    assert_eq!(outcome, RewriteOutcome::Updated);
    assert_eq!(next, prose.replace(&list, "- x\n"));
    assert_eq!(
        compose_index_md(Some("# Mine\n"), "demo wiki", &list),
        ("# Mine\n".to_string(), RewriteOutcome::NoMarkers)
    );
}

#[test]
fn index_pages_link_to_pages_and_directories() {
    assert!(is_listed("a.md", false) && is_listed("sub", true));
    for (name, is_dir) in [("index.md", false), ("a.txt", false), (".git", true), (".a.md", false)] {
        assert!(!is_listed(name, is_dir), "{name}");
    }
    assert_eq!(title_of("\n# Corpus walker \n\ntext").as_deref(), Some("Corpus walker"));
    assert_eq!(
        title_of("---\nstatus: draft\n---\n\n# Title\n").as_deref(),
        Some("Title")
    );
    assert_eq!(title_of("---\nno end\n# Title\n"), None);
    assert_eq!(title_of("text first\n# Title\n"), None);
    assert_eq!(title_of(""), None);
}

#[test]
fn failures_of_an_index_page_say_which() {
    let at = |steps: usize| {
        let mut run = rebuild_start("/w", "a/c.md", true);
        if steps > 0 {
            run = rebuild_next(run, RebuildEvent::Read(Ok(None))).unwrap();
        }
        if steps > 1 {
            run = rebuild_next(run, RebuildEvent::Entries(Ok(Vec::new()))).unwrap();
        }
        if steps > 2 {
            run = rebuild_next(run, RebuildEvent::Written(Ok("/w/index.md".into()))).unwrap();
        }
        if steps > 3 {
            run = rebuild_next(run, RebuildEvent::Embedder(Ok(()))).unwrap();
        }
        run
    };
    assert_eq!(
        rebuild_next(at(0), RebuildEvent::Read(Err("io".into()))).unwrap_err(),
        "read /w/index.md: io"
    );
    assert_eq!(
        rebuild_next(at(1), RebuildEvent::Entries(Err("io".into()))).unwrap_err(),
        "compose index /w: io"
    );
    let refused = PageFailure::Refused(error(WriteErrorKind::Symlink, false));
    assert_eq!(
        rebuild_next(at(2), RebuildEvent::Written(Err(refused))).unwrap_err(),
        "writing index /w/index.md failed (Symlink): why"
    );
    assert_eq!(
        rebuild_next(at(2), RebuildEvent::Written(Err(PageFailure::Panicked("p".into()))))
            .unwrap_err(),
        "index write task panicked: p"
    );
    assert_eq!(
        rebuild_next(at(3), RebuildEvent::Embedder(Err("off".into()))).unwrap_err(),
        "embedder: off"
    );
    assert_eq!(
        rebuild_next(at(4), RebuildEvent::Reindexed(Err("db".into()))).unwrap_err(),
        "reindex /w/index.md: db"
    );
}

fn two_corpora() -> Config {
    Config {
        corpora: vec![plain_corpus("docs", &["/d"]), plain_corpus("notes", &["/n", "/m"])],
        ..Default::default()
    }
}

fn index_req(corpus: Option<&str>, strict: bool) -> IndexRequest {
    IndexRequest { corpus: corpus.map(str::to_string), paths_from: None, strict }
}

#[test]
fn pages_are_copied_into_the_shared_corpus() {
    let mut shared = plain_corpus("shared", &["/s"]);
    shared.global = true;
    let corpora = vec![plain_corpus("docs", &["/d"]), shared.clone()];
    let global = global_corpus(&corpora).expect("one is shared");
    assert_eq!(global.name, "shared");
    let mut req = GlobalizeMarkdownRequest {
        source_corpus: "docs".into(),
        path: "a/b.md".into(),
        dest_path: None,
        overwrite: true,
    };
    let page = read_result(&target(), Ok(b"# B\n".to_vec())).expect("is text");
    let add = globalize_request(&req, &page, &global);
    assert_eq!((add.corpus.as_str(), add.path.as_str()), ("shared", "a/b.md"));
    assert_eq!(add.content, "# B\n");
    assert!(add.overwrite);
    req.dest_path = Some("c.md".into());
    assert_eq!(globalize_request(&req, &page, &global).path, "c.md");
    let added = AddMarkdownResult {
        corpus: "shared".into(),
        path: "c.md".into(),
        absolute_path: "/s/c.md".into(),
        indexed: Default::default(),
        warnings: vec![],
    };
    let result = globalize_result(page, added);
    assert_eq!((result.source_corpus.as_str(), result.source_path.as_str()), ("docs", "a/b.md"));
    assert_eq!((result.global_corpus.as_str(), result.dest_path.as_str()), ("shared", "c.md"));
    assert_invalid_params(
        global_corpus(&vec![plain_corpus("docs", &["/d"])]).unwrap_err(),
        "no corpus is marked global = true",
    );
    assert_invalid_params(
        global_corpus(&vec![shared.clone(), shared]).unwrap_err(),
        "more than one corpus is marked global = true",
    );
}

#[test]
fn each_corpus_is_indexed_or_warned_of() {
    let mut run = index_start(&two_corpora(), &index_req(None, false), true).expect("starts");
    run = index_next(run, IndexRunEvent::Locked(Ok(()))).unwrap();
    run = index_next(run, IndexRunEvent::Missing(vec![])).unwrap();
    assert_eq!(run.step, IndexRunStep::Embedder);
    run = index_next(run, IndexRunEvent::Embedder(Ok(()))).unwrap();
    let stats = ApplyStats { files_upserted: 4, ..Default::default() };
    run = index_next(run, IndexRunEvent::Indexed(Ok(stats))).unwrap();
    run = index_next(run, IndexRunEvent::Locked(Ok(()))).unwrap();
    run = index_next(run, IndexRunEvent::Missing(vec!["/n".into(), "/m".into()])).unwrap();
    assert_eq!(run.step, IndexRunStep::Finished);
    assert_eq!(run.report.corpora.len(), 1);
    assert_eq!(run.report.corpora[0].name, "docs");
    assert_eq!(run.report.corpora[0].files_upserted, 4);
    assert_eq!(
        run.report.warnings,
        vec!["corpus \"notes\": root /n, /m does not exist; skipped"]
    );
}

#[test]
fn a_strict_index_refuses_missing_directories() {
    let mut run =
        index_start(&two_corpora(), &index_req(Some("notes"), true), false).expect("starts");
    assert_eq!(run.selected.len(), 1);
    run = index_next(run, IndexRunEvent::Locked(Ok(()))).unwrap();
    assert_invalid_params(
        index_next(run, IndexRunEvent::Missing(vec!["/n".into()])).unwrap_err(),
        "corpus \"notes\": root /n does not exist",
    );
}

#[test]
fn an_index_request_is_refused_for_what_it_asks() {
    let mut req = index_req(None, false);
    req.paths_from = Some("/p".into());
    assert_invalid_params(
        index_start(&two_corpora(), &req, true).unwrap_err(),
        "paths_from is not supported via the daemon yet",
    );
    assert_invalid_params(
        index_start(&two_corpora(), &index_req(Some("ghost"), false), true).unwrap_err(),
        "corpus \"ghost\" not found in config",
    );
    assert_invalid_params(
        index_start(&Config::default(), &index_req(None, false), true).unwrap_err(),
        "no corpora configured",
    );
    let run = index_start(&two_corpora(), &index_req(None, false), true).expect("starts");
    assert_internal(
        index_next(run, IndexRunEvent::Locked(Err("write lane closed".into()))).unwrap_err(),
        "write lane closed",
    );
}

fn ground_req(corpus: Option<&str>) -> GroundRequest {
    GroundRequest {
        query: "q".into(),
        corpus: corpus.map(str::to_string),
        top_files: Some(4),
        chunks_per_file: None,
        limit: None,
        snippet_chars: Some(80),
    }
}

#[test]
fn searches_go_where_the_request_says() {
    let mut cfg = two_corpora();
    cfg.repositories.push(RepositoryConfig {
        name: "tern".into(),
        path: "/repos/tern".into(),
        ..Default::default()
    });
    let named = plan_ground(&cfg, Some("repo:tern:wiki"), &ground_req(Some("docs")), true).unwrap();
    assert!(matches!(&named.target, GroundTarget::Single(c) if c.name == "docs"));
    assert_eq!(
        (named.opts.top_files, named.opts.chunks_per_file, named.opts.limit),
        (4, 3, 50)
    );
    assert_eq!(named.snippet_chars, Some(80));
    let inside = plan_ground(&cfg, Some("repo:tern:wiki"), &ground_req(None), false).unwrap();
    assert!(matches!(&inside.target, GroundTarget::Single(c) if c.name == "repo:tern:wiki"));
    assert!(!inside.use_embedder);
    let above = plan_ground(&cfg, None, &ground_req(None), true).unwrap();
    match &above.target {
        GroundTarget::Union(list) => assert_eq!(list.len(), 3),
        other => panic!("expected all corpora, got {other:?}"),
    }
    assert_invalid_params(
        plan_ground(&cfg, None, &ground_req(Some("ghost")), true).unwrap_err(),
        "not found",
    );
    let notes = vec!["shadowed".to_string()];
    let warnings = ground_warnings(&above, &notes);
    assert_eq!(warnings.len(), 1);
    assert_eq!(warnings[0].code, "cross-repo-union");
    assert_eq!(warnings[0].message, "shadowed");
    assert!(ground_warnings(&named, &notes).is_empty());
}

#[test]
fn a_search_goes_on_without_its_reranker() {
    let cfg = two_corpora();
    let plan = plan_ground(&cfg, None, &ground_req(None), true).unwrap();
    let step = ground_start(&plan);
    assert_eq!(step, GroundStep::Embedder);
    assert_internal(
        ground_next(step, GroundEvent::Embedder(Err("offline".into()))).unwrap_err(),
        "offline",
    );
    let step = ground_next(step, GroundEvent::Embedder(Ok(()))).unwrap();
    let step = ground_next(step, GroundEvent::Crossencoder(false)).unwrap();
    assert_eq!(step, GroundStep::Search { embedder: true, crossencoder: false });
    assert_internal(
        ground_next(step, GroundEvent::Searched(Err("db".into()))).unwrap_err(),
        "db",
    );
    let step = ground_next(step, GroundEvent::Searched(Ok(()))).unwrap();
    assert_eq!(step, GroundStep::Render);
}

#[test]
fn listings_select_and_prepare_their_corpus() {
    let cfg = two_corpora();
    let entries = handle_list_corpora(&cfg).unwrap();
    assert_eq!(entries.len(), 2);
    assert_eq!(entries[1].name, "notes");
    assert_eq!(entries[1].paths, vec!["/n", "/m"]);
    assert_eq!(select_for_listing(&cfg, None, Some("docs")).unwrap().name, "docs");
    assert_invalid_params(
        select_for_listing(&cfg, None, None).unwrap_err(),
        "multiple corpora",
    );
    assert!(ensure_paths_exist(&plain_corpus("docs", &["/d"])).is_empty());
    assert_eq!(ensure_paths_exist(&wiki_corpus_at("/w")), vec!["/w"]);
}

#[test]
fn dispatch_ping_is_config_independent_and_reports_version() {
    let reply = dispatch_control(&DaemonRequestPayload::Ping).expect("answered at once");
    assert!(!reply.stop);
    assert!(pong_reports_our_version(&reply.response));
    match reply.response {
        DaemonResponse::Success { result } => {
            assert_eq!(result, pong_value(VERSION), "ping must return the versioned pong");
        }
        other => panic!("ping must succeed, got {other:?}"),
    }
    let reply = dispatch_control(&DaemonRequestPayload::Shutdown).expect("answered at once");
    assert!(reply.stop);
    match reply.response {
        DaemonResponse::Success { result } => {
            assert_eq!(result, serde_json::Value::String("stopping".to_string()));
        }
        other => panic!("expected agreement, got {other:?}"),
    }
    assert!(dispatch_control(&DaemonRequestPayload::ListCorpora).is_none());
    assert!(!takes_write_lane(&DaemonRequestPayload::ListCorpora));
    assert!(takes_write_lane(&DaemonRequestPayload::Index(index_req(None, false))));
    assert_invalid_params(
        config_refusal(&HallouminateError::Config("scalar conflict on x".into())),
        "scalar conflict",
    );
}

#[test]
fn pong_value_carries_the_daemon_binary_version() {
    assert_eq!(pong_value(VERSION)["version"], VERSION);
}

fn pong(version: &str) -> DaemonResponse {
    DaemonResponse::ok(Ok(pong_value(version)))
}

#[test]
fn pong_with_our_version_is_a_match() {
    assert!(pong_reports_our_version(&pong(VERSION)), "same version must match");
    assert!(running_daemon_version_matches(Some(&pong(VERSION))));
}

#[test]
fn pong_with_a_different_version_is_a_mismatch() {
    assert!(
        !pong_reports_our_version(&pong("0.0.0-stale")),
        "a different version must not match"
    );
}

#[test]
fn bare_pong_string_from_old_daemon_is_a_mismatch() {
    let resp = DaemonResponse::ok(Ok(serde_json::Value::String("pong".to_string())));
    assert!(!pong_reports_our_version(&resp), "legacy bare-pong daemon must be treated as skew");
}

#[test]
fn error_response_is_a_mismatch() {
    let resp = DaemonResponse::internal("boom");
    assert!(!pong_reports_our_version(&resp), "an error response is unverifiable");
    assert!(!running_daemon_version_matches(None));
    assert!(is_our_version(Some("0.1.0")));
    assert!(!is_our_version(Some("0.1.1")));
    assert!(!is_our_version(None));
}

#[test]
fn ok_maps_serialize_failure_to_internal_error_not_null_success() {
    let (kind, message) = failure(DaemonResponse::ok(Err("boom".to_string())));
    assert_eq!(kind, ErrorKind::Internal);
    assert!(
        message.starts_with("serialize response:"),
        "message should name the serialize failure, got: {message:?}"
    );
}

#[test]
fn ok_wraps_serializable_payload_verbatim() {
    let value = serde_json::to_value("pong").map_err(|e| e.to_string());
    match DaemonResponse::ok(value) {
        DaemonResponse::Success { result } => {
            assert_eq!(result, serde_json::Value::String("pong".to_string()));
        }
        DaemonResponse::Failure { kind, message } => {
            panic!("clean payload must serialize, got {kind:?}: {message}");
        }
    }
}

#[test]
fn answers_carry_their_result_or_their_error() {
    let value = serde_json::Value::Bool(true);
    assert_eq!(
        result_of(DaemonResponse::ok(Ok(value.clone()))).unwrap(),
        value
    );
    let err = result_of(DaemonResponse::invalid_params("bad")).unwrap_err();
    assert_eq!(err.kind, ErrorKind::InvalidParams);
    assert_eq!(err.text(), "bad");
    let err = result_of(DaemonResponse::internal("worse")).unwrap_err();
    assert_eq!(err.kind, ErrorKind::Internal);
    assert_eq!(DaemonRpcError::internal("worse").message, err.message);
}

#[test]
fn messages_are_single_lines() {
    assert_eq!(frame("{}"), "{}\n");
    assert_eq!(unframe(&frame("{\"op\":\"ping\"}")), "{\"op\":\"ping\"}");
    assert_eq!(unframe("{} \r\n"), "{}");
    assert_eq!(request_body(&LineRead::Line("{}\n".into())).as_deref(), Some("{}"));
    assert!(request_body(&LineRead::TimedOut).is_none());
    assert!(request_body(&LineRead::Closed).is_none());
    assert_invalid_params(undecodable("expected value"), "invalid request: expected value");
}

#[test]
fn an_unreachable_daemon_is_explained() {
    assert_eq!(
        daemon_client_unavailable("gone"),
        "daemon unavailable: gone (start it with `hallouminate daemon`)"
    );
    assert_eq!(
        cannot_connect("/s"),
        "daemon unavailable: cannot connect to /s (start it with `hallouminate daemon`)"
    );
    assert!(daemon_unsupported().contains("unsupported on this platform"));
    assert_eq!(DaemonClient::at("/s").socket_path(), "/s");
}

#[test]
fn endpoint_carries_the_socket_path() {
    let ep = daemon_endpoint("/tmp/hallouminate/daemon.sock");
    assert_eq!(ep.path, "/tmp/hallouminate/daemon.sock");
}

#[test]
fn pipe_path_is_prefixed_and_sanitized() {
    let got = pipe_path(r"C:\Users\me\AppData\daemon.sock");
    assert!(got.starts_with(r"\\.\pipe\hallouminate-"));
    let leaf = got.trim_start_matches(r"\\.\pipe\hallouminate-");
    assert!(
        leaf.chars().all(|c| c.is_ascii_alphanumeric() || c == '_'),
        "pipe leaf must be namespace-safe: {leaf}"
    );
}

#[test]
fn pipes_spell_out_what_a_name_cannot_hold() {
    assert_eq!(pipe_path("/a/b"), r"\\.\pipe\hallouminate-_47_a_47_b");
    assert_eq!(pipe_path("/a_b"), r"\\.\pipe\hallouminate-_47_a_95_b");
    assert_eq!(pipe_path("a47"), r"\\.\pipe\hallouminate-a47");
    assert_ne!(pipe_path("/a/b"), pipe_path("/a_b"));
    assert_ne!(pipe_path("_47_"), pipe_path("/"));
}

#[test]
fn distinct_socket_paths_yield_distinct_pipes() {
    let a = pipe_path(r"C:\a\daemon.sock");
    let b = pipe_path(r"C:\b\daemon.sock");
    assert_ne!(a, b);
}

#[test]
fn lock_path_appends_dot_lock_suffix() {
    assert_eq!(
        lock_path_for("/tmp/hallouminate/daemon.sock"),
        "/tmp/hallouminate/daemon.sock.lock",
    );
}

#[test]
fn unset_socket_env_does_not_bypass_spawn() {
    assert!(!has_explicit_socket_override(None));
}

#[test]
fn empty_socket_env_does_not_bypass_spawn() {
    assert!(!has_explicit_socket_override(Some("")));
}

#[test]
fn set_socket_env_bypasses_spawn() {
    assert!(has_explicit_socket_override(Some("/tmp/test.sock")));
    assert_eq!(ensure_daemon_running(Some("/tmp/test.sock")), BootstrapStep::Finished);
}

#[test]
fn a_daemon_of_another_version_is_replaced() {
    let log = "/s/bootstrap.log";
    let next = |step, event| bootstrap_next(step, event, log).unwrap();
    let mut step = ensure_daemon_running(None);
    step = next(step, BootstrapEvent::Connected(true));
    assert_eq!(step, BootstrapStep::Probe);
    assert_eq!(next(step, BootstrapEvent::Version(true)), BootstrapStep::Finished);
    step = next(step, BootstrapEvent::Version(false));
    assert_eq!(step, BootstrapStep::Stop);
    step = next(step, BootstrapEvent::Stopped(Ok(())));
    step = next(step, BootstrapEvent::Spawned(Ok(())));
    step = next(step, BootstrapEvent::Elapsed(9_999));
    step = next(step, BootstrapEvent::Connected(false));
    assert_eq!(step, BootstrapStep::Sleep);
    step = next(step, BootstrapEvent::Slept);
    assert_eq!(
        bootstrap_next(step, BootstrapEvent::Elapsed(10_000), log).unwrap_err(),
        "daemon did not start within 10s; see /s/bootstrap.log"
    );
    step = next(step, BootstrapEvent::Elapsed(500));
    assert_eq!(next(step, BootstrapEvent::Connected(true)), BootstrapStep::Finished);
}

#[test]
fn should_idle_exit_is_false_when_disabled() {
    let state = Activity::started(100);
    assert!(!state.should_idle_exit_at(0, u64::MAX));
    assert_eq!(idle_watch_start(&state, 0, 100), IdleStep::Off);
}

#[test]
fn should_idle_exit_is_false_when_recently_active() {
    assert!(!Activity::started(100).should_idle_exit_at(300, 101));
}

#[test]
fn should_idle_exit_is_true_when_idle_and_no_connections() {
    let state = Activity::started(100);
    assert!(state.should_idle_exit_at(300, 400));
    assert!(state.should_idle_exit_at(300, 401));
}

#[test]
fn should_idle_exit_is_false_one_second_below_threshold() {
    assert!(!Activity::started(100).should_idle_exit_at(300, 399));
}

#[test]
fn secs_until_idle_counts_down_to_the_deadline() {
    let state = Activity::started(100);
    assert_eq!(state.secs_until_idle_at(300, 100), 300);
    assert_eq!(state.secs_until_idle_at(300, 200), 200);
    assert_eq!(state.secs_until_idle_at(300, 400), 0);
    assert_eq!(state.secs_until_idle_at(300, 10_100), 0);
    assert_eq!(state.secs_until_idle_at(300, 50), 300, "the clock may go back");
}

#[test]
fn active_connection_defers_idle_exit_even_when_clock_is_idle() {
    let mut state = Activity::started(100);
    let guard = state.enter_connection();
    assert!(!state.should_idle_exit_at(300, 10_100));
    assert_eq!(idle_watch_next(&state, 300, 10_100), IdleStep::Sleep(1));
    state.leave_connection(guard);
    assert!(state.should_idle_exit_at(300, 10_100));
    assert_eq!(idle_watch_next(&state, 300, 10_100), IdleStep::Exit);
}

#[test]
fn touch_activity_advances_the_idle_clock() {
    let mut state = Activity::started(1);
    assert!(state.should_idle_exit_at(300, 1000));
    state.touch_activity(1000);
    assert!(!state.should_idle_exit_at(300, 1001));
    assert!(is_idle(1, 301, 300));
    assert!(!is_idle(301, 1, 300));
}

#[test]
fn a_daemon_that_wakes_exits_in_time() {
    let state = Activity::started(100);
    assert_eq!(idle_watch_start(&state, 300, 150), IdleStep::Sleep(250));
    assert_eq!(idle_watch_next(&state, 300, 400), IdleStep::Exit);
}

#[test]
fn a_stale_store_is_moved_aside_and_filled_anew() {
    assert_eq!(stale_backup_path("/data/ground", 2), "/data/ground.bak-v2");
    assert_eq!(stale_backup_path("/", 2), "/ground.bak-v2");
    let mut boot = boot_start(&two_corpora(), "/data/ground", Some("bge-reranker-base"));
    let go = |boot, event| boot_next(boot, event).unwrap();
    assert_eq!(boot.step, BootStep::MakeParent);
    boot = go(boot, BootEvent::ParentMade(Ok(())));
    assert_eq!(boot.step, BootStep::LoadEmbedder);
    boot = go(boot, BootEvent::Embedder(false));
    boot = go(boot, BootEvent::Tokenizer(Ok(())));
    boot = go(boot, BootEvent::Store(StoreOpening::Stale(2)));
    assert_eq!(boot.step, BootStep::MoveStale);
    boot = go(boot, BootEvent::Moved(Ok(())));
    boot = go(boot, BootEvent::Fresh(Ok(())));
    boot = go(boot, BootEvent::RootsMissing(true));
    assert_eq!(boot.at, 1);
    boot = go(boot, BootEvent::RootsMissing(false));
    boot = go(boot, BootEvent::Indexed(Ok(())));
    assert_eq!(boot.step, BootStep::WarmCrossencoder);
    boot = go(boot, BootEvent::Crossencoder(false));
    assert_eq!(boot.step, BootStep::Ready);
}

#[test]
fn a_failed_rebuild_removes_the_new_store() {
    let mut cfg = two_corpora();
    cfg.embeddings.enabled = false;
    let mut boot = boot_start(&cfg, "ground", None);
    assert_eq!(boot.step, BootStep::LoadTokenizer, "no embedder where embeddings are off");
    boot = boot_next(boot, BootEvent::Tokenizer(Ok(()))).unwrap();
    boot = boot_next(boot, BootEvent::Store(StoreOpening::Stale(1))).unwrap();
    boot = boot_next(boot, BootEvent::Moved(Ok(()))).unwrap();
    boot = boot_next(boot, BootEvent::Fresh(Ok(()))).unwrap();
    boot = boot_next(boot, BootEvent::RootsMissing(false)).unwrap();
    boot = boot_next(boot, BootEvent::Indexed(Err("disk full".into()))).unwrap();
    assert_eq!(boot.step, BootStep::RemovePartial);
    assert_eq!(
        boot_next(boot, BootEvent::PartialRemoved).unwrap_err(),
        "rebuild: index docs: disk full"
    );
}

#[test]
fn a_store_that_cannot_be_opened_is_left_alone() {
    let mut cfg = Config::default();
    cfg.embeddings.enabled = false;
    let opening = || {
        let boot = boot_start(&cfg, "/g", None);
        let boot = boot_next(boot, BootEvent::ParentMade(Ok(()))).unwrap();
        boot_next(boot, BootEvent::Tokenizer(Ok(()))).unwrap()
    };
    assert_eq!(
        boot_next(opening(), BootEvent::Store(StoreOpening::Failed("mismatch".into()))).unwrap_err(),
        "open ground dir /g: mismatch"
    );
    let ready = boot_next(opening(), BootEvent::Store(StoreOpening::Opened)).unwrap();
    assert_eq!(ready.step, BootStep::Ready);
    let boot = boot_start(&cfg, "g", None);
    assert_eq!(
        boot_next(boot, BootEvent::Tokenizer(Err("404".into()))).unwrap_err(),
        "load tokenizer for snowflake/snowflake-arctic-embed-s: 404"
    );
}

#[test]
fn rerankers_are_loaded_once() {
    let loaded = vec![CrossencoderModel::BgeBase];
    assert_eq!(plan_crossencoder(None, &loaded).unwrap(), CrossencoderPlan::Skip);
    assert_eq!(
        plan_crossencoder(Some("bge-reranker-base"), &loaded).unwrap(),
        CrossencoderPlan::Reuse(CrossencoderModel::BgeBase)
    );
    assert_eq!(
        plan_crossencoder(Some("bge-reranker-v2-m3"), &loaded).unwrap(),
        CrossencoderPlan::Load(CrossencoderModel::BgeV2M3)
    );
    let jina = vec![CrossencoderModel::JinaV2BaseMultilingual];
    for spelling in ["jina-reranker-v2-base-multiligual", "jina-reranker-v2-base-multilingual"] {
        assert_eq!(
            plan_crossencoder(Some(spelling), &jina).unwrap(),
            CrossencoderPlan::Reuse(CrossencoderModel::JinaV2BaseMultilingual)
        );
    }
    assert_eq!(
        plan_crossencoder(Some("x"), &loaded).unwrap_err().message(),
        "unsupported crossencoder model \"x\""
    );
    assert_eq!(
        crossencoder_unavailable(CrossencoderModel::BgeBase, "404"),
        "init crossencoder (bge-reranker-base): 404"
    );
    assert_eq!(embedder_unavailable("m", "404"), "init embedder (m): 404");
}

#[test]
fn locks_are_taken_in_order_and_given_back() {
    let mut guard = MutationGuard::nothing();
    let mut seen = Vec::new();
    loop {
        let step = guard.acquire_next();
        if step == GuardStep::Settled {
            break;
        }
        seen.push(step);
        guard = guard.after(step);
    }
    loop {
        let step = guard.release_next();
        if step == GuardStep::Settled {
            break;
        }
        seen.push(step);
        guard = guard.after(step);
    }
    assert_eq!(
        seen,
        vec![
            GuardStep::TakeCorpus,
            GuardStep::TakeLane,
            GuardStep::ReleaseLane,
            GuardStep::ReleaseCorpus
        ]
    );
}

#[test]
fn the_socket_goes_before_the_lock() {
    let mut step = ServeStep::PrepareDir;
    let mut seen = Vec::new();
    while step != ServeStep::Finished {
        seen.push(step);
        step = serve_next(step, true);
    }
    assert_eq!(
        seen,
        vec![
            ServeStep::PrepareDir,
            ServeStep::Lock,
            ServeStep::Open,
            ServeStep::RemoveStale,
            ServeStep::Serve,
            ServeStep::RemoveSocket,
            ServeStep::Unlock
        ]
    );
    assert_eq!(serve_next(ServeStep::Lock, false), ServeStep::Finished);
    assert_eq!(serve_next(ServeStep::Open, false), ServeStep::Unlock);
    assert_eq!(accept_next(AcceptEvent::Shutdown), AcceptStep::Stop);
    assert_eq!(accept_next(AcceptEvent::Accepted), AcceptStep::Serve);
    assert_eq!(accept_next(AcceptEvent::Failed), AcceptStep::Continue);
    assert_eq!(socket_dir("/run/h/d.sock").as_deref(), Some("/run/h"));
    assert_eq!(socket_dir("d.sock"), None);
    assert_eq!(
        already_running("/l", "busy"),
        "another hallouminate daemon already holds /l (busy)"
    );
    assert_ne!(DaemonStatus::Running, DaemonStatus::NotRunning);
}

#[test]
fn a_daemon_has_its_time_to_stop() {
    assert_eq!(stop_next(StopStep::Ask, StopEvent::Asked(false)), Ok(StopStep::Finished));
    assert_eq!(stop_next(StopStep::Ask, StopEvent::Asked(true)), Ok(StopStep::Clock));
    assert_eq!(stop_next(StopStep::Clock, StopEvent::Elapsed(9_999)), Ok(StopStep::Poll));
    assert_eq!(
        stop_next(StopStep::Clock, StopEvent::Elapsed(10_000)),
        Err("daemon did not stop within 10s".to_string())
    );
    assert_eq!(stop_next(StopStep::Poll, StopEvent::Connected(false)), Ok(StopStep::Finished));
    assert_eq!(stop_next(StopStep::Poll, StopEvent::Connected(true)), Ok(StopStep::Sleep));
    assert_eq!(stop_next(StopStep::Sleep, StopEvent::Slept), Ok(StopStep::Clock));
    assert_eq!(stop_next(StopStep::Poll, StopEvent::Slept), Ok(StopStep::Poll));
}
