use hallouminate::daemon::client::DaemonRpcError;
use hallouminate::daemon::ipc::{
    AddMarkdownResult, CorpusEntry, CorpusStatsResult, DeleteMarkdownResult, FileEntry, LineRange,
    Position, TreeNode,
};
use hallouminate::footnotes::{apply_footnote_mode, get_footnote_target};
use hallouminate::index::{ApplyStats, CorpusReport, IndexReport};
use hallouminate::mcp::{
    add_markdown_text, corpus_stats_text, cwd_from_peer, delete_markdown_text, footnote_text,
    get_footnote, index_summary, list_corpora_text, list_files_text, map_daemon_err, number_lines,
    read_markdown_text, read_text,
    render_tree_outline, to_structured, AddMarkdownParams, CallError, FootnoteMode,
    GetFootnoteParams, GroundParams, IndexParams,
};

#[test]
fn map_daemon_err_routes_invalid_params_to_minus_32602() {
    let mapped = map_daemon_err(&CallError::Rpc(DaemonRpcError::invalid_params(
        "bad corpus name",
    )));
    assert_eq!(mapped.code, -32602);
    assert!(mapped.message.contains("bad corpus name"));
}

#[test]
fn map_daemon_err_routes_internal_to_minus_32603() {
    let mapped = map_daemon_err(&CallError::Rpc(DaemonRpcError::internal("disk on fire")));
    assert_eq!(mapped.code, -32603);
    assert!(mapped.message.contains("disk on fire"));
}

#[test]
fn map_daemon_err_routes_transport_failure_to_minus_32603() {
    let mapped = map_daemon_err(&CallError::Transport(
        "daemon unavailable: socket missing".to_string(),
    ));
    assert_eq!(mapped.code, -32603);
    assert!(mapped.message.contains("daemon unavailable"));
}

#[test]
fn to_structured_maps_serialize_failure_to_internal_error() {
    let err = to_structured(Err("nope".to_string())).expect_err("serialize must fail");
    assert_eq!(err.code, -32603);
    assert!(err.message.contains("nope"));
    let value = serde_json::Value::Bool(true);
    assert_eq!(to_structured(Ok(value.clone())).unwrap(), value);
}

#[test]
fn number_lines_renders_cat_n_gutters() {
    let result = number_lines("foo\nbar");
    assert_eq!(result, "     1\tfoo\n     2\tbar\n");
}

#[test]
fn number_lines_empty_input_produces_empty_output() {
    assert_eq!(number_lines(""), "");
}

#[test]
fn number_lines_agrees_with_the_standard_library() {
    for content in ["a", "a\n", "a\r\nb", "\n\n", "a\rb\n", "a\r", "x\n\ny\r\n"] {
        let mut expected = String::new();
        for (number, line) in content.lines().enumerate() {
            expected.push_str(&format!("{:>6}\t{}\n", number + 1, line));
        }
        assert_eq!(number_lines(content), expected, "{content:?}");
        assert_eq!(read_text(content.to_string(), true), expected);
        assert_eq!(read_text(content.to_string(), false), content);
    }
}

fn entry(path: &str) -> FileEntry {
    FileEntry { path: path.to_string(), absolute_path: format!("/w/{path}") }
}

#[test]
fn trees_are_outlined_with_directories_first() {
    let root = TreeNode {
        path: String::new(),
        absolute_path: "/w".to_string(),
        files: vec![entry("index.md")],
        subdirs: vec![TreeNode {
            path: "adapters".to_string(),
            absolute_path: "/w/adapters".to_string(),
            files: vec![entry("adapters/lance.md"), entry("adapters/mcp.md")],
            subdirs: vec![TreeNode {
                path: "adapters/deep".to_string(),
                absolute_path: "/w/adapters/deep".to_string(),
                files: Vec::new(),
                subdirs: Vec::new(),
            }],
        }],
    };
    let mut out = String::from(">");
    render_tree_outline(&root, 0, &mut out);
    assert_eq!(
        out,
        ">./\n  adapters/\n    deep/\n    lance.md\n    mcp.md\n  index.md\n"
    );
    let mut deeper = String::new();
    render_tree_outline(&root.subdirs[0].subdirs[0], 2, &mut deeper);
    assert_eq!(deeper, "    deep/\n");
}

#[test]
fn the_working_directory_is_the_first_local_root() {
    let roots = |list: &[&str]| -> Vec<String> { list.iter().map(|r| r.to_string()).collect() };
    assert_eq!(cwd_from_peer(None, "/start"), "/start");
    assert_eq!(cwd_from_peer(Some(&roots(&[])), "/start"), "/start");
    assert_eq!(cwd_from_peer(Some(&roots(&["file:///w/r", "file:///x"])), "/start"), "/w/r");
    assert_eq!(cwd_from_peer(Some(&roots(&["http://x", "file:///x"])), "/start"), "/start");
    assert_eq!(cwd_from_peer(Some(&roots(&["file://"])), "/start"), "/start");
}

#[test]
fn answers_are_put_into_words() {
    let stats = ApplyStats {
        files_upserted: 1,
        files_touched: 2,
        files_deleted: 3,
        files_skipped_empty: 4,
        chunks_inserted: 5,
        embeddings_inserted: 6,
    };
    let report = IndexReport {
        corpora: vec![CorpusReport::of("docs", &stats), CorpusReport::of("notes", &stats)],
        warnings: Vec::new(),
    };
    assert_eq!(
        index_summary(&report),
        "docs: upserted=1 touched=2 deleted=3 chunks+=5\n\
         notes: upserted=1 touched=2 deleted=3 chunks+=5"
    );
    assert_eq!(list_files_text(&vec![entry("a.md"), entry("b/c.md")]), "a.md\nb/c.md");
    let entries = vec![
        CorpusEntry { name: "docs".into(), paths: vec!["/d".into()] },
        CorpusEntry { name: "notes".into(), paths: vec!["/n".into()] },
    ];
    assert_eq!(list_corpora_text(&entries), "docs\nnotes");
    let mut added = AddMarkdownResult {
        corpus: "docs".into(),
        path: "a.md".into(),
        absolute_path: "/d/a.md".into(),
        indexed: report,
        warnings: Vec::new(),
    };
    assert_eq!(add_markdown_text(&added), "wrote a.md and refreshed corpus docs");
    added.warnings = vec!["empty link".into(), "heading jump".into()];
    assert_eq!(
        add_markdown_text(&added),
        "wrote a.md and refreshed corpus docs\n\n\
         lint warnings (advisory, file was written as-is):\n- empty link\n- heading jump"
    );
    assert_eq!(
        delete_markdown_text(&DeleteMarkdownResult {
            corpus: "docs".into(),
            path: "a.md".into(),
            absolute_path: "/d/a.md".into(),
            file_ref: "/d/a.md".into(),
        }),
        "deleted a.md from corpus docs"
    );
    let mut health = CorpusStatsResult {
        corpus: "docs".into(),
        indexed_files: 2,
        total_chunks: 9,
        last_indexed_ms: Some(-5),
        unindexed_files: 0,
    };
    assert_eq!(
        corpus_stats_text(&health),
        "corpus: docs\nindexed_files: 2\ntotal_chunks: 9\nlast_indexed_ms: -5\nunindexed_files: 0"
    );
    health.last_indexed_ms = None;
    assert!(corpus_stats_text(&health).contains("last_indexed_ms: null"));
}

#[test]
fn a_missing_footnote_is_the_callers_error() {
    assert_eq!(footnote_text(Some("src".into()), "1", "a.md").unwrap(), "src");
    let err = footnote_text(None, "1", "a.md").unwrap_err();
    assert_eq!(err.code, -32602);
    assert_eq!(err.message, "footnote [^1] not found in a.md");
}

const NOTED: &str = "# A\n\nOne socket.[^1] Two[^note]!\n\n[^1]: src/server.rs:42\n  and more\n[^note]:  why \n";

#[test]
fn footnotes_are_shown_as_asked() {
    assert_eq!(apply_footnote_mode(NOTED, FootnoteMode::Include), NOTED);
    assert_eq!(
        apply_footnote_mode(NOTED, FootnoteMode::Exclude),
        "# A\n\nOne socket. Two!\n\n"
    );
    assert_eq!(
        apply_footnote_mode(NOTED, FootnoteMode::Only),
        "[^1]: src/server.rs:42\n[^note]:  why \n"
    );
    assert_eq!(apply_footnote_mode("a [x] [^] b", FootnoteMode::Exclude), "a [x] [^] b");
    let only = apply_footnote_mode(NOTED, FootnoteMode::Only);
    assert_eq!(apply_footnote_mode(&only, FootnoteMode::Only), only);
    assert_eq!(
        read_markdown_text(NOTED, FootnoteMode::Only, true),
        "     1\t[^1]: src/server.rs:42\n     2\t[^note]:  why \n"
    );
    assert_eq!(read_markdown_text(NOTED, FootnoteMode::Include, false), NOTED);
}

#[test]
fn footnotes_are_looked_up_by_label() {
    assert_eq!(get_footnote(NOTED, "1", "a.md").unwrap(), "src/server.rs:42");
    assert_eq!(get_footnote(NOTED, "note", "a.md").unwrap(), "why");
    assert_eq!(
        get_footnote(NOTED, "2", "a.md").unwrap_err().message,
        "footnote [^2] not found in a.md"
    );
    assert_eq!(get_footnote_target("see [^1]: inline\n", "1"), None);
}

#[test]
fn parameters_become_requests() {
    let ground = GroundParams {
        query: "q".into(),
        corpus: None,
        top_files: Some(1),
        chunks_per_file: Some(2),
        limit: Some(3),
        snippet_chars: Some(4),
        footnotes: FootnoteMode::Include,
    }
    .request();
    assert_eq!(ground.query, "q");
    assert_eq!(
        (ground.top_files, ground.chunks_per_file, ground.limit, ground.snippet_chars),
        (Some(1), Some(2), Some(3), Some(4))
    );
    let index = IndexParams { corpus: Some("docs".into()) }.request();
    assert_eq!(index.corpus.as_deref(), Some("docs"));
    assert!(!index.strict);
    let add = AddMarkdownParams {
        corpus: "docs".into(),
        path: "a.md".into(),
        content: "# A".into(),
        overwrite: true,
        under_heading: None,
        position: Position::Prepend,
        replace_lines: Some(LineRange { start: 1, end: 2 }),
        replace_match: None,
    }
    .request();
    assert_eq!((add.corpus.as_str(), add.path.as_str()), ("docs", "a.md"));
    assert!(add.overwrite);
    assert_eq!(add.position, Position::Prepend);
    assert_eq!(add.replace_lines, Some(LineRange { start: 1, end: 2 }));
    let read = GetFootnoteParams {
        corpus: None,
        page: "a.md".into(),
        footnote_number: "1".into(),
    }
    .request();
    assert_eq!(read.path, "a.md");
    assert!(read.corpus.is_none());
}
