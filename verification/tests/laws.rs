use hallouminate::cli::init_repo::plan_init_repo;
use hallouminate::config::{parse, resolve_repo_layer_paths, Config};
use hallouminate::corpus::{
    derived_corpus_name, effective_corpora, CorpusConfig, RepoCorpusKind, RepositoryConfig,
};
use hallouminate::daemon::add_run::{add_next, add_start, AddEvent, AddStep};
use hallouminate::daemon::endpoint::lock_path_for;
use hallouminate::daemon::ipc::{AddMarkdownRequest, Position};
use hallouminate::daemon::locks::{CorpusLockMap, GuardStep, MutationGuard};
use hallouminate::daemon::read::read_result;
use hallouminate::daemon::wiki::{safe_relative_path, WikiTarget};
use hallouminate::index::{fold_apply_stats, ApplyStats};
use hallouminate::models::canonical_model_name;
use hallouminate::path::{is_same_path, is_within, join, strip_prefix};
use hallouminate::store::sql::escape_sql_str;
use hallouminate::text::{decimal_text, join_list, parse_decimal, split_on};

fn repository(name: &str, path: &str) -> RepositoryConfig {
    RepositoryConfig { name: name.into(), path: path.into(), ..Default::default() }
}

#[test]
fn numbers_read_back() {
    for n in [0, 7, 10, 409, u64::MAX] {
        assert_eq!(parse_decimal(&decimal_text(n)), Some(n));
    }
    assert_eq!(parse_decimal("+1"), None);
}

#[test]
fn pieces_join_again() {
    for text in ["", "/", "a//b/", "a"] {
        assert_eq!(join_list(&split_on(text, '/'), "/"), text);
    }
}

#[test]
fn directories_hold_what_their_directories_hold() {
    assert!(is_within("/a/b/c", "/a/b") && is_within("/a/b", "/a") && is_within("/a/b/c", "/a"));
    assert!(is_within("/a/b/", "/a//b") && is_within("/a//b", "/a/b/"));
    assert!(is_same_path("/a/b/", "/a//b"));
    let relative = safe_relative_path("x//y.md").unwrap();
    let whole = join("/r/w", &relative);
    assert!(is_within(&whole, "/r/w"));
    assert_eq!(strip_prefix(&whole, "/r/w"), Some(relative));
}

#[test]
fn canonical_names_stay() {
    let known = canonical_model_name("BAAI/bge-small-en-v1.5").unwrap();
    assert_eq!(canonical_model_name(&known).unwrap(), known);
}

#[test]
fn loaded_configurations_load_again() {
    let cfg = Config { repositories: vec![repository("r", "/r")], ..Default::default() };
    let once = parse(Ok(cfg), None).expect("usable");
    let twice = parse(Ok(once.copy()), None).expect("usable");
    assert_eq!(once, twice);
}

#[test]
fn settled_paths_stay() {
    let mut cfg = Config { repositories: vec![repository("r", ".")], ..Default::default() };
    resolve_repo_layer_paths(&mut cfg, "/w/r");
    assert_eq!(cfg.repositories[0].path, "/w/r/.");
    let settled = cfg.copy();
    resolve_repo_layer_paths(&mut cfg, "/elsewhere");
    assert_eq!(cfg, settled);
}

#[test]
fn names_of_corpora_are_distinct() {
    let list = effective_corpora(&vec![], &vec![repository("a", "/a"), repository("b", "/b")])
        .expect("distinct");
    let names: Vec<&str> = list.iter().map(|c| c.name.as_str()).collect();
    assert_eq!(names, vec!["repo:a:wiki", "repo:b:wiki"]);
    let shadow = CorpusConfig {
        name: "repo:a:wiki".into(),
        paths: vec!["/x".into()],
        ..Default::default()
    };
    assert!(effective_corpora(&vec![shadow], &vec![repository("a", "/a")]).is_err());
}

#[test]
fn repositories_that_were_set_up_can_be_named() {
    assert!(plan_init_repo("demo", "/r", false, false, false).is_ok());
    assert!(derived_corpus_name("demo", RepoCorpusKind::Wiki).is_ok());
}

#[test]
fn counts_can_be_counted_in_any_order() {
    let a = ApplyStats { files_upserted: 1, chunks_inserted: 2, ..Default::default() };
    let b = ApplyStats { files_deleted: 3, chunks_inserted: 4, ..Default::default() };
    let (mut left, mut right) = (a, b);
    fold_apply_stats(&mut left, &b);
    fold_apply_stats(&mut right, &a);
    assert_eq!(left, right);
}

#[test]
fn different_sockets_have_different_locks() {
    assert_ne!(lock_path_for("/run/a.sock"), lock_path_for("/run/b.sock"));
}

#[test]
fn literals_of_different_texts_differ() {
    assert_eq!(escape_sql_str("o'clock"), "o''clock");
    assert_ne!(escape_sql_str("a'"), escape_sql_str("a''"));
    assert_eq!(escape_sql_str("plain"), "plain");
}

#[test]
fn the_lane_is_taken_last() {
    let held = MutationGuard::nothing().after(GuardStep::TakeCorpus);
    assert_eq!(held.acquire_next(), GuardStep::TakeLane);
    let both = held.after(GuardStep::TakeLane);
    assert_eq!(both.acquire_next(), GuardStep::Settled);
    assert_eq!(both.release_next(), GuardStep::ReleaseLane);
}

#[test]
fn each_corpus_has_one_lock() {
    let mut locks = CorpusLockMap::empty();
    let a = locks.lock("a");
    let b = locks.lock("b");
    assert_ne!(a, b);
    assert_eq!((locks.lock("a"), locks.lock("b")), (a, b));
    assert_eq!(locks.names, vec!["a", "b"]);
}

#[test]
fn pages_read_back_as_they_were_sent() {
    let target = || WikiTarget {
        corpus: CorpusConfig { name: "docs".into(), paths: vec!["/d".into()], ..Default::default() },
        root: "/d".into(),
        relative: "a.md".into(),
    };
    let req = AddMarkdownRequest {
        corpus: "docs".into(),
        path: "a.md".into(),
        content: "# Käse\n\n\u{1f9c0} no newline".into(),
        overwrite: false,
        under_heading: None,
        position: Position::Append,
        replace_lines: None,
        replace_match: None,
    };
    let run = add_start(target(), &req, vec![], false).expect("starts");
    let run = add_next(run, AddEvent::Locked(Ok(()))).expect("goes on");
    assert_eq!(run.step, AddStep::Write);
    let read = read_result(&target(), Ok(run.bytes())).expect("is text");
    assert_eq!(read.content, req.content);
    assert_eq!(read.bytes, req.content.len() as u64);
}
