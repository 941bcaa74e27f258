use hallouminate::config::Config;
use hallouminate::corpus::CorpusConfig;
use hallouminate::daemon::watch::{
    build_watch_root, change_next, delete_file_ref, handle_changed_path, owning_corpus,
    pump_continues, report_failure, watch_candidates, watch_roots, ChangeEvent, ChangeRun,
    ChangeStep, Changed, Pending, PumpEvent, RecursiveMode, RootProbe, WatchRoot,
};

fn corpus(name: &str, root: &str, globs: &[&str]) -> CorpusConfig {
    CorpusConfig {
        name: name.into(),
        paths: vec![root.into()],
        globs: globs.iter().map(|g| g.to_string()).collect(),
        exclude: vec![],
        global: false,
    }
}

fn watch_root(watched: &str, corpus: CorpusConfig, file_root: Option<&str>) -> WatchRoot {
    let mode = if file_root.is_some() {
        RecursiveMode::NonRecursive
    } else {
        RecursiveMode::Recursive
    };
    WatchRoot {
        watched: watched.to_string(),
        canonical_watched: watched.to_string(),
        corpus,
        canonical_file_root: file_root.map(str::to_string),
        mode,
    }
}

/// Who owns the path, where the filters of each corpus take markdown only.
fn owner_name(roots: &Vec<WatchRoot>, path: &str) -> Option<String> {
    let allowed: Vec<bool> = roots.iter().map(|_| path.ends_with(".md")).collect();
    owning_corpus(roots, &allowed, path).map(|i| roots[i].corpus.name.clone())
}

#[test]
fn file_root_rejects_sibling_md_under_watched_parent() {
    let cfg = corpus("agent-config", "/home/u/.agent/AGENT.md", &["**/*.md"]);
    let roots = vec![watch_root("/home/u/.agent", cfg, Some("/home/u/.agent/AGENT.md"))];
    assert_eq!(
        owner_name(&roots, "/home/u/.agent/AGENT.md").as_deref(),
        Some("agent-config"),
        "the declared file must be a member"
    );
    assert!(
        owner_name(&roots, "/home/u/.agent/RTK.md").is_none(),
        "a sibling .md must not be attributed to a file-path corpus"
    );
}

#[test]
fn file_root_owns_declared_file_even_when_absent() {
    let cfg = corpus("agent-config", "/home/u/.agent/AGENT.md", &["**/*.md"]);
    let roots = vec![watch_root("/home/u/.agent", cfg, Some("/home/u/.agent/AGENT.md"))];
    assert_eq!(
        owner_name(&roots, "/home/u/.agent/AGENT.md").as_deref(),
        Some("agent-config"),
        "a deleted owned file must still resolve so its rows can be pruned"
    );
}

#[test]
fn dir_root_accepts_glob_matched_descendant() {
    let roots = vec![watch_root("/srv/wiki", corpus("wiki", "/srv/wiki", &["**/*.md"]), None)];
    assert_eq!(
        owner_name(&roots, "/srv/wiki/topics/spice.md").as_deref(),
        Some("wiki"),
        "a dir root must own any glob-matched descendant"
    );
    assert!(
        owner_name(&roots, "/srv/wiki/notes.txt").is_none(),
        "a non-glob-matched file under a dir root is not owned"
    );
}

#[test]
fn the_deepest_root_owns_a_file() {
    let roots = vec![
        watch_root("/srv", corpus("outer", "/srv", &[]), None),
        watch_root("/srv/wiki", corpus("inner", "/srv/wiki", &[]), None),
        watch_root("/srv/wiki", corpus("twin", "/srv/wiki", &[]), None),
    ];
    assert_eq!(owner_name(&roots, "/srv/wiki/a.md").as_deref(), Some("inner"));
    assert_eq!(owner_name(&roots, "/srv/wikis/a.md").as_deref(), Some("outer"));
    assert!(owner_name(&roots, "/etc/a.md").is_none());
}

fn linked_root() -> WatchRoot {
    WatchRoot {
        watched: "/link/wiki".to_string(),
        canonical_watched: "/real/wiki".to_string(),
        corpus: corpus("wiki", "/link/wiki", &["**/*.md"]),
        canonical_file_root: None,
        mode: RecursiveMode::Recursive,
    }
}

#[test]
fn delete_file_ref_rebuilds_under_canonical_root() {
    assert_eq!(
        delete_file_ref(&linked_root(), "/real/wiki/topics/spice.md", "/elsewhere"),
        "/real/wiki/topics/spice.md"
    );
    assert_eq!(delete_file_ref(&linked_root(), "/x/spice.md", "/elsewhere"), "/elsewhere");
}

#[test]
fn owning_corpus_matches_canonical_event_path_under_symlinked_root() {
    let roots = vec![linked_root()];
    assert_eq!(
        owner_name(&roots, "/real/wiki/topics/spice.md").as_deref(),
        Some("wiki"),
        "a canonical event path under a symlinked root must resolve to its corpus"
    );
}

#[test]
fn delete_file_ref_is_identity_for_plain_root() {
    let owner = watch_root("/srv/wiki", corpus("wiki", "/srv/wiki", &["**/*.md"]), None);
    assert_eq!(
        delete_file_ref(&owner, "/srv/wiki/topics/spice.md", "/elsewhere"),
        "/srv/wiki/topics/spice.md"
    );
}

#[test]
fn recursion_mode_is_recursive_for_dir_root_nonrecursive_for_file_root() {
    let dir_corpus = corpus("wiki", "/t/wiki", &["**/*.md"]);
    let dir = build_watch_root(
        &dir_corpus,
        "/t/wiki",
        RootProbe::Dir { canonical: "/t/wiki".to_string() },
    )
    .expect("dir root must build");
    assert_eq!(dir.mode, RecursiveMode::Recursive);
    assert_eq!(dir.watched, "/t/wiki");
    assert!(dir.canonical_file_root.is_none());

    let file = build_watch_root(
        &corpus("agent-config", "/t/AGENT.md", &["**/*.md"]),
        "/t/AGENT.md",
        RootProbe::File {
            canonical: "/t/AGENT.md".to_string(),
            canonical_parent: "/t".to_string(),
        },
    )
    .expect("file root must build");
    assert_eq!(file.mode, RecursiveMode::NonRecursive);
    assert_eq!(file.watched, "/t");
    assert_eq!(file.canonical_file_root.as_deref(), Some("/t/AGENT.md"));
}

#[test]
fn build_watch_root_skips_absent_root() {
    let cfg = corpus("ghost", "/t/not-there", &["**/*.md"]);
    assert!(
        build_watch_root(&cfg, "/t/not-there", RootProbe::Absent).is_none(),
        "an absent root must not produce a WatchRoot"
    );
}

#[test]
fn every_root_of_every_corpus_may_be_watched() {
    let mut two = corpus("two", "/a", &[]);
    two.paths.push("/b".to_string());
    let cfg = Config {
        corpora: vec![two, corpus("one", "/c", &[])],
        ..Default::default()
    };
    let list = watch_candidates(&cfg).expect("corpora can be listed");
    let roots: Vec<(&str, &str)> =
        list.iter().map(|c| (c.corpus.name.as_str(), c.root.as_str())).collect();
    assert_eq!(roots, vec![("two", "/a"), ("two", "/b"), ("one", "/c")]);
    let probes = vec![
        RootProbe::Absent,
        RootProbe::Dir { canonical: "/real/b".to_string() },
        RootProbe::Absent,
    ];
    let watched = watch_roots(&list, probes).expect("one root is there");
    assert_eq!(watched.len(), 1);
    assert_eq!(watched[0].canonical_watched, "/real/b");
    let none = vec![RootProbe::Absent, RootProbe::Absent, RootProbe::Absent];
    assert!(watch_roots(&list, none).is_none());
}

fn changed(path: &str, indexable: bool) -> Changed {
    Changed { path: path.to_string(), indexable }
}

#[test]
fn record_pending_coalesces_across_batches() {
    let mut pending = Pending::none();
    pending.record(&vec![
        changed("/srv/wiki/a.md", true),
        changed("/srv/wiki/a.md", true),
        changed("/srv/wiki/notes.docx", false),
    ]);
    pending.record(&vec![changed("/srv/wiki/b.md", true), changed("/srv/wiki/a.md", true)]);
    let mut drained = pending.drain();
    drained.sort();
    assert_eq!(drained, vec!["/srv/wiki/a.md", "/srv/wiki/b.md"]);
    assert!(pending.drain().is_empty());
}

#[test]
fn changed_files_are_indexed_and_gone_files_pruned() {
    let roots = vec![
        watch_root("/w", corpus("outer", "/w", &[]), None),
        watch_root("/w/in", corpus("inner", "/w/in", &[]), None),
    ];
    let start = || {
        handle_changed_path(&roots, &vec![true, true], "/w/in/sub/a.md", "/fallback")
            .expect("the path is owned")
    };
    assert!(handle_changed_path(&roots, &vec![false, false], "/w/in/a.md", "/f").is_none());
    assert!(handle_changed_path(&roots, &vec![true, true], "/x/a.md", "/f").is_none());
    let run = start();
    assert_eq!(run.step, ChangeStep::Lock);
    assert_eq!(
        (run.corpus.as_str(), run.path.as_str(), run.root.as_str(), run.relative.as_str()),
        ("inner", "/w/in/sub/a.md", "/w/in", "sub/a.md")
    );
    assert_eq!(run.file_ref, delete_file_ref(&roots[1], "/w/in/sub/a.md", "/fallback"));

    let stat = || change_next(start(), ChangeEvent::Locked(true), true);
    assert_eq!(stat().step, ChangeStep::Stat);
    let prune = change_next(stat(), ChangeEvent::Exists(false), true);
    assert_eq!(prune.step, ChangeStep::Prune);
    assert_eq!((prune.corpus, prune.file_ref), ("inner".to_string(), run.file_ref));

    let read = || change_next(stat(), ChangeEvent::Exists(true), true);
    let got = || ChangeEvent::Read(Some((b"# A\n".to_vec(), 42)));
    assert_eq!(change_next(read(), ChangeEvent::Read(None), true).step, ChangeStep::Finished);
    let embed = || change_next(read(), got(), true);
    assert_eq!(embed().step, ChangeStep::Embedder);
    let lexical: ChangeRun = change_next(read(), got(), false);
    assert_eq!(lexical.step, ChangeStep::Reindex);
    assert_eq!((lexical.content, lexical.mtime_ms), (b"# A\n".to_vec(), 42));
    assert_eq!(
        change_next(embed(), ChangeEvent::Embedder(false), true).step,
        ChangeStep::Finished
    );
    let index = change_next(embed(), ChangeEvent::Embedder(true), true);
    assert_eq!(index.step, ChangeStep::Reindex);
    assert_eq!((index.content.as_slice(), index.mtime_ms), (b"# A\n".as_slice(), 42));
    assert_eq!(change_next(index, ChangeEvent::Done, true).step, ChangeStep::Finished);
    assert_eq!(
        change_next(start(), ChangeEvent::Locked(false), true).step,
        ChangeStep::Finished
    );
}

#[test]
fn failures_are_not_repeated_too_soon() {
    assert!(report_failure(None, 5, 60));
    assert!(!report_failure(Some(5), 64, 60));
    assert!(report_failure(Some(5), 65, 60));
    assert!(report_failure(Some(5), 5, 0));
    assert!(!report_failure(Some(5), 4, 60));
}

#[test]
fn the_pump_runs_until_there_is_nothing_to_wait_for() {
    assert!(pump_continues(PumpEvent::Wake));
    assert!(!pump_continues(PumpEvent::Shutdown));
    assert!(!pump_continues(PumpEvent::Disconnected));
    assert!(!pump_continues(PumpEvent::TaskFailed));
}
