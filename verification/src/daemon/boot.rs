//! How the daemon comes up: its models, its store, and what is done about a
//! store that an older build wrote.

use vstd::prelude::*;

use crate::config::Config;
use crate::corpus::{all_corpora, corpora_fault, corpus_models, effective_corpora, CorpusConfig};
use crate::path::{
    dot_dot, ends_in_name, file_name, file_name_of, is_name, joined, parent, parent_of, renamed,
    with_file_name,
};
use crate::text::{
    cat2, cat3, cat4, decimal, decimal_text, opt_str_view, opt_view, owned, owned_opt,
};

verus! {

/// How many tokens a chunk holds at most.
pub const CHUNK_BUDGET_TOKENS: usize = 384;

/// How often the store is tidied up, in seconds.
pub const MAINTENANCE_INTERVAL_SECS: u64 = 1800;

/// How old a version of the store must be before it is thrown away, in seconds,
/// so that no search loses the version that it reads.
pub const MAINTENANCE_PRUNE_GRACE_SECS: u64 = 300;

/// Where a store is moved that was written with layout `found`.
pub open spec fn backup_path(ground_dir: Seq<char>, found: u32) -> Seq<char> {
    let name = match file_name(ground_dir) {
        Some(name) => name,
        None => "ground"@,
    };
    renamed(ground_dir, name + ".bak-v"@ + decimal(found as nat))
}

/// Where a store is moved that was written with layout `found`.
pub fn stale_backup_path(ground_dir: &str, found: u32) -> (out: String)
    ensures
        out@ == backup_path(ground_dir@, found),
{
    let name = match file_name_of(ground_dir) {
        Some(name) => name,
        None => owned("ground"),
    };
    let number = decimal_text(found as u64);
    with_file_name(ground_dir, cat3(name.as_str(), ".bak-v", number.as_str()).as_str())
}

/// What the daemon does next to come up.
#[derive(Debug, Clone, Copy, PartialEq, Eq, Structural)]
pub enum BootStep {
    /// Make the directory that holds the store.
    MakeParent,
    /// Load the embedder.
    LoadEmbedder,
    /// Load the tokenizer.
    LoadTokenizer,
    /// Open the store.
    OpenStore,
    /// Move the store out of the way.
    MoveStale,
    /// Open a store in its place.
    OpenFresh,
    /// Look for the directories of the corpus at hand.
    CheckRoots,
    /// Index the corpus at hand.
    Reindex,
    /// Remove the store that was not filled.
    RemovePartial,
    /// Load the reranker.
    WarmCrossencoder,
    /// Serve.
    Ready,
}

/// How opening the store ended.
#[derive(Debug)]
pub enum StoreOpening {
    Opened,
    /// It was written with this older layout.
    Stale(u32),
    Failed(String),
}

/// What came of a step.
#[derive(Debug)]
pub enum BootEvent {
    ParentMade(Result<(), String>),
    /// Whether the embedder could be loaded.
    Embedder(bool),
    Tokenizer(Result<(), String>),
    Store(StoreOpening),
    Moved(Result<(), String>),
    Fresh(Result<(), String>),
    /// Whether directories of the corpus are missing.
    RootsMissing(bool),
    Indexed(Result<(), String>),
    PartialRemoved,
    /// Whether the reranker could be loaded.
    Crossencoder(bool),
}

/// A daemon that is coming up.
#[derive(Debug)]
pub struct Boot {
    /// The directory of the store, with the home directory filled in.
    pub ground_dir: String,
    pub model: String,
    pub embeddings_enabled: bool,
    /// The reranker that is loaded at once, if any.
    pub crossencoder: Option<String>,
    /// The corpora that a new store is filled with, or why there are none.
    pub corpora: Result<Vec<CorpusConfig>, String>,
    /// Whether the embedder was loaded.
    pub has_embedder: bool,
    /// The layout of the store that was moved out of the way, if one was.
    pub found: Option<u32>,
    /// The corpus at hand.
    pub at: usize,
    /// Why the new store was not filled.
    pub failure: String,
    pub step: BootStep,
}

/// Whether a directory has to be made to hold the store.
pub open spec fn has_parent(ground_dir: Seq<char>) -> bool {
    parent(ground_dir) matches Some(dir) && dir.len() > 0
}

/// The step that follows when there is a place for the store.
pub open spec fn after_parent(embeddings_enabled: bool) -> BootStep {
    if embeddings_enabled {
        BootStep::LoadEmbedder
    } else {
        BootStep::LoadTokenizer
    }
}

/// The step that follows when the store is open.
pub open spec fn after_store(crossencoder: Option<String>) -> BootStep {
    if crossencoder is Some {
        BootStep::WarmCrossencoder
    } else {
        BootStep::Ready
    }
}

/// How many corpora a new store is filled with.
pub open spec fn corpus_count(boot: Boot) -> nat {
    match boot.corpora {
        Ok(list) => list@.len(),
        Err(_) => 0,
    }
}

/// The step with which the corpus at `at` begins.
pub open spec fn corpus_begins(boot: Boot, at: int) -> BootStep {
    if at < corpus_count(boot) {
        BootStep::CheckRoots
    } else {
        after_store(boot.crossencoder)
    }
}

impl Boot {
    /// While a corpus is at hand there is one, a store is filled only where one
    /// was moved out of the way, and the daemon serves a store that was filled
    /// only when every corpus had its turn.
    pub open spec fn well_formed(&self) -> bool {
        &&& self.at <= corpus_count(*self)
        &&& (self.step is CheckRoots || self.step is Reindex) ==> self.at < corpus_count(*self)
            && self.found is Some
        &&& (self.step is MoveStale || self.step is OpenFresh || self.step is RemovePartial)
            ==> self.found is Some
        &&& (self.step is MakeParent || self.step is LoadEmbedder || self.step is LoadTokenizer
            || self.step is OpenStore) ==> self.found is None
        &&& self.found is None ==> self.at == 0
        &&& (self.step is WarmCrossencoder || self.step is Ready) && self.found is Some
            ==> self.corpora is Ok && self.at == corpus_count(*self)
        &&& self.has_embedder ==> self.embeddings_enabled
        &&& self.step is LoadEmbedder ==> self.embeddings_enabled
        &&& self.step is WarmCrossencoder ==> self.crossencoder is Some
    }
}

/// The daemon, before anything is done.  `ground_dir` is the directory of the
/// store with the home directory filled in.
pub fn boot_start(
    cfg: &Config,
    ground_dir: &str,
    crossencoder: Option<&str>,
) -> (out: Boot)
    ensures
        out.well_formed(),
        out.ground_dir@ == ground_dir@,
        out.model@ == cfg@.model,
        out.embeddings_enabled == cfg@.embeddings_enabled,
        opt_view(out.crossencoder) == opt_str_view(crossencoder),
        match corpora_fault(cfg@.corpora, cfg@.repositories) {
            Some(fault) => out.corpora matches Err(message) && message@ == fault,
            None => out.corpora matches Ok(list) && corpus_models(list@) == all_corpora(
                cfg@.corpora,
                cfg@.repositories,
            ),
        },
        !out.has_embedder,
        out.found is None,
        out.at == 0,
        out.step == if has_parent(ground_dir@) {
            BootStep::MakeParent
        } else {
            after_parent(cfg@.embeddings_enabled)
        },
{
    let embeddings_enabled = cfg.embeddings.enabled;
    let corpora = match cfg.effective_corpora() {
        Ok(list) => Ok(list),
        Err(e) => Err(e.message()),
    };
    let nested = match parent_of(ground_dir) {
        Some(dir) => !dir.as_str().is_empty(),
        None => false,
    };
    let step = if nested {
        BootStep::MakeParent
    } else if embeddings_enabled {
        BootStep::LoadEmbedder
    } else {
        BootStep::LoadTokenizer
    };
    Boot {
        ground_dir: owned(ground_dir),
        model: cfg.embeddings.model.clone(),
        embeddings_enabled,
        crossencoder: owned_opt(crossencoder),
        corpora,
        has_embedder: false,
        found: None,
        at: 0,
        failure: String::new(),
        step,
    }
}

/// Whether the result is an error with the given message.
pub open spec fn ends(out: Result<Boot, String>, message: Seq<char>) -> bool {
    out matches Err(m) && m@ == message
}

/// Whether the filling of the new store is given up with the given message: the
/// store goes, so that the next start fills one again.
pub open spec fn gives_up(boot: Boot, out: Result<Boot, String>, message: Seq<char>) -> bool {
    out matches Ok(next) && next == (Boot {
        failure: next.failure,
        step: BootStep::RemovePartial,
        ..boot
    }) && next.failure@ == message
}

/// Whether `out` is what follows.  What does not answer the step changes
/// nothing.
pub open spec fn boot_follows(boot: Boot, event: BootEvent, out: Result<Boot, String>) -> bool {
    match (boot.step, event) {
        (BootStep::MakeParent, BootEvent::ParentMade(Ok(_))) => out matches Ok(next) && next == (
        Boot { step: after_parent(boot.embeddings_enabled), ..boot }),
        (BootStep::MakeParent, BootEvent::ParentMade(Err(detail))) => ends(
            out,
            "create ground dir parent: "@ + detail@,
        ),
        (BootStep::LoadEmbedder, BootEvent::Embedder(loaded)) => out matches Ok(next) && next == (
        Boot { has_embedder: loaded, step: BootStep::LoadTokenizer, ..boot }),
        (BootStep::LoadTokenizer, BootEvent::Tokenizer(Ok(_))) => out matches Ok(next) && next == (
        Boot { step: BootStep::OpenStore, ..boot }),
        (BootStep::LoadTokenizer, BootEvent::Tokenizer(Err(detail))) => ends(
            out,
            "load tokenizer for "@ + boot.model@ + ": "@ + detail@,
        ),
        (BootStep::OpenStore, BootEvent::Store(StoreOpening::Opened)) => out matches Ok(next)
            && next == (Boot { step: after_store(boot.crossencoder), ..boot }),
        (BootStep::OpenStore, BootEvent::Store(StoreOpening::Stale(found))) => out matches Ok(next)
            && next == (Boot { found: Some(found), step: BootStep::MoveStale, ..boot }),
        (BootStep::OpenStore, BootEvent::Store(StoreOpening::Failed(detail))) => ends(
            out,
            "open ground dir "@ + boot.ground_dir@ + ": "@ + detail@,
        ),
        (BootStep::MoveStale, BootEvent::Moved(Ok(_))) => out matches Ok(next) && next == (Boot {
            step: BootStep::OpenFresh,
            ..boot
        }),
        (BootStep::MoveStale, BootEvent::Moved(Err(detail))) => ends(out, detail@),
        (BootStep::OpenFresh, BootEvent::Fresh(Ok(_))) => match boot.corpora {
            Ok(list) => out matches Ok(next) && next == (Boot {
                at: 0,
                step: corpus_begins(boot, 0),
                ..boot
            }),
            Err(detail) => gives_up(boot, out, "rebuild: list corpora: "@ + detail@),
        },
        (BootStep::OpenFresh, BootEvent::Fresh(Err(detail))) => gives_up(
            boot,
            out,
            "rebuild: open fresh ground dir "@ + boot.ground_dir@ + ": "@ + detail@,
        ),
        (BootStep::CheckRoots, BootEvent::RootsMissing(missing)) => out matches Ok(next) && next
            == (if missing {
            Boot { at: (boot.at + 1) as usize, step: corpus_begins(boot, boot.at + 1), ..boot }
        } else {
            Boot { step: BootStep::Reindex, ..boot }
        }),
        (BootStep::Reindex, BootEvent::Indexed(Ok(_))) => out matches Ok(next) && next == (Boot {
            at: (boot.at + 1) as usize,
            step: corpus_begins(boot, boot.at + 1),
            ..boot
        }),
        (BootStep::Reindex, BootEvent::Indexed(Err(detail))) => gives_up(
            boot,
            out,
            "rebuild: index "@ + boot.corpora->Ok_0@[boot.at as int]@.name + ": "@ + detail@,
        ),
        (BootStep::RemovePartial, BootEvent::PartialRemoved) => ends(out, boot.failure@),
        (BootStep::WarmCrossencoder, BootEvent::Crossencoder(loaded)) => out matches Ok(next)
            && next == (Boot { step: BootStep::Ready, ..boot }),
        _ => out matches Ok(next) && next == boot,
    }
}

fn step_after_store(crossencoder: &Option<String>) -> (out: BootStep)
    ensures
        out == after_store(*crossencoder),
{
    match crossencoder {
        Some(_) => BootStep::WarmCrossencoder,
        None => BootStep::Ready,
    }
}

fn next_corpus(boot: &Boot, at: usize) -> (out: BootStep)
    ensures
        out == corpus_begins(*boot, at as int),
{
    let count: usize = match &boot.corpora {
        Ok(list) => list.len(),
        Err(_) => 0,
    };
    if at < count {
        BootStep::CheckRoots
    } else {
        step_after_store(&boot.crossencoder)
    }
}

/// What follows when a step is done.  Models that cannot be loaded yet do not
/// keep the daemon from coming up.  A store that an older build wrote is moved
/// out of the way and a new one filled; where that fails the new one is removed
/// and the daemon does not come up.  Any other failure of the store ends the
/// start and leaves the store alone.
pub fn boot_next(boot: Boot, event: BootEvent) -> (out: Result<Boot, String>)
    requires
        boot.well_formed(),
    ensures
        boot_follows(boot, event, out),
        out matches Ok(next) ==> next.well_formed(),
{
    let mut boot = boot;
    match (boot.step, event) {
        (BootStep::MakeParent, BootEvent::ParentMade(got)) => match got {
            Ok(_) => {
                boot.step = if boot.embeddings_enabled {
                    BootStep::LoadEmbedder
                } else {
                    BootStep::LoadTokenizer
                };
                Ok(boot)
            },
            Err(detail) => Err(cat2("create ground dir parent: ", detail.as_str())),
        },
        (BootStep::LoadEmbedder, BootEvent::Embedder(loaded)) => {
            boot.has_embedder = loaded;
            boot.step = BootStep::LoadTokenizer;
            Ok(boot)
        },
        (BootStep::LoadTokenizer, BootEvent::Tokenizer(got)) => match got {
            Ok(_) => {
                boot.step = BootStep::OpenStore;
                Ok(boot)
            },
            Err(detail) => Err(
                cat4("load tokenizer for ", boot.model.as_str(), ": ", detail.as_str()),
            ),
        },
        (BootStep::OpenStore, BootEvent::Store(opening)) => match opening {
            StoreOpening::Opened => {
                boot.step = step_after_store(&boot.crossencoder);
                Ok(boot)
            },
            StoreOpening::Stale(found) => {
                boot.found = Some(found);
                boot.step = BootStep::MoveStale;
                Ok(boot)
            },
            StoreOpening::Failed(detail) => Err(
                cat4("open ground dir ", boot.ground_dir.as_str(), ": ", detail.as_str()),
            ),
        },
        (BootStep::MoveStale, BootEvent::Moved(got)) => match got {
            Ok(_) => {
                boot.step = BootStep::OpenFresh;
                Ok(boot)
            },
            Err(detail) => Err(detail),
        },
        (BootStep::OpenFresh, BootEvent::Fresh(got)) => match got {
            Ok(_) => {
                match &boot.corpora {
                    Ok(_) => {},
                    Err(detail) => {
                        boot.failure = cat2("rebuild: list corpora: ", detail.as_str());
                        boot.step = BootStep::RemovePartial;
                        return Ok(boot);
                    },
                }
                boot.at = 0;
                boot.step = next_corpus(&boot, 0);
                Ok(boot)
            },
            Err(detail) => {
                boot.failure =
                cat4(
                    "rebuild: open fresh ground dir ",
                    boot.ground_dir.as_str(),
                    ": ",
                    detail.as_str(),
                );
                boot.step = BootStep::RemovePartial;
                Ok(boot)
            },
        },
        (BootStep::CheckRoots, BootEvent::RootsMissing(missing)) => {
            if missing {
                let at: usize = after_this(&boot);
                boot.at = at;
                boot.step = next_corpus(&boot, at);
            } else {
                boot.step = BootStep::Reindex;
            }
            Ok(boot)
        },
        (BootStep::Reindex, BootEvent::Indexed(got)) => match got {
            Ok(_) => {
                let at: usize = after_this(&boot);
                boot.at = at;
                boot.step = next_corpus(&boot, at);
                Ok(boot)
            },
            Err(detail) => {
                match &boot.corpora {
                    Ok(list) => {
                        boot.failure =
                        cat4(
                            "rebuild: index ",
                            list[boot.at].name.as_str(),
                            ": ",
                            detail.as_str(),
                        );
                    },
                    Err(_) => {},
                }
                boot.step = BootStep::RemovePartial;
                Ok(boot)
            },
        },
        (BootStep::RemovePartial, BootEvent::PartialRemoved) => Err(boot.failure),
        (BootStep::WarmCrossencoder, BootEvent::Crossencoder(_)) => {
            boot.step = BootStep::Ready;
            Ok(boot)
        },
        _ => Ok(boot),
    }
}

fn after_this(boot: &Boot) -> (out: usize)
    requires
        boot.well_formed(),
        boot.at < corpus_count(*boot),
    ensures
        out == boot.at + 1,
{
    match &boot.corpora {
        Ok(list) => {
            let count: usize = list.len();
            boot.at + 1
        },
        Err(_) => 0,
    }
}

/// Once the filling of a new store has failed, the daemon does not come up: the
/// store is removed, and then the start ends with the failure.
pub proof fn failed_rebuild_never_serves(boot: Boot, event: BootEvent, out: Result<Boot, String>)
    requires
        boot.step is RemovePartial,
        boot_follows(boot, event, out),
    ensures
        out matches Ok(next) ==> next == boot,
        out matches Err(message) ==> message@ == boot.failure@,
{
}

/// A store is moved out of the way only where an older build wrote it, and a
/// store is removed only where it was to take the place of one that was moved.
pub proof fn only_stale_stores_are_moved(boot: Boot, event: BootEvent, out: Result<Boot, String>)
    requires
        boot.well_formed(),
        boot_follows(boot, event, out),
    ensures
        out matches Ok(next) ==> (next.step is MoveStale && !(boot.step is MoveStale) ==> (event
            matches BootEvent::Store(StoreOpening::Stale(_)))),
        out matches Ok(next) ==> (next.step is RemovePartial ==> next.found is Some),
        out matches Ok(next) ==> (next.step is OpenFresh && !(boot.step is OpenFresh) ==> (event
            matches BootEvent::Moved(Ok(_)))),
{
}

/// A store is moved to a place beside it, under its own name with the layout that
/// it was written with.
pub proof fn backups_stand_beside_the_store(dir: Seq<char>, name: Seq<char>, found: u32)
    requires
        ends_in_name(dir),
        is_name(name),
        name != dot_dot(),
        !name.contains('/'),
    ensures
        backup_path(joined(dir, name), found) == joined(
            dir,
            name + ".bak-v"@ + decimal(found as nat),
        ),
{
    crate::path::last_names_are_those_put_last(dir, name);
    assert(renamed(joined(dir, name), name + ".bak-v"@ + decimal(found as nat)) == joined(
        dir,
        name + ".bak-v"@ + decimal(found as nat),
    ));
}

/// A corpus is left for the next one when it was indexed, or when its
/// directories are missing, and for no other reason; after the last one the
/// daemon goes on to serve.
pub proof fn every_corpus_has_its_turn(boot: Boot, event: BootEvent, next: Boot)
    requires
        boot.well_formed(),
        boot_follows(boot, event, Ok(next)),
        next.at != boot.at,
        !(boot.step is OpenFresh),
    ensures
        next.at == boot.at + 1,
        next.corpora == boot.corpora,
        (boot.step is Reindex && (event matches BootEvent::Indexed(Ok(_)))) || (boot.step
            is CheckRoots && event == BootEvent::RootsMissing(true)),
        next.at < corpus_count(boot) ==> next.step is CheckRoots,
        next.at == corpus_count(boot) ==> next.step is WarmCrossencoder || next.step is Ready,
{
    if let Ok(list) = boot.corpora {
        assert(list.len() == list@.len());
    }
}

/// A daemon comes up in order: the directory of its store, its embedder where
/// texts are embedded, its tokenizer, its store, and its reranker where it has
/// one.  A step that is done leads to the next one, and models that cannot be had
/// yet keep it from nothing.
pub proof fn daemons_come_up_in_order(boot: Boot, event: BootEvent, next: Boot)
    requires
        boot.well_formed(),
        boot_follows(boot, event, Ok(next)),
    ensures
        boot.step is MakeParent && (event matches BootEvent::ParentMade(Ok(_))) ==> next.step
            == if boot.embeddings_enabled {
            BootStep::LoadEmbedder
        } else {
            BootStep::LoadTokenizer
        },
        boot.step is LoadEmbedder && (event matches BootEvent::Embedder(_)) ==> next.step
            is LoadTokenizer && BootEvent::Embedder(next.has_embedder) == event,
        boot.step is LoadTokenizer && (event matches BootEvent::Tokenizer(Ok(_))) ==> next.step
            is OpenStore,
        boot.step is OpenStore && event == BootEvent::Store(StoreOpening::Opened) ==> next.step
            == if boot.crossencoder is Some {
            BootStep::WarmCrossencoder
        } else {
            BootStep::Ready
        },
        boot.step is OpenStore ==> (event matches BootEvent::Store(StoreOpening::Stale(found))
            ==> next.step is MoveStale && next.found == Some(found)),
        boot.step is MoveStale && (event matches BootEvent::Moved(Ok(_))) ==> next.step
            is OpenFresh,
        boot.step is OpenFresh && (event matches BootEvent::Fresh(Ok(_))) && boot.corpora is Ok
            && corpus_count(boot) > 0 ==> next.step is CheckRoots && next.at == 0,
        boot.step is CheckRoots && event == BootEvent::RootsMissing(false) ==> next.step
            is Reindex && next.at == boot.at,
        boot.step is Reindex && (event matches BootEvent::Indexed(Err(_))) ==> next.step
            is RemovePartial,
        boot.step is OpenFresh && (event matches BootEvent::Fresh(Err(_))) ==> next.step
            is RemovePartial,
        boot.step is WarmCrossencoder && (event matches BootEvent::Crossencoder(_)) ==> next.step
            is Ready,
        next.step is Ready && !(boot.step is Ready) ==> boot.step is OpenStore || boot.step
            is OpenFresh || boot.step is CheckRoots || boot.step is Reindex || boot.step
            is WarmCrossencoder,
        next.step is OpenStore && !(boot.step is OpenStore) ==> boot.step is LoadTokenizer && (
        event matches BootEvent::Tokenizer(Ok(_))),
{
}

} // verus!
