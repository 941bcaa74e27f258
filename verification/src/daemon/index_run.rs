//! The index request: corpus by corpus, under the lock of each.

use vstd::prelude::*;

use crate::config::Config;
use crate::corpus::{
    all_corpora, corpora_fault, corpus_models, corpus_named, find_corpus, not_found_message,
    not_found_text, CorpusConfig, CorpusModel, NO_CORPORA,
};
use crate::daemon::dispatch::effective_corpora;
use crate::daemon::ipc::{failed, refused, DaemonResponse, IndexRequest};
use crate::index::{is_report, ApplyStats, CorpusReport, IndexReport};
use crate::text::{cat2, cat5, debug_quote, debug_text, join_list, join_with, opt_view, views};

verus! {

/// What the request does next for the corpus at hand.
#[derive(Debug, Clone, Copy, PartialEq, Eq, Structural)]
pub enum IndexRunStep {
    /// Take the lock of the corpus and the lane for writes.
    Lock,
    /// Look for the directories of the corpus.
    Roots,
    /// Get the embedder.
    Embedder,
    /// Index the corpus.
    Index,
    /// All corpora are done.
    Finished,
}

/// What came of a step.
#[derive(Debug)]
pub enum IndexRunEvent {
    Locked(Result<(), String>),
    /// The directories that are not there.
    Missing(Vec<String>),
    Embedder(Result<(), String>),
    Indexed(Result<ApplyStats, String>),
}

/// An index request that is being served.
#[derive(Debug)]
pub struct IndexRun {
    /// The corpora to index.
    pub selected: Vec<CorpusConfig>,
    /// The one at hand.
    pub at: usize,
    /// What has been done so far.
    pub report: IndexReport,
    /// Whether a corpus whose directories are missing ends the request.
    pub strict: bool,
    pub embeddings_enabled: bool,
    pub step: IndexRunStep,
}

/// The message for a request with a file of paths.
pub const PATHS_FROM_UNSUPPORTED: &'static str = "paths_from is not supported via the daemon yet";

/// What a message says of the directories of a corpus that are not there.
pub open spec fn missing_message(name: Seq<char>, missing: Seq<Seq<char>>) -> Seq<char> {
    "corpus "@ + debug_text(name) + ": root "@ + join_with(missing, ", "@) + " does not exist"@
}

/// The step with which the corpus at `at` begins.
pub open spec fn begin_at(at: int, count: nat) -> IndexRunStep {
    if at < count {
        IndexRunStep::Lock
    } else {
        IndexRunStep::Finished
    }
}

impl IndexRun {
    /// Every corpus before the one at hand has been reported on or warned of,
    /// and the request is finished exactly when there is none at hand.
    pub open spec fn well_formed(&self) -> bool {
        &&& self.at <= self.selected@.len()
        &&& self.step is Finished <==> self.at == self.selected@.len()
        &&& self.report.corpora@.len() + self.report.warnings@.len() == self.at
        &&& self.strict ==> self.report.warnings@.len() == 0
    }
}

/// Which corpora a request to index means, or the message that refuses it.
pub open spec fn indexed_corpora(all: Seq<CorpusModel>, requested: Option<Seq<char>>) -> Result<
    Seq<CorpusModel>,
    Seq<char>,
> {
    match requested {
        Some(name) => match corpus_named(all, name) {
            Some(found) => Ok(seq![found]),
            None => Err(not_found_message(name)),
        },
        None => if all.len() == 0 {
            Err(NO_CORPORA@)
        } else {
            Ok(all)
        },
    }
}

/// The index request, before anything is done: the named corpus, or all.
pub fn index_start(cfg: &Config, req: &IndexRequest, embeddings_enabled: bool) -> (out: Result<
    IndexRun,
    DaemonResponse,
>)
    ensures
        req.paths_from is Some ==> refused(out, PATHS_FROM_UNSUPPORTED@),
        req.paths_from is None ==> match corpora_fault(cfg@.corpora, cfg@.repositories) {
            Some(fault) => failed(out, fault),
            None => match indexed_corpora(
                all_corpora(cfg@.corpora, cfg@.repositories),
                opt_view(req.corpus),
            ) {
                Err(message) => refused(out, message),
                Ok(selected) => out matches Ok(run) && run.well_formed() && corpus_models(
                    run.selected@,
                ) == selected && run.at == 0 && run.report.corpora@.len() == 0
                    && run.report.warnings@.len() == 0 && run.strict == req.strict
                    && run.embeddings_enabled == embeddings_enabled && run.step
                    == IndexRunStep::Lock,
            },
        },
{
    match &req.paths_from {
        Some(_) => {
            return Err(DaemonResponse::invalid_params(PATHS_FROM_UNSUPPORTED));
        },
        None => {},
    }
    let corpora = match effective_corpora(cfg) {
        Ok(list) => list,
        Err(response) => {
            return Err(response);
        },
    };
    let selected = match &req.corpus {
        Some(name) => match find_corpus(&corpora, name.as_str()) {
            Some(i) => {
                let mut list: Vec<CorpusConfig> = Vec::new();
                list.push(corpora[i].copy());
                proof {
                    assert(corpus_models(list@) =~= seq![corpora@[i as int]@]);
                }
                list
            },
            None => {
                return Err(
                    DaemonResponse::invalid_params(not_found_text(name.as_str()).as_str()),
                );
            },
        },
        None => {
            if corpora.len() == 0 {
                return Err(DaemonResponse::invalid_params(NO_CORPORA));
            }
            corpora
        },
    };
    proof {
        assert(corpus_models(selected@).len() == selected@.len());
    }
    Ok(
        IndexRun {
            selected,
            at: 0,
            report: IndexReport { corpora: Vec::new(), warnings: Vec::new() },
            strict: req.strict,
            embeddings_enabled,
            step: IndexRunStep::Lock,
        },
    )
}

/// Whether `next` is the run with only its step changed.
pub open spec fn stepped(run: IndexRun, next: IndexRun, step: IndexRunStep) -> bool {
    next == (IndexRun { step, ..run })
}

/// Whether `next` goes on with the corpus after the one at hand.
pub open spec fn moved_on(run: IndexRun, next: IndexRun) -> bool {
    &&& next.selected == run.selected
    &&& next.at == run.at + 1
    &&& next.strict == run.strict
    &&& next.embeddings_enabled == run.embeddings_enabled
    &&& next.step == begin_at(run.at + 1, run.selected@.len())
}

/// Whether `out` is what follows.  What does not answer the step changes
/// nothing.
pub open spec fn index_follows(
    run: IndexRun,
    event: IndexRunEvent,
    out: Result<IndexRun, DaemonResponse>,
) -> bool {
    let corpus = run.selected@[run.at as int]@;
    match (run.step, event) {
        (IndexRunStep::Lock, IndexRunEvent::Locked(Ok(_))) => out matches Ok(next) && stepped(
            run,
            next,
            IndexRunStep::Roots,
        ),
        (IndexRunStep::Lock, IndexRunEvent::Locked(Err(detail))) => failed(out, detail@),
        (IndexRunStep::Roots, IndexRunEvent::Missing(missing)) => if missing@.len() == 0 {
            out matches Ok(next) && stepped(
                run,
                next,
                if run.embeddings_enabled {
                    IndexRunStep::Embedder
                } else {
                    IndexRunStep::Index
                },
            )
        } else if run.strict {
            refused(out, missing_message(corpus.name, views(missing@)))
        } else {
            out matches Ok(next) && moved_on(run, next) && next.report.corpora
                == run.report.corpora && views(next.report.warnings@) == views(
                run.report.warnings@,
            ).push(missing_message(corpus.name, views(missing@)) + "; skipped"@)
        },
        (IndexRunStep::Embedder, IndexRunEvent::Embedder(Ok(_))) => out matches Ok(next)
            && stepped(run, next, IndexRunStep::Index),
        (IndexRunStep::Embedder, IndexRunEvent::Embedder(Err(detail))) => failed(out, detail@),
        (IndexRunStep::Index, IndexRunEvent::Indexed(Ok(stats))) => out matches Ok(next)
            && moved_on(run, next) && next.report.warnings == run.report.warnings
            && next.report.corpora@.len() == run.report.corpora@.len() + 1
            && next.report.corpora@.drop_last() == run.report.corpora@ && is_report(
            next.report.corpora@.last(),
            corpus.name,
            stats,
        ),
        (IndexRunStep::Index, IndexRunEvent::Indexed(Err(detail))) => failed(out, detail@),
        _ => out matches Ok(next) && next == run,
    }
}

fn missing_text(name: &str, missing: &Vec<String>) -> (out: String)
    ensures
        out@ == missing_message(name@, views(missing@)),
{
    cat5(
        "corpus ",
        debug_quote(name).as_str(),
        ": root ",
        join_list(missing, ", ").as_str(),
        " does not exist",
    )
}

fn step_at(at: usize, count: usize) -> (out: IndexRunStep)
    ensures
        out == begin_at(at as int, count as nat),
{
    if at < count {
        IndexRunStep::Lock
    } else {
        IndexRunStep::Finished
    }
}

/// What follows when a step is done.  A lock, an embedder or an index that
/// fails ends the request.  A corpus whose directories are missing ends it only
/// where the request is strict; otherwise it is passed over with a warning.
pub fn index_next(run: IndexRun, event: IndexRunEvent) -> (out: Result<IndexRun, DaemonResponse>)
    requires
        run.well_formed(),
    ensures
        index_follows(run, event, out),
        out matches Ok(next) ==> next.well_formed(),
{
    let mut run = run;
    let count: usize = run.selected.len();
    match (run.step, event) {
        (IndexRunStep::Lock, IndexRunEvent::Locked(got)) => match got {
            Ok(_) => {
                run.step = IndexRunStep::Roots;
                Ok(run)
            },
            Err(detail) => Err(DaemonResponse::internal(detail.as_str())),
        },
        (IndexRunStep::Roots, IndexRunEvent::Missing(missing)) => {
            if missing.len() == 0 {
                run.step = if run.embeddings_enabled {
                    IndexRunStep::Embedder
                } else {
                    IndexRunStep::Index
                };
                return Ok(run);
            }
            let text = missing_text(run.selected[run.at].name.as_str(), &missing);
            if run.strict {
                return Err(DaemonResponse::invalid_params(text.as_str()));
            }
            let ghost before = run.report.warnings@;
            run.report.warnings.push(cat2(text.as_str(), "; skipped"));
            proof {
                assert(views(run.report.warnings@) =~= views(before).push(
                    run.report.warnings@.last()@,
                ));
            }
            run.at = run.at + 1;
            run.step = step_at(run.at, count);
            Ok(run)
        },
        (IndexRunStep::Embedder, IndexRunEvent::Embedder(got)) => match got {
            Ok(_) => {
                run.step = IndexRunStep::Index;
                Ok(run)
            },
            Err(detail) => Err(DaemonResponse::internal(detail.as_str())),
        },
        (IndexRunStep::Index, IndexRunEvent::Indexed(got)) => match got {
            Ok(stats) => {
                let ghost before = run.report.corpora@;
                let report = CorpusReport::of(run.selected[run.at].name.as_str(), &stats);
                run.report.corpora.push(report);
                proof {
                    assert(run.report.corpora@.drop_last() =~= before);
                }
                run.at = run.at + 1;
                run.step = step_at(run.at, count);
                Ok(run)
            },
            Err(detail) => Err(DaemonResponse::internal(detail.as_str())),
        },
        _ => Ok(run),
    }
}

/// When the request is finished, every corpus that it meant has been reported
/// on or warned of; a strict request that is finished reported on all of them.
pub proof fn finished_run_covers_all(run: IndexRun)
    requires
        run.well_formed(),
        run.step is Finished,
    ensures
        run.report.corpora@.len() + run.report.warnings@.len() == run.selected@.len(),
        run.strict ==> run.report.corpora@.len() == run.selected@.len(),
{
}

/// A request means the corpus that it names, the first of that name, and where it
/// names none, all of them.
pub proof fn requests_mean_the_named_corpus_or_all(
    all: Seq<CorpusModel>,
    name: Seq<char>,
    i: int,
)
    ensures
        0 <= i < all.len() && all[i].name == name && (forall|j: int|
            0 <= j < i ==> (#[trigger] all[j]).name != name) ==> indexed_corpora(all, Some(name))
            == Ok::<Seq<CorpusModel>, Seq<char>>(seq![all[i]]),
        (forall|j: int| 0 <= j < all.len() ==> (#[trigger] all[j]).name != name)
            ==> indexed_corpora(all, Some(name)) is Err,
        all.len() > 0 ==> indexed_corpora(all, None) == Ok::<Seq<CorpusModel>, Seq<char>>(all),
        all.len() == 0 ==> indexed_corpora(all, None) is Err,
{
    if 0 <= i < all.len() && all[i].name == name && (forall|j: int|
        0 <= j < i ==> (#[trigger] all[j]).name != name) {
        crate::corpus::the_first_of_a_name_is_found(all, name, i);
    }
    if forall|j: int| 0 <= j < all.len() ==> (#[trigger] all[j]).name != name {
        crate::corpus::the_first_of_a_name_is_found(all, name, all.len() as int);
    }
}

/// A corpus is left for the next one when it was indexed, and is then reported on
/// under its name with its counts; or when its directories are missing and the
/// request is not strict, and is then warned of by name, with all that is
/// missing.
pub proof fn corpora_are_reported_on_or_warned_of(
    run: IndexRun,
    event: IndexRunEvent,
    next: IndexRun,
)
    requires
        run.well_formed(),
        index_follows(run, event, Ok(next)),
        next.at != run.at,
    ensures
        next.at == run.at + 1,
        next.selected == run.selected,
        next.step == if next.at < run.selected@.len() {
            IndexRunStep::Lock
        } else {
            IndexRunStep::Finished
        },
        run.step is Index || run.step is Roots,
        run.step is Index ==> (event matches IndexRunEvent::Indexed(Ok(stats)) && {
            let report = next.report.corpora@.last();
            &&& next.report.corpora@.drop_last() == run.report.corpora@
            &&& next.report.warnings == run.report.warnings
            &&& report.name@ == run.selected@[run.at as int]@.name
            &&& report.files_upserted == stats.files_upserted
            &&& report.files_touched == stats.files_touched
            &&& report.files_deleted == stats.files_deleted
            &&& report.files_skipped_empty == stats.files_skipped_empty
            &&& report.chunks_inserted == stats.chunks_inserted
            &&& report.embeddings_inserted == stats.embeddings_inserted
        }),
        run.step is Roots ==> !run.strict && (event matches IndexRunEvent::Missing(missing) && {
            &&& missing@.len() > 0
            &&& next.report.corpora == run.report.corpora
            &&& views(next.report.warnings@) == views(run.report.warnings@).push(
                "corpus "@ + debug_text(run.selected@[run.at as int]@.name) + ": root "@
                    + join_with(views(missing@), ", "@) + " does not exist"@ + "; skipped"@,
            )
        }),
{
}

/// A corpus whose directories are there is indexed, with the embedder where texts
/// are embedded; in a strict request one whose directories are missing ends the
/// request.
pub proof fn corpora_that_are_there_are_indexed(
    run: IndexRun,
    missing: Vec<String>,
    out: Result<IndexRun, DaemonResponse>,
)
    requires
        run.step is Roots,
        index_follows(run, IndexRunEvent::Missing(missing), out),
    ensures
        missing@.len() == 0 ==> (out matches Ok(next) && next.at == run.at && next.report
            == run.report && next.step == if run.embeddings_enabled {
            IndexRunStep::Embedder
        } else {
            IndexRunStep::Index
        }),
        missing@.len() > 0 && run.strict ==> out is Err,
        missing@.len() > 0 && !run.strict ==> out is Ok,
{
}

/// A corpus is looked for under its lock, and indexed once the embedder is there;
/// a lock or an embedder that cannot be had, and an index that fails, end the
/// request with what went wrong.
pub proof fn corpora_are_indexed_under_their_lock(
    run: IndexRun,
    detail: String,
    locked: Result<IndexRun, DaemonResponse>,
    ready: Result<IndexRun, DaemonResponse>,
    failure: Result<IndexRun, DaemonResponse>,
)
    requires
        index_follows(
            (IndexRun { step: IndexRunStep::Lock, ..run }),
            IndexRunEvent::Locked(Ok(())),
            locked,
        ),
        index_follows(
            (IndexRun { step: IndexRunStep::Embedder, ..run }),
            IndexRunEvent::Embedder(Ok(())),
            ready,
        ),
        match run.step {
            IndexRunStep::Lock => index_follows(run, IndexRunEvent::Locked(Err(detail)), failure),
            IndexRunStep::Embedder => index_follows(
                run,
                IndexRunEvent::Embedder(Err(detail)),
                failure,
            ),
            IndexRunStep::Index => index_follows(run, IndexRunEvent::Indexed(Err(detail)), failure),
            _ => false,
        },
    ensures
        locked == Ok::<IndexRun, DaemonResponse>((IndexRun { step: IndexRunStep::Roots, ..run })),
        ready == Ok::<IndexRun, DaemonResponse>((IndexRun { step: IndexRunStep::Index, ..run })),
        failed(failure, detail@),
{
}

} // verus!
