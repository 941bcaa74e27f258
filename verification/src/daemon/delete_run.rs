//! The request to delete a file of a corpus.

use vstd::prelude::*;

use crate::corpus::{is_wiki_corpus, names_wiki};
use crate::daemon::ipc::{failed, refused, DaemonResponse, DeleteMarkdownResult};
use crate::daemon::wiki::{is_access_error, map_delete_error, WikiTarget, WriteError};
use crate::text::{cat2, cat4};

verus! {

/// What the request does next.
#[derive(Debug, Clone, Copy, PartialEq, Eq, Structural)]
pub enum DeleteStep {
    /// Take the lock of the corpus and the lane for writes.
    Lock,
    /// Look what is there.
    Stat,
    /// Delete the file.
    Unlink,
    /// Delete the rows of the file.
    DeleteRows,
    /// Rewrite the index pages of the wiki.
    Rebuild,
    /// Answer.
    Finished,
}

/// What is there.
#[derive(Debug)]
pub enum FileStat {
    /// Nothing.
    NotFound,
    /// The file system failed.
    Unknown(String),
    /// A symbolic link.
    Link,
    /// Neither a file nor a link.
    Other,
    /// A file, with its name in the store.
    File(String),
    /// A file whose name cannot be written as text; this is how it is shown.
    NamelessFile(String),
}

/// Why a file was not deleted.
#[derive(Debug)]
pub enum UnlinkFailure {
    /// It could not be.
    Refused(WriteError),
    /// The task that deleted it broke down.
    Panicked(String),
}

/// What came of a step.
#[derive(Debug)]
pub enum DeleteEvent {
    Locked(Result<(), String>),
    Stat(FileStat),
    Unlinked(Result<(), UnlinkFailure>),
    RowsDeleted(Result<(), String>),
    Rebuilt(Result<(), String>),
}

/// A request to delete a file that is being served.
#[derive(Debug)]
pub struct DeleteRun {
    pub target: WikiTarget,
    /// Where the file is.
    pub dest: String,
    /// The name of the file in the store, once it is known.
    pub file_ref: String,
    pub step: DeleteStep,
}

/// The request, before anything is done.  `target` has been checked.
pub fn delete_start(target: WikiTarget) -> (out: DeleteRun)
    ensures
        out.target == target,
        out.dest@ == target.dest(),
        out.file_ref@ == Seq::<char>::empty(),
        out.step == DeleteStep::Lock,
{
    let dest = target.path();
    DeleteRun { target, dest, file_ref: String::new(), step: DeleteStep::Lock }
}

/// Whether `out` is what follows when it was seen what is there.
pub open spec fn stat_follows(
    run: DeleteRun,
    stat: FileStat,
    out: Result<DeleteRun, DaemonResponse>,
) -> bool {
    let relative = run.target.relative@;
    match stat {
        FileStat::NotFound => refused(out, relative + " does not exist"@),
        FileStat::Unknown(detail) => failed(out, "stat "@ + run.dest@ + ": "@ + detail@),
        FileStat::Link => refused(out, "refusing to delete symlink "@ + relative),
        FileStat::Other => refused(out, relative + " is not a regular file"@),
        FileStat::NamelessFile(shown) => failed(out, "non-utf8 path: "@ + shown@),
        FileStat::File(file_ref) => out matches Ok(next) && next == (DeleteRun {
            file_ref,
            step: DeleteStep::Unlink,
            ..run
        }),
    }
}

/// Whether `out` is what follows.  What does not answer the step changes
/// nothing.
pub open spec fn delete_follows(
    run: DeleteRun,
    event: DeleteEvent,
    out: Result<DeleteRun, DaemonResponse>,
) -> bool {
    match (run.step, event) {
        (DeleteStep::Lock, DeleteEvent::Locked(Ok(_))) => out matches Ok(next) && next == (
        DeleteRun { step: DeleteStep::Stat, ..run }),
        (DeleteStep::Lock, DeleteEvent::Locked(Err(detail))) => failed(out, detail@),
        (DeleteStep::Stat, DeleteEvent::Stat(stat)) => stat_follows(run, stat, out),
        (DeleteStep::Unlink, DeleteEvent::Unlinked(Ok(_))) => out matches Ok(next) && next == (
        DeleteRun { step: DeleteStep::DeleteRows, ..run }),
        (
            DeleteStep::Unlink,
            DeleteEvent::Unlinked(Err(UnlinkFailure::Refused(error))),
        ) => out matches Err(response) && is_access_error(
            response,
            error,
            run.target.relative@,
            "delete"@,
            "unlink"@,
        ),
        (
            DeleteStep::Unlink,
            DeleteEvent::Unlinked(Err(UnlinkFailure::Panicked(detail))),
        ) => failed(out, "unlink task panicked: "@ + detail@),
        (DeleteStep::DeleteRows, DeleteEvent::RowsDeleted(Ok(_))) => out matches Ok(next) && next
            == (DeleteRun {
            step: if names_wiki(run.target.corpus@.name) {
                DeleteStep::Rebuild
            } else {
                DeleteStep::Finished
            },
            ..run
        }),
        (DeleteStep::DeleteRows, DeleteEvent::RowsDeleted(Err(detail))) => failed(out, detail@),
        (DeleteStep::Rebuild, DeleteEvent::Rebuilt(Ok(_))) => out matches Ok(next) && next == (
        DeleteRun { step: DeleteStep::Finished, ..run }),
        (DeleteStep::Rebuild, DeleteEvent::Rebuilt(Err(detail))) => failed(out, detail@),
        _ => out matches Ok(next) && next == run,
    }
}

/// What follows when a step is done.  Only a regular file is deleted, and its
/// rows go only when it is gone.
pub fn delete_next(run: DeleteRun, event: DeleteEvent) -> (out: Result<DeleteRun, DaemonResponse>)
    ensures
        delete_follows(run, event, out),
{
    let mut run = run;
    match (run.step, event) {
        (DeleteStep::Lock, DeleteEvent::Locked(got)) => match got {
            Ok(_) => {
                run.step = DeleteStep::Stat;
                Ok(run)
            },
            Err(detail) => Err(DaemonResponse::internal(detail.as_str())),
        },
        (DeleteStep::Stat, DeleteEvent::Stat(stat)) => {
            let relative = run.target.relative.as_str();
            match stat {
                FileStat::NotFound => Err(
                    DaemonResponse::invalid_params(cat2(relative, " does not exist").as_str()),
                ),
                FileStat::Unknown(detail) => Err(
                    DaemonResponse::internal(
                        cat4("stat ", run.dest.as_str(), ": ", detail.as_str()).as_str(),
                    ),
                ),
                FileStat::Link => Err(
                    DaemonResponse::invalid_params(
                        cat2("refusing to delete symlink ", relative).as_str(),
                    ),
                ),
                FileStat::Other => Err(
                    DaemonResponse::invalid_params(
                        cat2(relative, " is not a regular file").as_str(),
                    ),
                ),
                FileStat::NamelessFile(shown) => Err(
                    DaemonResponse::internal(cat2("non-utf8 path: ", shown.as_str()).as_str()),
                ),
                FileStat::File(file_ref) => {
                    run.file_ref = file_ref;
                    run.step = DeleteStep::Unlink;
                    Ok(run)
                },
            }
        },
        (DeleteStep::Unlink, DeleteEvent::Unlinked(got)) => match got {
            Ok(_) => {
                run.step = DeleteStep::DeleteRows;
                Ok(run)
            },
            Err(failure) => match failure {
                UnlinkFailure::Refused(error) => Err(
                    map_delete_error(&error, run.target.relative.as_str()),
                ),
                UnlinkFailure::Panicked(detail) => Err(
                    DaemonResponse::internal(
                        cat2("unlink task panicked: ", detail.as_str()).as_str(),
                    ),
                ),
            },
        },
        (DeleteStep::DeleteRows, DeleteEvent::RowsDeleted(got)) => match got {
            Ok(_) => {
                run.step = if is_wiki_corpus(&run.target.corpus) {
                    DeleteStep::Rebuild
                } else {
                    DeleteStep::Finished
                };
                Ok(run)
            },
            Err(detail) => Err(DaemonResponse::internal(detail.as_str())),
        },
        (DeleteStep::Rebuild, DeleteEvent::Rebuilt(got)) => match got {
            Ok(_) => {
                run.step = DeleteStep::Finished;
                Ok(run)
            },
            Err(detail) => Err(DaemonResponse::internal(detail.as_str())),
        },
        _ => Ok(run),
    }
}

/// The answer to a request that is finished.
pub fn delete_result(run: DeleteRun) -> (out: DeleteMarkdownResult)
    requires
        run.step is Finished,
    ensures
        out.corpus@ == run.target.corpus@.name,
        out.path@ == run.target.relative@,
        out.absolute_path == run.dest,
        out.file_ref == run.file_ref,
{
    DeleteMarkdownResult {
        corpus: run.target.corpus.name.clone(),
        path: run.target.relative.clone(),
        absolute_path: run.dest,
        file_ref: run.file_ref,
    }
}

/// The steps of a request that is being served, told by numbers that grow.
pub open spec fn delete_rank(step: DeleteStep) -> int {
    match step {
        DeleteStep::Lock => 0,
        DeleteStep::Stat => 1,
        DeleteStep::Unlink => 2,
        DeleteStep::DeleteRows => 3,
        DeleteStep::Rebuild => 4,
        DeleteStep::Finished => 5,
    }
}

/// A request never goes back: the file is deleted only after it was looked at,
/// its rows only after it is deleted, and each at most once.  Index pages are
/// rewritten, and the request ends, only after the rows were deleted.
pub proof fn delete_goes_forward(
    run: DeleteRun,
    event: DeleteEvent,
    out: Result<DeleteRun, DaemonResponse>,
)
    requires
        delete_follows(run, event, out),
    ensures
        out matches Ok(next) ==> delete_rank(run.step) <= delete_rank(next.step) && next.target
            == run.target,
        out matches Ok(next) ==> (next.step is Unlink && !(run.step is Unlink) ==> (event
            matches DeleteEvent::Stat(FileStat::File(_)))),
        out matches Ok(next) ==> (next.step is DeleteRows && !(run.step is DeleteRows) ==> (event
            matches DeleteEvent::Unlinked(Ok(_)))),
        out matches Ok(next) ==> (next.step is Rebuild && !(run.step is Rebuild) ==> run.step
            is DeleteRows && (event matches DeleteEvent::RowsDeleted(Ok(_)))),
        out matches Ok(next) ==> (next.step is Finished && !(run.step is Finished) ==> (run.step
            is DeleteRows && (event matches DeleteEvent::RowsDeleted(Ok(_)))) || (run.step
            is Rebuild && (event matches DeleteEvent::Rebuilt(Ok(_))))),
{
}

/// Whether the request was served in these states, one event after the other.
pub open spec fn delete_trace(states: Seq<DeleteRun>, events: Seq<DeleteEvent>) -> bool {
    &&& states.len() == events.len() + 1
    &&& forall|i: int|
        0 <= i < events.len() ==> #[trigger] delete_follows(
            states[i],
            events[i],
            Ok(states[i + 1]),
        )
}

/// Whether the state and the event are those in which the rows were deleted.
pub open spec fn rows_went(run: DeleteRun, event: DeleteEvent) -> bool {
    run.step is DeleteRows && (event matches DeleteEvent::RowsDeleted(Ok(_)))
}

/// The index pages are rewritten, and the request is finished, only after the
/// rows of the file were deleted.
pub proof fn rows_go_before_the_end(states: Seq<DeleteRun>, events: Seq<DeleteEvent>, i: int)
    requires
        delete_trace(states, events),
        states[0].step is Lock,
        0 <= i < states.len(),
        states[i].step is Rebuild || states[i].step is Finished,
    ensures
        exists|j: int| 0 <= j < i && #[trigger] rows_went(states[j], events[j]),
    decreases i,
{
    if i > 0 {
        let j = i - 1;
        assert(delete_follows(states[j], events[j], Ok(states[j + 1])));
        if states[j].step is Rebuild || states[j].step is Finished {
            rows_go_before_the_end(states, events, j);
        } else {
            assert(rows_went(states[j], events[j]));
        }
    }
}

/// Whether the file was seen and was a regular one at this point, with this name
/// in the store.
pub open spec fn seen_at(
    states: Seq<DeleteRun>,
    events: Seq<DeleteEvent>,
    k: int,
    file_ref: String,
) -> bool {
    &&& 0 <= k < events.len()
    &&& states[k].step is Stat
    &&& events[k] == DeleteEvent::Stat(FileStat::File(file_ref))
}

/// Whether the file was deleted at this point.
pub open spec fn unlinked_at(states: Seq<DeleteRun>, events: Seq<DeleteEvent>, k: int) -> bool {
    &&& 0 <= k < events.len()
    &&& states[k].step is Unlink
    &&& events[k] matches DeleteEvent::Unlinked(Ok(_))
}

/// Whether the index pages were rewritten at this point.
pub open spec fn pages_rebuilt_at(
    states: Seq<DeleteRun>,
    events: Seq<DeleteEvent>,
    k: int,
) -> bool {
    &&& 0 <= k < events.len()
    &&& states[k].step is Rebuild
    &&& events[k] matches DeleteEvent::Rebuilt(Ok(_))
}

proof fn delete_does_what_comes_first(states: Seq<DeleteRun>, events: Seq<DeleteEvent>, i: int)
    requires
        delete_trace(states, events),
        states[0].step is Lock,
        0 <= i < states.len(),
    ensures
        states[i].target == states[0].target,
        states[i].dest == states[0].dest,
        delete_rank(states[i].step) >= 2 ==> exists|k: int|
            k < i && #[trigger] seen_at(states, events, k, states[i].file_ref),
        delete_rank(states[i].step) >= 3 ==> exists|k: int|
            k < i && #[trigger] unlinked_at(states, events, k),
        states[i].step is Finished && names_wiki(states[0].target.corpus@.name) ==> exists|k: int|
            k < i && #[trigger] pages_rebuilt_at(states, events, k),
    decreases i,
{
    if i > 0 {
        let j = i - 1;
        delete_does_what_comes_first(states, events, j);
        assert(delete_follows(states[j], events[j], Ok(states[j + 1])));
        let was = states[j];
        let now = states[i];
        if delete_rank(was.step) >= 2 {
            let k = choose|k: int| k < j && #[trigger] seen_at(states, events, k, was.file_ref);
            assert(seen_at(states, events, k, now.file_ref) && k < i);
        } else if was.step is Stat && now.step is Unlink {
            assert(seen_at(states, events, j, now.file_ref));
        }
        if delete_rank(was.step) >= 3 {
            let k = choose|k: int| k < j && #[trigger] unlinked_at(states, events, k);
            assert(unlinked_at(states, events, k) && k < i);
        } else if was.step is Unlink && now.step is DeleteRows {
            assert(unlinked_at(states, events, j));
        }
        if was.step is Finished && names_wiki(states[0].target.corpus@.name) {
            let k = choose|k: int| k < j && #[trigger] pages_rebuilt_at(states, events, k);
            assert(pages_rebuilt_at(states, events, k) && k < i);
        } else if was.step is Rebuild && now.step is Finished {
            assert(pages_rebuilt_at(states, events, j));
        }
    }
}

/// A request that is finished has done all that it was for: the file was there,
/// and was deleted, then its rows were, and where the corpus is a wiki its index
/// pages were rewritten.  The answer names the file that was seen.
pub proof fn finished_deletions_are_complete(states: Seq<DeleteRun>, events: Seq<DeleteEvent>)
    requires
        delete_trace(states, events),
        states[0].step is Lock,
        states.last().step is Finished,
    ensures
        states.last().target == states[0].target,
        states.last().dest == states[0].dest,
        exists|k: int| #[trigger] seen_at(states, events, k, states.last().file_ref),
        exists|k: int| #[trigger] unlinked_at(states, events, k),
        exists|k: int|
            0 <= k < events.len() && #[trigger] rows_went(states[k], events[k]),
        names_wiki(states[0].target.corpus@.name) ==> exists|k: int| #[trigger] pages_rebuilt_at(
            states,
            events,
            k,
        ),
{
    let i = states.len() - 1;
    delete_does_what_comes_first(states, events, i);
    rows_go_before_the_end(states, events, i);
    let j = choose|j: int| 0 <= j < i && #[trigger] rows_went(states[j], events[j]);
    assert(rows_went(states[j], events[j]));
}

/// Only a regular file is deleted: what is not there, what is a link and what is
/// something else is refused, each for what it is.
pub proof fn only_files_are_deleted(
    run: DeleteRun,
    stat: FileStat,
    out: Result<DeleteRun, DaemonResponse>,
)
    requires
        run.step is Stat,
        delete_follows(run, DeleteEvent::Stat(stat), out),
    ensures
        out is Ok <==> stat is File,
        stat is NotFound ==> refused(out, run.target.relative@ + " does not exist"@),
        stat is Link ==> refused(out, "refusing to delete symlink "@ + run.target.relative@),
        stat is Other ==> refused(out, run.target.relative@ + " is not a regular file"@),
{
}

/// A step that fails ends the request with what went wrong.
pub proof fn failed_deletions_are_told(
    run: DeleteRun,
    event: DeleteEvent,
    detail: String,
    out: Result<DeleteRun, DaemonResponse>,
)
    requires
        delete_follows(run, event, out),
        match run.step {
            DeleteStep::Lock => event == DeleteEvent::Locked(Err(detail)),
            DeleteStep::DeleteRows => event == DeleteEvent::RowsDeleted(Err(detail)),
            DeleteStep::Rebuild => event == DeleteEvent::Rebuilt(Err(detail)),
            _ => false,
        },
    ensures
        failed(out, detail@),
{
}

/// A step that succeeds leads to the next one, so that a request whose steps all
/// succeed comes to its end.
pub proof fn deletions_that_succeed_lead_on(
    run: DeleteRun,
    event: DeleteEvent,
    out: Result<DeleteRun, DaemonResponse>,
)
    requires
        delete_follows(run, event, out),
        match run.step {
            DeleteStep::Lock => event matches DeleteEvent::Locked(Ok(_)),
            DeleteStep::Stat => event matches DeleteEvent::Stat(FileStat::File(_)),
            DeleteStep::Unlink => event matches DeleteEvent::Unlinked(Ok(_)),
            DeleteStep::DeleteRows => event matches DeleteEvent::RowsDeleted(Ok(_)),
            DeleteStep::Rebuild => event matches DeleteEvent::Rebuilt(Ok(_)),
            DeleteStep::Finished => false,
        },
    ensures
        out matches Ok(next) && (delete_rank(next.step) == delete_rank(run.step) + 1 || (run.step
            is DeleteRows && next.step is Finished && !names_wiki(run.target.corpus@.name))),
        run.step is DeleteRows && names_wiki(run.target.corpus@.name) ==> out->Ok_0.step is Rebuild,
{
}

/// What cannot be looked at, or cannot be named, is a failure and not the matter
/// of the caller.
pub proof fn files_that_cannot_be_seen_are_failures(
    run: DeleteRun,
    detail: String,
    unknown: Result<DeleteRun, DaemonResponse>,
    nameless: Result<DeleteRun, DaemonResponse>,
)
    requires
        run.step is Stat,
        delete_follows(run, DeleteEvent::Stat(FileStat::Unknown(detail)), unknown),
        delete_follows(run, DeleteEvent::Stat(FileStat::NamelessFile(detail)), nameless),
    ensures
        failed(unknown, "stat "@ + run.dest@ + ": "@ + detail@),
        failed(nameless, "non-utf8 path: "@ + detail@),
{
}

} // verus!
