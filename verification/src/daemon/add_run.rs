//! The request to write a file of a corpus.

use vstd::prelude::*;
use vstd::utf8::{encode_utf8, valid_utf8};

use crate::config::Config;
use crate::corpus::{all_corpora, corpora_fault, is_wiki_corpus, names_wiki, picked, CorpusModel};
use crate::daemon::dispatch::effective_corpora;
use crate::daemon::edit::{
    apply_edit, edit_of, edited, edits_asked, is_edit_of, Edit, Page, TOO_MANY_EDITS,
};
use crate::daemon::ipc::{
    failed, refused, AddMarkdownRequest, AddMarkdownResult, DaemonResponse, ReadMarkdownResult,
};
use crate::daemon::read::{
    reading_returns_what_was_written, reads_as, text_of_bytes, utf8_fault, ReadFailure,
};
use crate::daemon::wiki::{
    is_access_error, is_write_error, map_read_error, map_write_error, target_fault, tidy,
    wiki_target, WikiTarget, WriteError,
};
use crate::index::{
    fold_apply_stats, is_report, no_stats, stats_fit, stats_sum, ApplyStats, CorpusReport,
    IndexReport,
};
use crate::markdown::{lint_markdown, lint_remarks};
use crate::text::{blank, cat2, cat3, is_blank, views};
use crate::tilde::expands_to;

verus! {

/// What the request does next.
#[derive(Debug, Clone, Copy, PartialEq, Eq, Structural)]
pub enum AddStep {
    /// Take the lock of the corpus and the lane for writes.
    Lock,
    /// Read the page that is edited.
    ReadPage,
    /// Write the file.
    Write,
    /// Ask whether the file has rows.
    Snapshot,
    /// Delete the rows of the file.
    DeleteRows,
    /// Get the embedder.
    Embedder,
    /// Index the file.
    IndexFile,
    /// Rewrite the index pages of the wiki.
    Rebuild,
    /// Answer.
    Finished,
}

/// A file that was written.
#[derive(Debug)]
pub struct Written {
    /// Where it is.
    pub dest: String,
    /// The name of the file in the store, where it can be written as text.
    pub file_ref: Option<String>,
}

/// Why a file was not written.
#[derive(Debug)]
pub enum WriteFailure {
    /// It could not be.
    Refused(WriteError),
    /// The task that wrote it broke down.
    Panicked(String),
}

/// Why a page was not read.
#[derive(Debug)]
pub enum PageReadFailure {
    /// It could not be.
    Refused(WriteError),
    /// It is no text.
    NotText(String),
    /// The task that read it broke down.
    Panicked(String),
}

/// What came of a step.
#[derive(Debug)]
pub enum AddEvent {
    Locked(Result<(), String>),
    Page(Result<Page, PageReadFailure>),
    Written(Result<Written, WriteFailure>),
    /// Whether the file has rows.
    Snapshot(Result<bool, String>),
    RowsDeleted(Result<(), String>),
    Embedder(Result<(), String>),
    Indexed(Result<ApplyStats, String>),
    Rebuilt(Result<ApplyStats, String>),
}

/// A request to write a file that is being served.
#[derive(Debug)]
pub struct AddRun {
    pub target: WikiTarget,
    pub edit: Edit,
    /// What is written; until the page was read, what an edit puts into it.
    pub content: String,
    /// Whether there is nothing to index in what is written.
    pub content_is_empty: bool,
    /// Whether a file that is there is replaced.
    pub overwrite: bool,
    pub embeddings_enabled: bool,
    /// What the author may want to mend.
    pub warnings: Vec<String>,
    /// Where the file is, once it is written.
    pub dest: String,
    /// The name of the file in the store, once it is written.
    pub file_ref: Option<String>,
    pub stats: ApplyStats,
    pub step: AddStep,
}

/// The file that a request to write means.
pub fn add_target(cfg: &Config, req: &AddMarkdownRequest) -> (out: Result<
    WikiTarget,
    DaemonResponse,
>)
    ensures
        match corpora_fault(cfg@.corpora, cfg@.repositories) {
            Some(fault) => failed(out, fault),
            None => {
                let all = all_corpora(cfg@.corpora, cfg@.repositories);
                match target_fault(all, req.corpus@, req.path@) {
                    Some(fault) => refused(out, fault),
                    None => out matches Ok(target) && picked(all, Some(req.corpus@)) == Ok::<
                        CorpusModel,
                        Seq<char>,
                    >(target.corpus@) && expands_to(target.corpus@.paths[0], target.root@)
                        && target.relative@ == tidy(req.path@),
                }
            },
        },
{
    let corpora = match effective_corpora(cfg) {
        Ok(list) => list,
        Err(response) => {
            return Err(response);
        },
    };
    wiki_target(&corpora, req.corpus.as_str(), req.path.as_str())
}

/// Whether the run is of the request and nothing of it is done yet.
pub open spec fn add_starts(
    run: AddRun,
    target: WikiTarget,
    req: AddMarkdownRequest,
    embeddings_enabled: bool,
) -> bool {
    &&& run.target == target
    &&& is_edit_of(run.edit, req)
    &&& run.content@ == req.content@
    &&& run.content_is_empty == is_blank(req.content@)
    &&& run.overwrite == req.overwrite
    &&& run.embeddings_enabled == embeddings_enabled
    &&& run.dest@ == target.dest()
    &&& run.file_ref is None
    &&& run.stats == no_stats()
    &&& run.step == AddStep::Lock
}

/// The request, before anything is done.  `target` has been checked, and
/// `warnings` are what there is to say of the content.
pub fn add_start(
    target: WikiTarget,
    req: &AddMarkdownRequest,
    warnings: Vec<String>,
    embeddings_enabled: bool,
) -> (out: Result<AddRun, DaemonResponse>)
    ensures
        edits_asked(*req) > 1 ==> refused(out, TOO_MANY_EDITS@),
        edits_asked(*req) <= 1 ==> out is Ok,
        out matches Ok(run) ==> add_starts(run, target, *req, embeddings_enabled) && run.warnings
            == warnings,
{
    let edit = match edit_of(req) {
        Ok(edit) => edit,
        Err(response) => {
            return Err(response);
        },
    };
    let dest = target.path();
    Ok(
        AddRun {
            target,
            edit,
            content: req.content.clone(),
            content_is_empty: blank(req.content.as_str()),
            overwrite: req.overwrite,
            embeddings_enabled,
            warnings,
            dest,
            file_ref: None,
            stats: ApplyStats::zero(),
            step: AddStep::Lock,
        },
    )
}

/// The request, before anything is done, with what there is to say of its
/// content: what the lint of the page says, and then `extra`.
pub fn add_start_linted(
    target: WikiTarget,
    req: &AddMarkdownRequest,
    extra: Vec<String>,
    embeddings_enabled: bool,
) -> (out: Result<AddRun, DaemonResponse>)
    ensures
        edits_asked(*req) > 1 ==> refused(out, TOO_MANY_EDITS@),
        edits_asked(*req) <= 1 ==> (out matches Ok(run) && add_starts(
            run,
            target,
            *req,
            embeddings_enabled,
        ) && views(run.warnings@) == lint_remarks(req.content@) + views(extra@)),
{
    let mut warnings = lint_markdown(req.content.as_str());
    let ghost said = views(warnings@);
    proof {
        assert(said + views(extra@).take(0) =~= said);
    }
    for i in 0..extra.len()
        invariant
            views(warnings@) == said + views(extra@).take(i as int),
    {
        let ghost before = views(warnings@);
        warnings.push(extra[i].clone());
        proof {
            let next = views(extra@)[i as int];
            assert(views(warnings@) =~= before.push(next));
            assert(said + views(extra@).take(i + 1) =~= before.push(next));
        }
    }
    proof {
        assert(views(extra@).take(extra@.len() as int) =~= views(extra@));
    }
    add_start(target, req, warnings, embeddings_enabled)
}

/// The step that follows when the rows of the file are as they should be: a
/// wiki has index pages, another corpus has none.
pub open spec fn after_rows(corpus: CorpusModel) -> AddStep {
    if names_wiki(corpus.name) {
        AddStep::Rebuild
    } else {
        AddStep::Finished
    }
}

/// The step that follows when the file is written.
pub open spec fn after_write(run: AddRun, written: Written) -> AddStep {
    if !run.content_is_empty {
        if run.embeddings_enabled {
            AddStep::Embedder
        } else {
            AddStep::IndexFile
        }
    } else if run.overwrite && written.file_ref is Some {
        AddStep::Snapshot
    } else {
        after_rows(run.target.corpus@)
    }
}

/// The counts when the file is written: one with nothing in it is not indexed.
pub open spec fn stats_after_write(run: AddRun) -> ApplyStats {
    if run.content_is_empty {
        ApplyStats { files_skipped_empty: 1, ..no_stats() }
    } else {
        run.stats
    }
}

/// Whether `out` is what follows when the page was read: the edited page is
/// written in its place.
pub open spec fn page_follows(run: AddRun, page: Page, out: Result<AddRun, DaemonResponse>) -> bool {
    match edited(run.edit, page, run.content@, run.target.relative@) {
        Ok(text) => out matches Ok(next) && next.content@ == text && next == (AddRun {
            content: next.content,
            content_is_empty: is_blank(text),
            overwrite: true,
            step: AddStep::Write,
            ..run
        }),
        Err(message) => refused(out, message),
    }
}

/// Whether `out` is what follows.  What does not answer the step changes
/// nothing.
pub open spec fn add_follows(
    run: AddRun,
    event: AddEvent,
    out: Result<AddRun, DaemonResponse>,
) -> bool {
    let corpus = run.target.corpus@;
    match (run.step, event) {
        (AddStep::Lock, AddEvent::Locked(Ok(_))) => out matches Ok(next) && next == (AddRun {
            step: if run.edit is Whole {
                AddStep::Write
            } else {
                AddStep::ReadPage
            },
            ..run
        }),
        (AddStep::Lock, AddEvent::Locked(Err(detail))) => failed(out, detail@),
        (AddStep::ReadPage, AddEvent::Page(Ok(page))) => page_follows(run, page, out),
        (AddStep::ReadPage, AddEvent::Page(Err(PageReadFailure::Refused(error)))) => out matches Err(
            response,
        ) && is_access_error(response, error, run.target.relative@, "read"@, "read"@),
        (AddStep::ReadPage, AddEvent::Page(Err(PageReadFailure::NotText(detail)))) => refused(
            out,
            run.target.relative@ + " is not valid UTF-8: "@ + detail@,
        ),
        (AddStep::ReadPage, AddEvent::Page(Err(PageReadFailure::Panicked(detail)))) => failed(
            out,
            "read task panicked: "@ + detail@,
        ),
        (AddStep::Write, AddEvent::Written(Ok(written))) => out matches Ok(next) && next == (
        AddRun {
            dest: written.dest,
            file_ref: written.file_ref,
            stats: stats_after_write(run),
            step: after_write(run, written),
            ..run
        }),
        (AddStep::Write, AddEvent::Written(Err(WriteFailure::Refused(error)))) => out matches Err(
            response,
        ) && is_write_error(response, error, run.target.relative@),
        (AddStep::Write, AddEvent::Written(Err(WriteFailure::Panicked(detail)))) => failed(
            out,
            "write task panicked: "@ + detail@,
        ),
        (AddStep::Snapshot, AddEvent::Snapshot(Ok(has_rows))) => out matches Ok(next) && next == (
        AddRun {
            step: if has_rows {
                AddStep::DeleteRows
            } else {
                after_rows(corpus)
            },
            ..run
        }),
        (AddStep::Snapshot, AddEvent::Snapshot(Err(detail))) => failed(out, detail@),
        (AddStep::DeleteRows, AddEvent::RowsDeleted(Ok(_))) => out matches Ok(next) && next == (
        AddRun {
            stats: ApplyStats { files_deleted: 1, ..run.stats },
            step: after_rows(corpus),
            ..run
        }),
        (AddStep::DeleteRows, AddEvent::RowsDeleted(Err(detail))) => failed(out, detail@),
        (AddStep::Embedder, AddEvent::Embedder(Ok(_))) => out matches Ok(next) && next == (AddRun {
            step: AddStep::IndexFile,
            ..run
        }),
        (AddStep::Embedder, AddEvent::Embedder(Err(detail))) => failed(out, detail@),
        (AddStep::IndexFile, AddEvent::Indexed(Ok(stats))) => out matches Ok(next) && next == (
        AddRun { stats, step: after_rows(corpus), ..run }),
        (AddStep::IndexFile, AddEvent::Indexed(Err(detail))) => failed(out, detail@),
        (AddStep::Rebuild, AddEvent::Rebuilt(Ok(extra))) => out matches Ok(next) && next == (
        AddRun { stats: stats_sum(run.stats, extra), step: AddStep::Finished, ..run }),
        (AddStep::Rebuild, AddEvent::Rebuilt(Err(detail))) => failed(out, detail@),
        _ => out matches Ok(next) && next == run,
    }
}

fn step_after_rows(target: &WikiTarget) -> (out: AddStep)
    ensures
        out == after_rows(target.corpus@),
{
    if is_wiki_corpus(&target.corpus) {
        AddStep::Rebuild
    } else {
        AddStep::Finished
    }
}

/// What follows when a step is done.  Any failure ends the request.  A file
/// with nothing in it is not indexed; where it replaces one that was, the old
/// rows go.
pub fn add_next(run: AddRun, event: AddEvent) -> (out: Result<AddRun, DaemonResponse>)
    requires
        event matches AddEvent::Page(Ok(page)) ==> page.well_formed(),
        event matches AddEvent::Rebuilt(Ok(extra)) ==> stats_fit(run.stats, extra),
    ensures
        add_follows(run, event, out),
{
    let mut run = run;
    match (run.step, event) {
        (AddStep::Lock, AddEvent::Locked(got)) => match got {
            Ok(_) => {
                run.step = match run.edit {
                    Edit::Whole => AddStep::Write,
                    _ => AddStep::ReadPage,
                };
                Ok(run)
            },
            Err(detail) => Err(DaemonResponse::internal(detail.as_str())),
        },
        (AddStep::ReadPage, AddEvent::Page(got)) => match got {
            Ok(page) => match apply_edit(
                &run.edit,
                &page,
                run.content.as_str(),
                run.target.relative.as_str(),
            ) {
                Ok(text) => {
                    run.content_is_empty = blank(text.as_str());
                    run.content = text;
                    run.overwrite = true;
                    run.step = AddStep::Write;
                    Ok(run)
                },
                Err(message) => Err(DaemonResponse::invalid_params(message.as_str())),
            },
            Err(failure) => match failure {
                PageReadFailure::Refused(error) => Err(
                    map_read_error(&error, run.target.relative.as_str()),
                ),
                PageReadFailure::NotText(detail) => Err(
                    DaemonResponse::invalid_params(
                        cat3(
                            run.target.relative.as_str(),
                            " is not valid UTF-8: ",
                            detail.as_str(),
                        ).as_str(),
                    ),
                ),
                PageReadFailure::Panicked(detail) => Err(
                    DaemonResponse::internal(
                        cat2("read task panicked: ", detail.as_str()).as_str(),
                    ),
                ),
            },
        },
        (AddStep::Write, AddEvent::Written(got)) => match got {
            Ok(written) => {
                run.step = if !run.content_is_empty {
                    if run.embeddings_enabled {
                        AddStep::Embedder
                    } else {
                        AddStep::IndexFile
                    }
                } else if run.overwrite && written.file_ref.is_some() {
                    AddStep::Snapshot
                } else {
                    step_after_rows(&run.target)
                };
                if run.content_is_empty {
                    run.stats = ApplyStats::zero();
                    run.stats.files_skipped_empty = 1;
                }
                run.dest = written.dest;
                run.file_ref = written.file_ref;
                Ok(run)
            },
            Err(failure) => match failure {
                WriteFailure::Refused(error) => Err(
                    map_write_error(&error, run.target.relative.as_str()),
                ),
                WriteFailure::Panicked(detail) => Err(
                    DaemonResponse::internal(
                        cat2("write task panicked: ", detail.as_str()).as_str(),
                    ),
                ),
            },
        },
        (AddStep::Snapshot, AddEvent::Snapshot(got)) => match got {
            Ok(has_rows) => {
                run.step = if has_rows {
                    AddStep::DeleteRows
                } else {
                    step_after_rows(&run.target)
                };
                Ok(run)
            },
            Err(detail) => Err(DaemonResponse::internal(detail.as_str())),
        },
        (AddStep::DeleteRows, AddEvent::RowsDeleted(got)) => match got {
            Ok(_) => {
                run.stats.files_deleted = 1;
                run.step = step_after_rows(&run.target);
                Ok(run)
            },
            Err(detail) => Err(DaemonResponse::internal(detail.as_str())),
        },
        (AddStep::Embedder, AddEvent::Embedder(got)) => match got {
            Ok(_) => {
                run.step = AddStep::IndexFile;
                Ok(run)
            },
            Err(detail) => Err(DaemonResponse::internal(detail.as_str())),
        },
        (AddStep::IndexFile, AddEvent::Indexed(got)) => match got {
            Ok(stats) => {
                run.stats = stats;
                run.step = step_after_rows(&run.target);
                Ok(run)
            },
            Err(detail) => Err(DaemonResponse::internal(detail.as_str())),
        },
        (AddStep::Rebuild, AddEvent::Rebuilt(got)) => match got {
            Ok(extra) => {
                let mut stats = run.stats;
                fold_apply_stats(&mut stats, &extra);
                run.stats = stats;
                run.step = AddStep::Finished;
                Ok(run)
            },
            Err(detail) => Err(DaemonResponse::internal(detail.as_str())),
        },
        _ => Ok(run),
    }
}

/// The page that is edited, from what reading its file gave: a file that is not
/// UTF-8 is no page.
pub fn page_of(read: Result<Vec<u8>, ReadFailure>) -> (out: Result<Page, PageReadFailure>)
    ensures
        match read {
            Err(ReadFailure::Refused(error)) => out == Err::<Page, PageReadFailure>(
                PageReadFailure::Refused(error),
            ),
            Err(ReadFailure::Panicked(detail)) => out == Err::<Page, PageReadFailure>(
                PageReadFailure::Panicked(detail),
            ),
            Ok(bytes) => if valid_utf8(bytes@) {
                out matches Ok(page) && encode_utf8(page.text@) == bytes@ && page.is_whole()
            } else {
                out matches Err(PageReadFailure::NotText(fault)) && fault@ == utf8_fault(bytes@)
            },
        },
{
    match read {
        Ok(bytes) => match text_of_bytes(bytes) {
            Ok(text) => Ok(Page::of(text)),
            Err(fault) => Err(PageReadFailure::NotText(fault)),
        },
        Err(ReadFailure::Refused(error)) => Err(PageReadFailure::Refused(error)),
        Err(ReadFailure::Panicked(detail)) => Err(PageReadFailure::Panicked(detail)),
    }
}

impl AddRun {
    /// The bytes that are written.
    pub fn bytes(&self) -> (out: Vec<u8>)
        ensures
            out@ == encode_utf8(self.content@),
    {
        self.content.as_str().as_bytes_vec()
    }
}

/// The answer to a request that is finished.
pub fn add_result(run: AddRun) -> (out: AddMarkdownResult)
    requires
        run.step is Finished,
    ensures
        out.corpus@ == run.target.corpus@.name,
        out.path@ == run.target.relative@,
        out.absolute_path == run.dest,
        out.warnings == run.warnings,
        out.indexed.warnings@.len() == 0,
        out.indexed.corpora@.len() == 1,
        is_report(out.indexed.corpora@[0], run.target.corpus@.name, run.stats),
{
    let mut corpora: Vec<CorpusReport> = Vec::new();
    corpora.push(CorpusReport::of(run.target.corpus.name.as_str(), &run.stats));
    AddMarkdownResult {
        corpus: run.target.corpus.name.clone(),
        path: run.target.relative.clone(),
        absolute_path: run.dest,
        indexed: IndexReport { corpora, warnings: Vec::new() },
        warnings: run.warnings,
    }
}

/// Whether the state of a request fits its step: a file with nothing in it is
/// counted as skipped from the moment it is written and is never embedded or
/// indexed, rows are deleted only where a file was replaced by one with
/// nothing in it, and an edit is made to a page that was read and takes its
/// place.
pub open spec fn add_consistent(run: AddRun) -> bool {
    &&& (run.step is Embedder || run.step is IndexFile) ==> !run.content_is_empty
    &&& run.step is Embedder ==> run.embeddings_enabled
    &&& (run.step is Snapshot || run.step is DeleteRows) ==> run.content_is_empty && run.overwrite
        && run.file_ref is Some
    &&& run.step is ReadPage ==> !(run.edit is Whole)
    &&& !(run.edit is Whole) && !(run.step is Lock || run.step is ReadPage) ==> run.overwrite
    &&& run.step is Rebuild ==> names_wiki(run.target.corpus@.name)
    &&& run.content_is_empty && !(run.step is Lock || run.step is ReadPage || run.step is Write
        || run.step is Finished) ==> run.stats.files_skipped_empty == 1 && run.stats.chunks_inserted == 0
        && run.stats.embeddings_inserted == 0 && run.stats.files_upserted == 0
}

/// The state of a request fits its step from its start on, whatever happens.
pub proof fn add_stays_consistent(
    run: AddRun,
    event: AddEvent,
    out: Result<AddRun, DaemonResponse>,
)
    requires
        add_consistent(run),
        add_follows(run, event, out),
    ensures
        out matches Ok(next) ==> add_consistent(next),
{
}

/// Where a request writes is settled when it starts, and what it writes too,
/// but for an edit, which needs the page.
pub proof fn add_keeps_its_target(
    run: AddRun,
    event: AddEvent,
    out: Result<AddRun, DaemonResponse>,
)
    requires
        add_follows(run, event, out),
    ensures
        out matches Ok(next) ==> next.target == run.target && next.edit == run.edit
            && next.warnings == run.warnings && (!(run.step is ReadPage) ==> next.content
            == run.content && next.overwrite == run.overwrite && next.content_is_empty
            == run.content_is_empty),
        run.step is Finished ==> out == Ok::<AddRun, DaemonResponse>(run),
{
}

/// Whether the request was served in these states, one event after the other.
pub open spec fn add_trace(states: Seq<AddRun>, events: Seq<AddEvent>) -> bool {
    &&& states.len() == events.len() + 1
    &&& forall|i: int|
        0 <= i < events.len() ==> #[trigger] add_follows(
            states[i],
            events[i],
            Ok(states[i + 1]),
        )
}

/// A page that is sent as a whole is written verbatim, whatever happens until
/// then.
pub proof fn whole_pages_are_written_verbatim(
    states: Seq<AddRun>,
    events: Seq<AddEvent>,
    i: int,
)
    requires
        add_trace(states, events),
        states[0].edit is Whole,
        states[0].step is Lock,
        0 <= i < states.len(),
    ensures
        states[i].edit is Whole,
        !(states[i].step is ReadPage),
        states[i].content == states[0].content,
        states[i].overwrite == states[0].overwrite,
        states[i].target == states[0].target,
    decreases i,
{
    if i > 0 {
        let j = i - 1;
        whole_pages_are_written_verbatim(states, events, j);
        assert(add_follows(states[j], events[j], Ok(states[j + 1])));
    }
}

/// What is said of the content when a request starts is what its answer says,
/// whatever happens until then.
pub proof fn remarks_reach_the_answer(
    states: Seq<AddRun>,
    events: Seq<AddEvent>,
    i: int,
)
    requires
        add_trace(states, events),
        0 <= i < states.len(),
    ensures
        states[i].warnings == states[0].warnings,
    decreases i,
{
    if i > 0 {
        let j = i - 1;
        remarks_reach_the_answer(states, events, j);
        assert(add_follows(states[j], events[j], Ok(states[j + 1])));
    }
}

/// The answer to a page that was sent as a whole remarks on what was written: it
/// begins with what the lint of that page says.
pub proof fn answers_remark_on_what_is_written(
    states: Seq<AddRun>,
    events: Seq<AddEvent>,
    i: int,
    extra: Seq<Seq<char>>,
)
    requires
        add_trace(states, events),
        states[0].edit is Whole,
        states[0].step is Lock,
        views(states[0].warnings@) == lint_remarks(states[0].content@) + extra,
        0 <= i < states.len(),
    ensures
        views(states[i].warnings@) == lint_remarks(states[i].content@) + extra,
{
    remarks_reach_the_answer(states, events, i);
    whole_pages_are_written_verbatim(states, events, i);
}

/// A page that was sent as a whole reads back as it was sent.
pub proof fn whole_pages_read_back(
    states: Seq<AddRun>,
    events: Seq<AddEvent>,
    i: int,
    written: Vec<u8>,
    file: WikiTarget,
    read: Result<ReadMarkdownResult, DaemonResponse>,
)
    requires
        add_trace(states, events),
        states[0].edit is Whole,
        states[0].step is Lock,
        0 <= i < states.len(),
        written@ == encode_utf8(states[i].content@),
        reads_as(file, Ok(written), read),
    ensures
        read matches Ok(result) && result.content@ == states[0].content@,
{
    whole_pages_are_written_verbatim(states, events, i);
    reading_returns_what_was_written(states[i].content@, file, written, read);
}

/// How far a request has come.
pub open spec fn add_progress(step: AddStep) -> int {
    match step {
        AddStep::Lock => 0,
        AddStep::ReadPage => 1,
        AddStep::Write => 2,
        AddStep::Snapshot | AddStep::Embedder => 3,
        AddStep::DeleteRows | AddStep::IndexFile => 4,
        AddStep::Rebuild => 5,
        AddStep::Finished => 6,
    }
}

/// A request goes forward or stays where it is: no step is done twice, nothing
/// is embedded or indexed before the file is written, and the index pages come
/// last.
pub proof fn add_goes_forward(run: AddRun, event: AddEvent, out: Result<AddRun, DaemonResponse>)
    requires
        add_follows(run, event, out),
    ensures
        out matches Ok(next) ==> next == run || add_progress(next.step) > add_progress(run.step),
        out matches Ok(next) ==> (add_progress(run.step) < 2 ==> add_progress(next.step) <= 2),
{
}

/// Whether the file was written at this point, to the place that `now` has.
pub open spec fn written_at(
    states: Seq<AddRun>,
    events: Seq<AddEvent>,
    k: int,
    now: AddRun,
) -> bool {
    &&& 0 <= k < events.len()
    &&& states[k].step is Write
    &&& states[k].content == now.content
    &&& events[k] matches AddEvent::Written(Ok(written)) && written.dest == now.dest
        && written.file_ref == now.file_ref
}

/// Whether the file was indexed at this point, with these counts.
pub open spec fn indexed_at(
    states: Seq<AddRun>,
    events: Seq<AddEvent>,
    k: int,
    stats: ApplyStats,
) -> bool {
    &&& 0 <= k < events.len()
    &&& states[k].step is IndexFile
    &&& events[k] matches AddEvent::Indexed(Ok(counts)) && counts == stats
}

/// Whether the embedder was there at this point.
pub open spec fn embedder_at(states: Seq<AddRun>, events: Seq<AddEvent>, k: int) -> bool {
    &&& 0 <= k < events.len()
    &&& states[k].step is Embedder
    &&& events[k] matches AddEvent::Embedder(Ok(_))
}

/// Whether the index pages were rewritten at this point, which turned the first
/// counts into the second.
pub open spec fn rebuilt_at(
    states: Seq<AddRun>,
    events: Seq<AddEvent>,
    k: int,
    before: ApplyStats,
    after: ApplyStats,
) -> bool {
    &&& 0 <= k < events.len()
    &&& states[k].step is Rebuild
    &&& states[k].stats == before
    &&& events[k] matches AddEvent::Rebuilt(Ok(extra)) && stats_sum(before, extra) == after
}

/// Whether the rows of a file with nothing in it were seen to at this point:
/// there were none, or they were deleted.
pub open spec fn cleared_at(states: Seq<AddRun>, events: Seq<AddEvent>, k: int) -> bool {
    &&& 0 <= k < events.len()
    &&& {
        ||| states[k].step is Snapshot && (events[k] matches AddEvent::Snapshot(Ok(rows)) && !rows)
        ||| states[k].step is DeleteRows && (events[k] matches AddEvent::RowsDeleted(Ok(_)))
    }
}

/// Nothing is done before the file is written.  By the time that its rows are
/// settled, a file with something in it has been indexed, with an embedder where
/// there is one, and of a file with nothing in it that took the place of another
/// the rows are gone.
proof fn add_does_what_comes_first(states: Seq<AddRun>, events: Seq<AddEvent>, i: int)
    requires
        add_trace(states, events),
        states[0].step is Lock,
        0 <= i < states.len(),
    ensures
        ({
            let now = states[i];
            let written = !(now.step is Lock || now.step is ReadPage || now.step is Write);
            let settled = now.step is Rebuild || now.step is Finished;
            &&& now.target == states[0].target
            &&& now.embeddings_enabled == states[0].embeddings_enabled
            &&& written ==> exists|k: int| k < i && #[trigger] written_at(states, events, k, now)
            &&& now.step is IndexFile && now.embeddings_enabled ==> exists|k: int|
                k < i && #[trigger] embedder_at(states, events, k)
            &&& now.step is Rebuild && !now.content_is_empty ==> exists|k: int|
                k < i && #[trigger] indexed_at(states, events, k, now.stats)
            &&& settled && !now.content_is_empty ==> exists|k: int, counts: ApplyStats|
                k < i && #[trigger] indexed_at(states, events, k, counts)
            &&& settled && !now.content_is_empty && now.embeddings_enabled ==> exists|k: int|
                k < i && #[trigger] embedder_at(states, events, k)
            &&& settled && now.content_is_empty && now.overwrite && now.file_ref is Some
                ==> exists|k: int| k < i && #[trigger] cleared_at(states, events, k)
            &&& now.step is Rebuild ==> names_wiki(now.target.corpus@.name)
            &&& now.step is Embedder ==> now.embeddings_enabled
            &&& now.step is Embedder || now.step is IndexFile ==> !now.content_is_empty
            &&& now.step is Snapshot || now.step is DeleteRows ==> now.content_is_empty
        }),
    decreases i,
{
    if i > 0 {
        let j = i - 1;
        add_does_what_comes_first(states, events, j);
        assert(add_follows(states[j], events[j], Ok(states[j + 1])));
        let was = states[j];
        let now = states[i];
        if !(was.step is Lock || was.step is ReadPage || was.step is Write) {
            let k = choose|k: int| k < j && #[trigger] written_at(states, events, k, was);
            assert(written_at(states, events, k, now));
        } else if was.step is Write && !(now.step is Write) {
            assert(written_at(states, events, j, now));
        }
        if was.step is IndexFile && was.embeddings_enabled {
            let k = choose|k: int| k < j && #[trigger] embedder_at(states, events, k);
            assert(embedder_at(states, events, k) && k < i);
        }
        if was.step is Embedder && now.step is IndexFile {
            assert(embedder_at(states, events, j));
        }
        if was.step is IndexFile && !(now.step is IndexFile) {
            assert(indexed_at(states, events, j, now.stats));
        }
        if was.step is Rebuild && !was.content_is_empty {
            let k = choose|k: int| k < j && #[trigger] indexed_at(states, events, k, was.stats);
            assert(indexed_at(states, events, k, was.stats) && k < i);
        }
        if (was.step is Rebuild || was.step is Finished) && was.embeddings_enabled
            && !was.content_is_empty {
            let k = choose|k: int| k < j && #[trigger] embedder_at(states, events, k);
            assert(embedder_at(states, events, k) && k < i);
        }
        if (was.step is Snapshot || was.step is DeleteRows) && (now.step is Rebuild
            || now.step is Finished) {
            assert(cleared_at(states, events, j));
        }
    }
}

/// A request that is finished has done all that it was for.  The file was
/// written.  Where it has something in it, it was indexed, with the embedder
/// where there is one; where it has nothing in it and took the place of another
/// file, the rows of that are gone.
pub proof fn finished_writes_are_complete(states: Seq<AddRun>, events: Seq<AddEvent>)
    requires
        add_trace(states, events),
        states[0].step is Lock,
        states.last().step is Finished,
    ensures
        exists|k: int| #[trigger] written_at(states, events, k, states.last()),
        !states.last().content_is_empty ==> exists|k: int, counts: ApplyStats| #[trigger]
            indexed_at(states, events, k, counts),
        !states.last().content_is_empty && states[0].embeddings_enabled ==> exists|k: int| #[trigger]
            embedder_at(states, events, k),
        states.last().content_is_empty && states.last().overwrite && states.last().file_ref is Some
            ==> exists|k: int| #[trigger] cleared_at(states, events, k),
{
    add_does_what_comes_first(states, events, states.len() - 1);
}

/// The index pages of a wiki are rewritten before a request is finished, and
/// what that did is counted with the rest; those of another corpus are not
/// there to be rewritten.
pub proof fn finished_writes_have_their_index_pages(
    states: Seq<AddRun>,
    events: Seq<AddEvent>,
    i: int,
)
    requires
        add_trace(states, events),
        states[0].step is Lock,
        0 <= i < states.len(),
        states[i].step is Finished,
        names_wiki(states[0].target.corpus@.name),
    ensures
        exists|k: int, before: ApplyStats|
            k < i && #[trigger] rebuilt_at(states, events, k, before, states[i].stats),
    decreases i,
{
    if i > 0 {
        let j = i - 1;
        add_does_what_comes_first(states, events, j);
        assert(add_follows(states[j], events[j], Ok(states[j + 1])));
        if states[j].step is Finished {
            finished_writes_have_their_index_pages(states, events, j);
            let (k, before) = choose|k: int, before: ApplyStats|
                k < j && #[trigger] rebuilt_at(states, events, k, before, states[j].stats);
            assert(rebuilt_at(states, events, k, before, states[i].stats) && k < i);
        } else {
            assert(rebuilt_at(states, events, j, states[j].stats, states[i].stats));
        }
    }
}

/// Whether the page was read at this point, and the edit made this of it.
pub open spec fn edited_at(
    states: Seq<AddRun>,
    events: Seq<AddEvent>,
    k: int,
    text: Seq<char>,
) -> bool {
    &&& 0 <= k < events.len()
    &&& states[k].step is ReadPage
    &&& events[k] matches AddEvent::Page(Ok(page)) && edited(
        states[k].edit,
        page,
        states[0].content@,
        states[0].target.relative@,
    ) == Ok::<Seq<char>, Seq<char>>(text)
}

/// An edit is written as what it makes of the page that was read: the page with
/// the content of the request put in where the edit says.
pub proof fn edits_are_written_into_their_page(
    states: Seq<AddRun>,
    events: Seq<AddEvent>,
    i: int,
)
    requires
        add_trace(states, events),
        states[0].step is Lock,
        !(states[0].edit is Whole),
        0 <= i < states.len(),
    ensures
        states[i].edit == states[0].edit,
        states[i].target == states[0].target,
        states[i].step is Lock || states[i].step is ReadPage ==> states[i].content
            == states[0].content,
        !(states[i].step is Lock || states[i].step is ReadPage) ==> states[i].overwrite
            && states[i].content_is_empty == is_blank(states[i].content@) && exists|k: int|
            k < i && #[trigger] edited_at(states, events, k, states[i].content@),
    decreases i,
{
    if i > 0 {
        let j = i - 1;
        edits_are_written_into_their_page(states, events, j);
        assert(add_follows(states[j], events[j], Ok(states[j + 1])));
        if !(states[j].step is Lock || states[j].step is ReadPage) {
            let k = choose|k: int| k < j && #[trigger] edited_at(states, events, k, states[j].content@);
            assert(edited_at(states, events, k, states[i].content@) && k < i);
        } else if states[j].step is ReadPage && !(states[i].step is ReadPage) {
            assert(edited_at(states, events, j, states[i].content@));
        }
    }
}

/// A step that fails ends the request: what went wrong is the answer, or stands
/// at its end.
pub proof fn failed_writes_are_told(
    run: AddRun,
    event: AddEvent,
    detail: String,
    out: Result<AddRun, DaemonResponse>,
)
    requires
        add_follows(run, event, out),
        match run.step {
            AddStep::Lock => event == AddEvent::Locked(Err(detail)),
            AddStep::Snapshot => event == AddEvent::Snapshot(Err(detail)),
            AddStep::DeleteRows => event == AddEvent::RowsDeleted(Err(detail)),
            AddStep::Embedder => event == AddEvent::Embedder(Err(detail)),
            AddStep::IndexFile => event == AddEvent::Indexed(Err(detail)),
            AddStep::Rebuild => event == AddEvent::Rebuilt(Err(detail)),
            _ => false,
        },
    ensures
        failed(out, detail@),
{
}

/// A request starts with what was asked: it writes the content that was sent to
/// the file that was meant, under the lock of the corpus, and replaces a file that
/// is there only where it was told to.
pub proof fn writes_start_with_what_was_asked(
    run: AddRun,
    target: WikiTarget,
    req: AddMarkdownRequest,
    embeddings_enabled: bool,
)
    requires
        add_starts(run, target, req, embeddings_enabled),
    ensures
        run.step is Lock,
        run.target == target,
        run.content@ == req.content@,
        run.content_is_empty <==> is_blank(req.content@),
        run.overwrite == req.overwrite,
        run.embeddings_enabled == embeddings_enabled,
        run.dest@ == crate::path::joined(target.root@, target.relative@),
        is_edit_of(run.edit, req),
        run.stats.files_upserted == 0,
        run.stats.files_touched == 0,
        run.stats.files_deleted == 0,
        run.stats.files_skipped_empty == 0,
        run.stats.chunks_inserted == 0,
        run.stats.embeddings_inserted == 0,
{
}

/// A step that succeeds leads to a later one, so that a request whose steps all
/// succeed comes to its end.
pub proof fn writes_that_succeed_lead_on(run: AddRun, event: AddEvent, out: Result<AddRun, DaemonResponse>)
    requires
        add_follows(run, event, out),
        match run.step {
            AddStep::Lock => event matches AddEvent::Locked(Ok(_)),
            AddStep::Write => event matches AddEvent::Written(Ok(_)),
            AddStep::Snapshot => event matches AddEvent::Snapshot(Ok(_)),
            AddStep::DeleteRows => event matches AddEvent::RowsDeleted(Ok(_)),
            AddStep::Embedder => event matches AddEvent::Embedder(Ok(_)),
            AddStep::IndexFile => event matches AddEvent::Indexed(Ok(_)),
            AddStep::Rebuild => event matches AddEvent::Rebuilt(Ok(_)),
            _ => false,
        },
    ensures
        out matches Ok(next) && add_progress(next.step) > add_progress(run.step),
        run.step is Lock ==> out->Ok_0.step == if run.edit is Whole {
            AddStep::Write
        } else {
            AddStep::ReadPage
        },
{
}

} // verus!
