//! The index pages of a wiki: rewriting them when a file has come or gone.

use vstd::prelude::*;
use vstd::utf8::encode_utf8;

use crate::daemon::index_page::{
    after_list, before_list, compose_index_md, composed, entry_lines,
    index_pages_are_made_kept_or_changed, link_list, new_page, prose_outside_the_marks_is_kept,
    with_list, IndexEntry,
};
use crate::daemon::wiki::{WriteError, WriteErrorKind};
use crate::index::{fold_apply_stats, no_stats, stats_fit, stats_sum, ApplyStats};
use crate::path::{components, components_of, file_name, file_name_of, join, joined, slash};
use crate::text::{
    cat2, cat3, cat4, join_list, join_with, opt_str_view, opt_view, owned, same, views,
};

verus! {

/// The name of an index page.
pub const INDEX_FILENAME: &'static str = "index.md";

/// Whether the file is an index page itself.
pub open spec fn is_index_page(relative: Seq<char>) -> bool {
    let parts = components(relative);
    parts.len() > 0 && parts.last() == INDEX_FILENAME@
}

/// How many directories have their index page rewritten: the root and each one
/// down to the file.  Where the file is an index page its own directory is left
/// out, since what the author wrote there stands.
pub open spec fn page_count(relative: Seq<char>) -> nat {
    let parts = components(relative);
    if is_index_page(relative) {
        (parts.len() - 1) as nat
    } else {
        parts.len()
    }
}

/// The directories whose index page is rewritten, seen from the root; the root
/// itself is the empty path.
pub open spec fn page_dirs(relative: Seq<char>) -> Seq<Seq<char>> {
    Seq::new(
        page_count(relative),
        |i: int| join_with(components(relative).take(i), slash()),
    )
}

/// Where a directory of the wiki is.
pub open spec fn dir_path(root: Seq<char>, dir: Seq<char>) -> Seq<char> {
    if dir.len() == 0 {
        root
    } else {
        joined(root, dir)
    }
}

/// Where the index page of a directory is.
pub open spec fn page_path(root: Seq<char>, dir: Seq<char>) -> Seq<char> {
    joined(dir_path(root, dir), INDEX_FILENAME@)
}

/// Where the index page of a directory is, seen from the root.
pub open spec fn page_below(dir: Seq<char>) -> Seq<char> {
    if dir.len() == 0 {
        INDEX_FILENAME@
    } else {
        joined(dir, INDEX_FILENAME@)
    }
}

/// The title of a new index page: the name of its directory.
pub open spec fn page_title(dir: Seq<char>) -> Seq<char> {
    match file_name(dir) {
        Some(name) => name,
        None => Seq::empty(),
    }
}

/// Whether the file is an index page itself.
pub fn is_index_md(relative: &str) -> (out: bool)
    ensures
        out == is_index_page(relative@),
{
    let parts = components_of(relative);
    if parts.len() == 0 {
        return false;
    }
    proof {
        assert(components(relative@).last() == parts@[parts@.len() - 1]@);
    }
    same(parts[parts.len() - 1].as_str(), INDEX_FILENAME)
}

/// The directories whose index page is rewritten, seen from the root.
pub fn ancestor_dirs(relative: &str) -> (out: Vec<String>)
    ensures
        views(out@) == page_dirs(relative@),
{
    let parts = components_of(relative);
    let written_is_index = is_index_md(relative);
    let count: usize = if written_is_index {
        parts.len() - 1
    } else {
        parts.len()
    };
    let mut out: Vec<String> = Vec::new();
    let mut front: Vec<String> = Vec::new();
    proof {
        reveal_strlit("/");
        assert("/"@ =~= slash());
        assert(views(front@) =~= components(relative@).take(0));
        assert(views(out@) =~= page_dirs(relative@).take(0));
    }
    for i in 0..count
        invariant
            "/"@ == slash(),
            views(parts@) == components(relative@),
            count == page_count(relative@),
            count <= parts@.len(),
            views(front@) == components(relative@).take(i as int),
            views(out@) == page_dirs(relative@).take(i as int),
    {
        let ghost before = views(out@);
        let ghost done = views(front@);
        out.push(join_list(&front, "/"));
        front.push(parts[i].clone());
        proof {
            let all = page_dirs(relative@);
            assert(views(out@) =~= before.push(all[i as int]));
            assert(all.take(i + 1) =~= before.push(all[i as int]));
            assert(views(front@) =~= done.push(parts@[i as int]@));
            assert(components(relative@)[i as int] == parts@[i as int]@);
            assert(components(relative@).take(i + 1) =~= done.push(parts@[i as int]@));
        }
    }
    proof {
        let all = page_dirs(relative@);
        assert(all.take(all.len() as int) =~= all);
    }
    out
}

/// What is done next for the index page at hand.
#[derive(Debug, Clone, Copy, PartialEq, Eq, Structural)]
pub enum RebuildStep {
    /// Read it.
    Read,
    /// List the entries of its directory, to compose what it should be.
    Compose,
    /// Write it.
    Write,
    /// Get the embedder.
    Embedder,
    /// Index it.
    Reindex,
    /// All pages are done.
    Finished,
}

/// What came of composing a page.
#[derive(Debug, Clone, Copy, PartialEq, Eq, Structural)]
pub enum RewriteOutcome {
    /// The page has no place for the list of files.
    NoMarkers,
    /// It is as it should be.
    Unchanged,
    /// There was none.
    Created,
    /// The list of files has changed.
    Updated,
}

/// Why a page was not written.
#[derive(Debug)]
pub enum PageFailure {
    /// It could not be.
    Refused(WriteError),
    /// The task that wrote it broke down.
    Panicked(String),
}

/// What came of a step.
#[derive(Debug)]
pub enum RebuildEvent {
    /// What the page holds, none where there is no page, or why it could not be
    /// read.
    Read(Result<Option<String>, String>),
    /// The entries of its directory, or why they could not be listed.
    Entries(Result<Vec<IndexEntry>, String>),
    /// The page was written there.
    Written(Result<String, PageFailure>),
    Embedder(Result<(), String>),
    Reindexed(Result<ApplyStats, String>),
}

/// The rewriting of the index pages that a change to a file calls for.
#[derive(Debug)]
pub struct RebuildRun {
    pub root: String,
    /// The directories whose page is rewritten.
    pub dirs: Vec<String>,
    /// The one at hand.
    pub at: usize,
    pub embeddings_enabled: bool,
    /// What the page at hand held when it was read.
    pub existing: Option<String>,
    /// What is written to the page at hand, once that is settled.
    pub content: String,
    /// Where the page at hand was written.
    pub dest: String,
    /// The counts so far.
    pub totals: ApplyStats,
    pub step: RebuildStep,
}

/// The step with which the page at `at` begins.
pub open spec fn page_begins(at: int, count: nat) -> RebuildStep {
    if at < count {
        RebuildStep::Read
    } else {
        RebuildStep::Finished
    }
}

impl RebuildRun {
    /// Whether the run is finished exactly when no page is at hand.
    pub open spec fn well_formed(&self) -> bool {
        &&& self.at <= self.dirs@.len()
        &&& self.step is Finished <==> self.at == self.dirs@.len()
    }

    /// Where the directory at hand is.
    pub open spec fn dir(&self) -> Seq<char> {
        dir_path(self.root@, self.dirs@[self.at as int]@)
    }

    /// Where the page at hand is.
    pub open spec fn page(&self) -> Seq<char> {
        page_path(self.root@, self.dirs@[self.at as int]@)
    }

    /// The page at hand with the list of the entries, and what came of it.
    pub open spec fn rewritten(&self, entries: Seq<IndexEntry>) -> (Seq<char>, RewriteOutcome) {
        composed(
            opt_view(self.existing),
            page_title(self.dir()),
            entry_lines(entries, entries.len() as int),
        )
    }

    /// Where the directory at hand is.
    pub fn current_dir(&self) -> (out: String)
        requires
            self.well_formed(),
            !(self.step is Finished),
        ensures
            out@ == self.dir(),
    {
        if self.dirs[self.at].as_str().is_empty() {
            self.root.clone()
        } else {
            join(self.root.as_str(), self.dirs[self.at].as_str())
        }
    }

    /// Where the page at hand is.
    pub fn current_page(&self) -> (out: String)
        requires
            self.well_formed(),
            !(self.step is Finished),
        ensures
            out@ == self.page(),
    {
        join(self.current_dir().as_str(), INDEX_FILENAME)
    }

    /// Where the page at hand is, seen from the root.
    pub fn page_relative(&self) -> (out: String)
        requires
            self.well_formed(),
            !(self.step is Finished),
        ensures
            out@ == page_below(self.dirs@[self.at as int]@),
    {
        if self.dirs[self.at].as_str().is_empty() {
            owned(INDEX_FILENAME)
        } else {
            join(self.dirs[self.at].as_str(), INDEX_FILENAME)
        }
    }

    /// The bytes that are written to the page at hand.
    pub fn bytes(&self) -> (out: Vec<u8>)
        ensures
            out@ == encode_utf8(self.content@),
    {
        self.content.as_str().as_bytes_vec()
    }

    fn rewrite(&self, entries: &Vec<IndexEntry>) -> (out: (String, RewriteOutcome))
        requires
            self.well_formed(),
            !(self.step is Finished),
        ensures
            (out.0@, out.1) == self.rewritten(entries@),
    {
        let list = link_list(entries);
        let title = match file_name_of(self.current_dir().as_str()) {
            Some(name) => name,
            None => String::new(),
        };
        let existing = match &self.existing {
            Some(page) => Some(page.as_str()),
            None => None,
        };
        proof {
            assert(title@ =~= page_title(self.dir()));
            assert(opt_str_view(existing) == opt_view(self.existing));
        }
        compose_index_md(existing, title.as_str(), list.as_str())
    }
}

/// The rewriting that a change to the file calls for, before anything is done.
pub fn rebuild_start(root: &str, relative: &str, embeddings_enabled: bool) -> (out: RebuildRun)
    ensures
        out.well_formed(),
        out.root@ == root@,
        views(out.dirs@) == page_dirs(relative@),
        out.at == 0,
        out.embeddings_enabled == embeddings_enabled,
        out.totals == no_stats(),
        out.step == page_begins(0, page_count(relative@)),
{
    let dirs = ancestor_dirs(relative);
    proof {
        assert(views(dirs@).len() == page_count(relative@));
    }
    let step = if dirs.len() > 0 {
        RebuildStep::Read
    } else {
        RebuildStep::Finished
    };
    RebuildRun {
        root: owned(root),
        dirs,
        at: 0,
        embeddings_enabled,
        existing: None,
        content: String::new(),
        dest: String::new(),
        totals: ApplyStats::zero(),
        step,
    }
}

/// How a message names what went wrong with a write.
pub open spec fn kind_shown(kind: WriteErrorKind) -> Seq<char> {
    match kind {
        WriteErrorKind::Exists => "Exists"@,
        WriteErrorKind::Symlink => "Symlink"@,
        WriteErrorKind::InvalidPath => "InvalidPath"@,
        WriteErrorKind::Io => "Io"@,
    }
}

fn show_kind(kind: WriteErrorKind) -> (out: &'static str)
    ensures
        out@ == kind_shown(kind),
{
    match kind {
        WriteErrorKind::Exists => "Exists",
        WriteErrorKind::Symlink => "Symlink",
        WriteErrorKind::InvalidPath => "InvalidPath",
        WriteErrorKind::Io => "Io",
    }
}

/// Whether the result is an error with the given message.
pub open spec fn says<T>(out: Result<T, String>, message: Seq<char>) -> bool {
    out matches Err(m) && m@ == message
}

/// Whether `next` goes on with the page after the one at hand.
pub open spec fn page_done(run: RebuildRun, next: RebuildRun, totals: ApplyStats) -> bool {
    next == (RebuildRun {
        at: (run.at + 1) as usize,
        totals,
        step: page_begins(run.at + 1, run.dirs@.len()),
        ..run
    })
}

/// Whether `out` is what follows.  What does not answer the step changes
/// nothing.
pub open spec fn rebuild_follows(
    run: RebuildRun,
    event: RebuildEvent,
    out: Result<RebuildRun, String>,
) -> bool {
    match (run.step, event) {
        (RebuildStep::Read, RebuildEvent::Read(Ok(existing))) => out matches Ok(next) && next == (
        RebuildRun { existing, step: RebuildStep::Compose, ..run }),
        (RebuildStep::Read, RebuildEvent::Read(Err(detail))) => says(
            out,
            "read "@ + run.page() + ": "@ + detail@,
        ),
        (RebuildStep::Compose, RebuildEvent::Entries(Ok(entries))) => match run.rewritten(
            entries@,
        ).1 {
            RewriteOutcome::NoMarkers | RewriteOutcome::Unchanged => out matches Ok(next)
                && page_done(run, next, run.totals),
            RewriteOutcome::Created | RewriteOutcome::Updated => out matches Ok(next)
                && next.content@ == run.rewritten(entries@).0 && next == (RebuildRun {
                content: next.content,
                step: RebuildStep::Write,
                ..run
            }),
        },
        (RebuildStep::Compose, RebuildEvent::Entries(Err(detail))) => says(
            out,
            "compose index "@ + run.dir() + ": "@ + detail@,
        ),
        (RebuildStep::Write, RebuildEvent::Written(Ok(dest))) => out matches Ok(next) && next == (
        RebuildRun {
            dest,
            step: if run.embeddings_enabled {
                RebuildStep::Embedder
            } else {
                RebuildStep::Reindex
            },
            ..run
        }),
        (RebuildStep::Write, RebuildEvent::Written(Err(PageFailure::Refused(error)))) => says(
            out,
            "writing index "@ + run.page() + " failed ("@ + kind_shown(error.kind) + "): "@
                + error.detail@,
        ),
        (RebuildStep::Write, RebuildEvent::Written(Err(PageFailure::Panicked(detail)))) => says(
            out,
            "index write task panicked: "@ + detail@,
        ),
        (RebuildStep::Embedder, RebuildEvent::Embedder(Ok(_))) => out matches Ok(next) && next == (
        RebuildRun { step: RebuildStep::Reindex, ..run }),
        (RebuildStep::Embedder, RebuildEvent::Embedder(Err(detail))) => says(
            out,
            "embedder: "@ + detail@,
        ),
        (RebuildStep::Reindex, RebuildEvent::Reindexed(Ok(stats))) => out matches Ok(next)
            && page_done(run, next, stats_sum(run.totals, stats)),
        (RebuildStep::Reindex, RebuildEvent::Reindexed(Err(detail))) => says(
            out,
            "reindex "@ + run.dest@ + ": "@ + detail@,
        ),
        _ => out matches Ok(next) && next == run,
    }
}

fn begin_page(at: usize, count: usize) -> (out: RebuildStep)
    ensures
        out == page_begins(at as int, count as nat),
{
    if at < count {
        RebuildStep::Read
    } else {
        RebuildStep::Finished
    }
}

/// What follows when a step is done.  Any failure ends the rewriting; a page
/// that needs no change is neither written nor indexed.
pub fn rebuild_next(run: RebuildRun, event: RebuildEvent) -> (out: Result<RebuildRun, String>)
    requires
        run.well_formed(),
        event matches RebuildEvent::Reindexed(Ok(stats)) ==> stats_fit(run.totals, stats),
    ensures
        rebuild_follows(run, event, out),
        out matches Ok(next) ==> next.well_formed(),
{
    let mut run = run;
    let count: usize = run.dirs.len();
    match (run.step, event) {
        (RebuildStep::Read, RebuildEvent::Read(got)) => match got {
            Ok(existing) => {
                run.existing = existing;
                run.step = RebuildStep::Compose;
                Ok(run)
            },
            Err(detail) => Err(
                cat4("read ", run.current_page().as_str(), ": ", detail.as_str()),
            ),
        },
        (RebuildStep::Compose, RebuildEvent::Entries(got)) => match got {
            Ok(entries) => {
                let (content, outcome) = run.rewrite(&entries);
                match outcome {
                    RewriteOutcome::NoMarkers | RewriteOutcome::Unchanged => {
                        run.at = run.at + 1;
                        run.step = begin_page(run.at, count);
                    },
                    RewriteOutcome::Created | RewriteOutcome::Updated => {
                        run.content = content;
                        run.step = RebuildStep::Write;
                    },
                }
                Ok(run)
            },
            Err(detail) => Err(
                cat4("compose index ", run.current_dir().as_str(), ": ", detail.as_str()),
            ),
        },
        (RebuildStep::Write, RebuildEvent::Written(got)) => match got {
            Ok(dest) => {
                run.dest = dest;
                run.step = if run.embeddings_enabled {
                    RebuildStep::Embedder
                } else {
                    RebuildStep::Reindex
                };
                Ok(run)
            },
            Err(failure) => match failure {
                PageFailure::Refused(error) => {
                    let mut message = cat3(
                        "writing index ",
                        run.current_page().as_str(),
                        " failed (",
                    );
                    message.append(show_kind(error.kind));
                    message.append("): ");
                    message.append(error.detail.as_str());
                    Err(message)
                },
                PageFailure::Panicked(detail) => Err(
                    cat2("index write task panicked: ", detail.as_str()),
                ),
            },
        },
        (RebuildStep::Embedder, RebuildEvent::Embedder(got)) => match got {
            Ok(_) => {
                run.step = RebuildStep::Reindex;
                Ok(run)
            },
            Err(detail) => Err(cat2("embedder: ", detail.as_str())),
        },
        (RebuildStep::Reindex, RebuildEvent::Reindexed(got)) => match got {
            Ok(stats) => {
                let mut totals = run.totals;
                fold_apply_stats(&mut totals, &stats);
                run.totals = totals;
                run.at = run.at + 1;
                run.step = begin_page(run.at, count);
                Ok(run)
            },
            Err(detail) => Err(cat4("reindex ", run.dest.as_str(), ": ", detail.as_str())),
        },
        _ => Ok(run),
    }
}

/// A page is written only with what was composed from the page that was read and
/// the entries of its directory: a new page with the list where there was none,
/// else the page that was read, with the list between its marks and every word
/// of its author outside of them.
pub proof fn written_pages_keep_their_prose(run: RebuildRun, event: RebuildEvent, next: RebuildRun)
    requires
        rebuild_follows(run, event, Ok(next)),
        next.step is Write,
    ensures
        run.step is Write ==> next == run,
        !(run.step is Write) ==> run.step is Compose && (event matches RebuildEvent::Entries(
            Ok(entries),
        ) && {
            let list = entry_lines(entries@, entries@.len() as int);
            match opt_view(run.existing) {
                None => next.content@ == new_page(page_title(run.dir()), list),
                Some(page) => {
                    &&& next.content@ != page
                    &&& before_list(page) is Some
                    &&& after_list(page) is Some
                    &&& next.content@ == before_list(page)->0 + "\n"@ + list + after_list(page)->0
                    &&& page.take(before_list(page)->0.len() as int) == before_list(page)->0
                    &&& page.skip(page.len() - after_list(page)->0.len()) == after_list(page)->0
                },
            }
        }),
{
    if !(run.step is Write) {
        let entries = event->Entries_0->Ok_0;
        let list = entry_lines(entries@, entries@.len() as int);
        if let Some(page) = opt_view(run.existing) {
            assert(with_list(page, list) is Some);
            prose_outside_the_marks_is_kept(page, list);
        }
    }
}

/// The page that an author writes is not among those that are rewritten for it.
pub proof fn written_page_stands(relative: Seq<char>, i: int)
    requires
        is_index_page(relative),
        0 <= i < page_dirs(relative).len(),
    ensures
        page_dirs(relative).len() + 1 == components(relative).len(),
        page_dirs(relative)[i] == join_with(components(relative).take(i), slash()),
        i < components(relative).len() - 1,
{
}

/// The pages that are rewritten are those of the root and of every directory
/// down to the one that holds the file.
pub proof fn pages_reach_from_root_to_file(relative: Seq<char>)
    requires
        components(relative).len() > 0,
        !is_index_page(relative),
    ensures
        page_dirs(relative).len() == components(relative).len(),
        page_dirs(relative)[0].len() == 0,
        page_dirs(relative).last() == join_with(components(relative).drop_last(), slash()),
{
    assert(components(relative).take(0) =~= Seq::<Seq<char>>::empty());
    assert(components(relative).take(components(relative).len() - 1) =~= components(
        relative,
    ).drop_last());
}

/// A page is left for the next one when nothing is to be changed in it, or when
/// what was written has been indexed; what was indexed is then counted.
pub proof fn pages_are_left_when_done(run: RebuildRun, event: RebuildEvent, next: RebuildRun)
    requires
        run.well_formed(),
        rebuild_follows(run, event, Ok(next)),
        next.at != run.at,
        event matches RebuildEvent::Reindexed(Ok(stats)) ==> stats_fit(run.totals, stats),
    ensures
        next.at == run.at + 1,
        next.root == run.root,
        next.dirs == run.dirs,
        next.step == if next.at < run.dirs@.len() {
            RebuildStep::Read
        } else {
            RebuildStep::Finished
        },
        run.step is Reindex ==> (event matches RebuildEvent::Reindexed(Ok(stats)) && {
            &&& next.totals.files_upserted == run.totals.files_upserted + stats.files_upserted
            &&& next.totals.files_touched == run.totals.files_touched + stats.files_touched
            &&& next.totals.files_deleted == run.totals.files_deleted + stats.files_deleted
            &&& next.totals.files_skipped_empty == run.totals.files_skipped_empty
                + stats.files_skipped_empty
            &&& next.totals.chunks_inserted == run.totals.chunks_inserted + stats.chunks_inserted
            &&& next.totals.embeddings_inserted == run.totals.embeddings_inserted
                + stats.embeddings_inserted
        }),
        !(run.step is Reindex) ==> run.step is Compose && next.totals == run.totals && (
        event matches RebuildEvent::Entries(Ok(entries)) && (opt_view(
            run.existing,
        ) matches Some(page) && {
            let list = entry_lines(entries@, entries@.len() as int);
            with_list(page, list) is None || with_list(page, list) == Some(page)
        })),
{
    assert(run.dirs.len() == run.dirs@.len());
}

/// A page that is read and has to change is composed, written where it is, and
/// indexed, with the embedder where there is one; only then is it left.
pub proof fn changed_pages_are_written_and_indexed(
    run: RebuildRun,
    existing: Option<String>,
    entries: Vec<IndexEntry>,
    dest: String,
    stats: ApplyStats,
    read: RebuildRun,
    settled: RebuildRun,
    written: RebuildRun,
)
    requires
        run.well_formed(),
        run.step is Read,
        stats_fit(run.totals, stats),
        rebuild_follows(run, RebuildEvent::Read(Ok(existing)), Ok(read)),
        rebuild_follows(read, RebuildEvent::Entries(Ok(entries)), Ok(settled)),
        settled.step is Write,
        rebuild_follows(settled, RebuildEvent::Written(Ok(dest)), Ok(written)),
    ensures
        read.existing == existing,
        existing is None ==> settled.content@ == "# "@ + page_title(run.dir()) + "\n\n"@
            + "<!-- HALLOUMINATE:INDEX-START -->"@ + "\n"@ + entry_lines(
            entries@,
            entries@.len() as int,
        ) + "<!-- HALLOUMINATE:INDEX-END -->"@ + "\n"@,
        existing matches Some(page) ==> with_list(
            page@,
            entry_lines(entries@, entries@.len() as int),
        ) == Some(settled.content@),
        settled.page() == run.page(),
        written.dest == dest,
        written.at == run.at,
        run.embeddings_enabled ==> written.step is Embedder && forall|ready: RebuildRun| #[trigger]
            rebuild_follows(written, RebuildEvent::Embedder(Ok(())), Ok(ready)) ==> ready == (
            RebuildRun { step: RebuildStep::Reindex, ..written }),
        !run.embeddings_enabled ==> written.step is Reindex,
{
    index_pages_are_made_kept_or_changed(
        Seq::empty(),
        page_title(run.dir()),
        entry_lines(entries@, entries@.len() as int),
    );
}

/// A step that fails ends the rewriting with a message that ends with what went
/// wrong.
pub proof fn failures_are_told(
    run: RebuildRun,
    detail: String,
    out: Result<RebuildRun, String>,
)
    requires
        rebuild_follows(run, RebuildEvent::Read(Err(detail)), out) && run.step is Read
            || rebuild_follows(run, RebuildEvent::Entries(Err(detail)), out) && run.step is Compose
            || rebuild_follows(
            run,
            RebuildEvent::Written(Err(PageFailure::Panicked(detail))),
            out,
        ) && run.step is Write || rebuild_follows(run, RebuildEvent::Embedder(Err(detail)), out)
            && run.step is Embedder || rebuild_follows(
            run,
            RebuildEvent::Reindexed(Err(detail)),
            out,
        ) && run.step is Reindex,
    ensures
        out matches Err(message) && message@.len() >= detail@.len() && message@.skip(
            message@.len() - detail@.len(),
        ) == detail@,
{
    let message = out->Err_0@;
    assert(message.skip(message.len() - detail@.len()) =~= detail@);
}

/// The directories whose pages are rewritten for a file are the root, which is
/// the empty path, and then each directory in the one before it; the last holds
/// the file, or for an index page, the directory of the file.
pub proof fn pages_go_down_name_by_name(relative: Seq<char>, i: int)
    requires
        0 <= i,
        i + 1 < page_dirs(relative).len(),
    ensures
        page_dirs(relative)[0].len() == 0,
        i == 0 ==> page_dirs(relative)[i + 1] == components(relative)[0],
        i > 0 ==> page_dirs(relative)[i + 1] == page_dirs(relative)[i] + slash() + components(
            relative,
        )[i],
        page_dirs(relative).len() == components(relative).len() - (if components(relative).last()
            == "index.md"@ {
            1int
        } else {
            0int
        }),
{
    let parts = components(relative);
    assert(parts.take(0) =~= Seq::<Seq<char>>::empty());
    assert(parts.take(i + 1).drop_last() =~= parts.take(i));
    assert(parts.take(i + 1).last() == parts[i]);
}

/// The index page of a directory is the file of that name in it, and that of the
/// root is in the root.
pub proof fn index_pages_are_in_their_directory(root: Seq<char>, dir: Seq<char>)
    requires
        root.len() > 0,
        root.last() != '/',
        dir.len() > 0,
        dir[0] != '/',
        dir.last() != '/',
    ensures
        page_path(root, dir) == root + slash() + dir + "/index.md"@,
        page_path(root, Seq::empty()) == root + "/index.md"@,
        page_below(dir) == dir + "/index.md"@,
        page_below(Seq::empty()) == "index.md"@,
{
    reveal_strlit("index.md");
    reveal_strlit("/index.md");
    assert("/index.md"@ =~= slash() + "index.md"@);
    assert(page_path(root, dir) =~= root + slash() + dir + "/index.md"@);
    assert(page_path(root, Seq::empty()) =~= root + "/index.md"@);
    assert(page_below(dir) =~= dir + "/index.md"@);
}

} // verus!
