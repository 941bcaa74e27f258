//! The index command: which corpora are indexed, and what is reported.

use vstd::prelude::*;

use crate::config::Config;
use crate::corpus::{
    all_corpora, corpora_fault, corpus_models, corpus_named, find_corpus, not_found_message,
    not_found_text, CorpusConfig, CorpusModel, NO_CORPORA,
};
use crate::error::HallouminateError;
use crate::text::{blank, cat3, cat4, is_blank, owned, split, split_on, trim_text, trimmed, views};

verus! {

/// The name of the corpus that a list of paths makes.
pub const AD_HOC_CORPUS_NAME: &'static str = "ad-hoc";

/// What the index command was asked.
#[derive(Debug, Default, Clone)]
pub struct IndexArgs {
    pub corpus: Option<String>,
    pub paths_from: Option<String>,
    pub config: Option<String>,
    pub socket: Option<String>,
}

/// What was done to one corpus.
#[derive(Debug, Clone, PartialEq, Eq)]
pub struct CorpusReport {
    pub name: String,
    pub files_upserted: usize,
    pub files_touched: usize,
    pub files_deleted: usize,
    pub files_skipped_empty: usize,
    pub chunks_inserted: usize,
    pub embeddings_inserted: usize,
}

/// What was done to the corpora.
#[derive(Debug, Default, Clone, PartialEq, Eq)]
pub struct IndexReport {
    pub corpora: Vec<CorpusReport>,
    /// What was left out, and why.
    pub warnings: Vec<String>,
}

/// How the files of a corpus fared.
#[derive(Debug, Default, Clone, Copy, PartialEq, Eq, Structural)]
pub struct ApplyStats {
    pub files_upserted: usize,
    pub files_touched: usize,
    pub files_deleted: usize,
    pub files_skipped_empty: usize,
    pub chunks_inserted: usize,
    pub embeddings_inserted: usize,
}

/// Nothing done.
pub open spec fn no_stats() -> ApplyStats {
    ApplyStats {
        files_upserted: 0,
        files_touched: 0,
        files_deleted: 0,
        files_skipped_empty: 0,
        chunks_inserted: 0,
        embeddings_inserted: 0,
    }
}

/// Whether the counts of both can be counted together.
pub open spec fn stats_fit(a: ApplyStats, b: ApplyStats) -> bool {
    &&& a.files_upserted + b.files_upserted <= usize::MAX
    &&& a.files_touched + b.files_touched <= usize::MAX
    &&& a.files_deleted + b.files_deleted <= usize::MAX
    &&& a.files_skipped_empty + b.files_skipped_empty <= usize::MAX
    &&& a.chunks_inserted + b.chunks_inserted <= usize::MAX
    &&& a.embeddings_inserted + b.embeddings_inserted <= usize::MAX
}

/// The counts of both together.
pub open spec fn stats_sum(a: ApplyStats, b: ApplyStats) -> ApplyStats {
    ApplyStats {
        files_upserted: (a.files_upserted + b.files_upserted) as usize,
        files_touched: (a.files_touched + b.files_touched) as usize,
        files_deleted: (a.files_deleted + b.files_deleted) as usize,
        files_skipped_empty: (a.files_skipped_empty + b.files_skipped_empty) as usize,
        chunks_inserted: (a.chunks_inserted + b.chunks_inserted) as usize,
        embeddings_inserted: (a.embeddings_inserted + b.embeddings_inserted) as usize,
    }
}

impl ApplyStats {
    /// Nothing done.
    pub fn zero() -> (out: ApplyStats)
        ensures
            out == no_stats(),
    {
        ApplyStats {
            files_upserted: 0,
            files_touched: 0,
            files_deleted: 0,
            files_skipped_empty: 0,
            chunks_inserted: 0,
            embeddings_inserted: 0,
        }
    }

    /// Whether the counts of both can be counted together.
    pub fn fits(&self, other: &ApplyStats) -> (out: bool)
        ensures
            out == stats_fit(*self, *other),
    {
        self.files_upserted <= usize::MAX - other.files_upserted && self.files_touched <= usize::MAX
            - other.files_touched && self.files_deleted <= usize::MAX - other.files_deleted
            && self.files_skipped_empty <= usize::MAX - other.files_skipped_empty
            && self.chunks_inserted <= usize::MAX - other.chunks_inserted
            && self.embeddings_inserted <= usize::MAX - other.embeddings_inserted
    }
}

/// Counts `extra` into `into`.
pub fn fold_apply_stats(into: &mut ApplyStats, extra: &ApplyStats)
    requires
        stats_fit(*old(into), *extra),
    ensures
        *final(into) == stats_sum(*old(into), *extra),
{
    into.files_upserted = into.files_upserted + extra.files_upserted;
    into.files_touched = into.files_touched + extra.files_touched;
    into.files_deleted = into.files_deleted + extra.files_deleted;
    into.files_skipped_empty = into.files_skipped_empty + extra.files_skipped_empty;
    into.chunks_inserted = into.chunks_inserted + extra.chunks_inserted;
    into.embeddings_inserted = into.embeddings_inserted + extra.embeddings_inserted;
}

/// In which order counts are counted together does not matter, and nothing
/// done counts for nothing.
pub proof fn counting_together_is_order_free(a: ApplyStats, b: ApplyStats, c: ApplyStats)
    requires
        stats_fit(a, b),
        stats_fit(stats_sum(a, b), c),
    ensures
        stats_sum(a, b) == stats_sum(b, a),
        stats_sum(stats_sum(a, b), c) == stats_sum(a, stats_sum(b, c)),
        stats_sum(a, no_stats()) == a,
{
}

/// The report of a corpus with the given counts.
pub open spec fn is_report(report: CorpusReport, name: Seq<char>, stats: ApplyStats) -> bool {
    &&& report.name@ == name
    &&& report.files_upserted == stats.files_upserted
    &&& report.files_touched == stats.files_touched
    &&& report.files_deleted == stats.files_deleted
    &&& report.files_skipped_empty == stats.files_skipped_empty
    &&& report.chunks_inserted == stats.chunks_inserted
    &&& report.embeddings_inserted == stats.embeddings_inserted
}

impl CorpusReport {
    /// The report of a corpus with the given counts.
    pub fn of(name: &str, stats: &ApplyStats) -> (out: CorpusReport)
        ensures
            is_report(out, name@, *stats),
    {
        CorpusReport {
            name: owned(name),
            files_upserted: stats.files_upserted,
            files_touched: stats.files_touched,
            files_deleted: stats.files_deleted,
            files_skipped_empty: stats.files_skipped_empty,
            chunks_inserted: stats.chunks_inserted,
            embeddings_inserted: stats.embeddings_inserted,
        }
    }
}

/// Why no corpora were selected.
#[derive(Debug, PartialEq, Eq)]
pub enum SelectError {
    /// The request cannot be met as it stands.
    Input(String),
    /// The configuration cannot be used.
    Config(HallouminateError),
}

impl SelectError {
    /// The message that the error is shown with.
    pub open spec fn shown(&self) -> Seq<char> {
        match self {
            SelectError::Input(m) => m@,
            SelectError::Config(e) => e.shown(),
        }
    }

    /// The message that the error is shown with.
    pub fn message(&self) -> (out: String)
        ensures
            out@ == self.shown(),
    {
        match self {
            SelectError::Input(m) => m.clone(),
            SelectError::Config(e) => e.message(),
        }
    }

    /// Whether the caller has to ask for something else.
    pub fn is_input_error(&self) -> (out: bool)
        ensures
            out == (self is Input),
    {
        match self {
            SelectError::Input(_) => true,
            SelectError::Config(_) => false,
        }
    }
}

/// A file with a list of paths, and what reading it gave.
pub struct PathsFile {
    pub path: String,
    pub text: Result<String, String>,
}

/// The pieces that hold more than white space, without the space around them.
pub open spec fn listed(pieces: Seq<Seq<char>>) -> Seq<Seq<char>>
    decreases pieces.len(),
{
    if pieces.len() == 0 {
        Seq::empty()
    } else if is_blank(pieces.last()) {
        listed(pieces.drop_last())
    } else {
        listed(pieces.drop_last()).push(trimmed(pieces.last()))
    }
}

/// The paths that a text lists, one on each line.
pub open spec fn listed_paths(text: Seq<char>) -> Seq<Seq<char>> {
    listed(split(text, '\n'))
}

/// The corpus that a list of paths makes.
pub open spec fn ad_hoc_model(paths: Seq<Seq<char>>) -> CorpusModel {
    CorpusModel {
        name: AD_HOC_CORPUS_NAME@,
        paths,
        globs: Seq::empty(),
        exclude: Seq::empty(),
        global: false,
    }
}

/// The message for a file of paths that cannot be read.
pub open spec fn unreadable_paths_message(path: Seq<char>, detail: Seq<char>) -> Seq<char> {
    "read paths-from file "@ + path + ": "@ + detail
}

/// The message for a file that lists no paths.
pub open spec fn empty_paths_message(path: Seq<char>) -> Seq<char> {
    "paths-from file "@ + path + " is empty"@
}

/// Whether the result is an error of the caller with the given message.
pub open spec fn is_input<T>(out: Result<T, SelectError>, message: Seq<char>) -> bool {
    out matches Err(SelectError::Input(m)) && m@ == message
}

/// The corpus that a file of paths makes: one path on each line, blank lines
/// aside.  A file that cannot be read or lists nothing is the caller's error.
pub fn ad_hoc_corpus(file: &PathsFile) -> (out: Result<CorpusConfig, SelectError>)
    ensures
        match file.text {
            Err(detail) => is_input(out, unreadable_paths_message(file.path@, detail@)),
            Ok(text) => if listed_paths(text@).len() == 0 {
                is_input(out, empty_paths_message(file.path@))
            } else {
                out matches Ok(corpus) && corpus@ == ad_hoc_model(listed_paths(text@))
            },
        },
{
    let text = match &file.text {
        Ok(text) => text,
        Err(detail) => {
            return Err(
                SelectError::Input(
                    cat4("read paths-from file ", file.path.as_str(), ": ", detail.as_str()),
                ),
            );
        },
    };
    let pieces = split_on(text.as_str(), '\n');
    let mut paths: Vec<String> = Vec::new();
    for i in 0..pieces.len()
        invariant
            views(pieces@) == split(text@, '\n'),
            views(paths@) == listed(views(pieces@).take(i as int)),
    {
        let ghost before = views(paths@);
        proof {
            let next = views(pieces@).take(i + 1);
            assert(next.drop_last() =~= views(pieces@).take(i as int));
            assert(next.last() == pieces@[i as int]@);
        }
        if !blank(pieces[i].as_str()) {
            paths.push(trim_text(pieces[i].as_str()));
            proof {
                assert(views(paths@) =~= before.push(trimmed(pieces@[i as int]@)));
            }
        }
    }
    proof {
        assert(views(pieces@).take(pieces@.len() as int) =~= views(pieces@));
    }
    if paths.len() == 0 {
        return Err(SelectError::Input(cat3("paths-from file ", file.path.as_str(), " is empty")));
    }
    let corpus = CorpusConfig {
        name: owned(AD_HOC_CORPUS_NAME),
        paths,
        globs: Vec::new(),
        exclude: Vec::new(),
        global: false,
    };
    proof {
        assert(corpus@ =~= ad_hoc_model(listed_paths(text@)));
    }
    Ok(corpus)
}

/// Each path that is listed is one that was written, and none is blank.
pub proof fn listed_paths_are_not_blank(pieces: Seq<Seq<char>>)
    ensures
        listed(pieces).len() <= pieces.len(),
        forall|i: int| 0 <= i < listed(pieces).len() ==> (#[trigger] listed(pieces)[i]).len() > 0,
    decreases pieces.len(),
{
    if pieces.len() > 0 {
        listed_paths_are_not_blank(pieces.drop_last());
        crate::text::blank_trims_to_nothing(pieces.last());
        let front = listed(pieces.drop_last());
        assert forall|i: int| 0 <= i < listed(pieces).len() implies (#[trigger] listed(
            pieces,
        )[i]).len() > 0 by {
            if i < front.len() {
                assert(listed(pieces)[i] == front[i]);
            }
        }
    }
}

/// The corpora to index: those of a file of paths where one is given, else the
/// named corpus, else all of them.
pub fn select_corpora(
    cfg: &Config,
    requested: Option<&str>,
    paths_from: Option<&PathsFile>,
) -> (out: Result<Vec<CorpusConfig>, SelectError>)
    ensures
        match paths_from {
            Some(file) => match file.text {
                Err(detail) => is_input(out, unreadable_paths_message(file.path@, detail@)),
                Ok(text) => if listed_paths(text@).len() == 0 {
                    is_input(out, empty_paths_message(file.path@))
                } else {
                    out matches Ok(list) && corpus_models(list@) == seq![
                        ad_hoc_model(listed_paths(text@)),
                    ]
                },
            },
            None => match corpora_fault(cfg@.corpora, cfg@.repositories) {
                Some(fault) => out matches Err(
                    SelectError::Config(HallouminateError::Config(m)),
                ) && m@ == fault,
                None => {
                    let all = all_corpora(cfg@.corpora, cfg@.repositories);
                    match requested {
                        Some(name) => match corpus_named(all, name@) {
                            Some(found) => out matches Ok(list) && corpus_models(list@) == seq![
                                found,
                            ],
                            None => is_input(out, not_found_message(name@)),
                        },
                        None => if all.len() == 0 {
                            is_input(out, NO_CORPORA@)
                        } else {
                            out matches Ok(list) && corpus_models(list@) == all
                        },
                    }
                },
            },
        },
{
    match paths_from {
        Some(file) => {
            return match ad_hoc_corpus(file) {
                Ok(corpus) => {
                    let mut list: Vec<CorpusConfig> = Vec::new();
                    let ghost model = corpus@;
                    list.push(corpus);
                    proof {
                        assert(corpus_models(list@) =~= seq![model]);
                    }
                    Ok(list)
                },
                Err(e) => Err(e),
            };
        },
        None => {},
    }
    let effective = match cfg.effective_corpora() {
        Ok(list) => list,
        Err(e) => {
            return Err(SelectError::Config(e));
        },
    };
    match requested {
        Some(name) => match find_corpus(&effective, name) {
            Some(i) => {
                let mut list: Vec<CorpusConfig> = Vec::new();
                list.push(effective[i].copy());
                proof {
                    assert(corpus_models(list@) =~= seq![effective@[i as int]@]);
                }
                Ok(list)
            },
            None => Err(SelectError::Input(not_found_text(name))),
        },
        None => {
            if effective.len() == 0 {
                return Err(SelectError::Input(owned(NO_CORPORA)));
            }
            Ok(effective)
        },
    }
}

/// The error for a file of paths, which the daemon does not take.
pub fn ad_hoc_corpus_unsupported(file: &str) -> (out: SelectError)
    ensures
        out matches SelectError::Input(m) && m@
            == "--paths-from is not supported via the daemon yet ("@ + file@ + ")"@,
{
    SelectError::Input(cat3("--paths-from is not supported via the daemon yet (", file, ")"))
}

/// The paths that are listed are those of every line that is not blank, in the
/// order of the lines, without the white space around them.
pub proof fn every_filled_line_is_a_path(pieces: Seq<Seq<char>>)
    ensures
        listed(pieces) == pieces.filter(|piece: Seq<char>| !is_blank(piece)).map_values(
            |piece: Seq<char>| trimmed(piece),
        ),
    decreases pieces.len(),
{
    reveal(Seq::filter);
    let filled = |piece: Seq<char>| !is_blank(piece);
    let path = |piece: Seq<char>| trimmed(piece);
    if pieces.len() > 0 {
        every_filled_line_is_a_path(pieces.drop_last());
        let before = pieces.drop_last().filter(filled).map_values(path);
        let now = pieces.filter(filled).map_values(path);
        if filled(pieces.last()) {
            assert(now =~= before.push(path(pieces.last())));
        } else {
            assert(now =~= before);
        }
    } else {
        assert(pieces.filter(filled).map_values(path) =~= Seq::<Seq<char>>::empty());
    }
}

/// Counts are counted together one by one: each with its own.
pub proof fn each_count_is_added_to_its_own(a: ApplyStats, b: ApplyStats)
    requires
        stats_fit(a, b),
    ensures
        stats_sum(a, b).files_upserted == a.files_upserted + b.files_upserted,
        stats_sum(a, b).files_touched == a.files_touched + b.files_touched,
        stats_sum(a, b).files_deleted == a.files_deleted + b.files_deleted,
        stats_sum(a, b).files_skipped_empty == a.files_skipped_empty + b.files_skipped_empty,
        stats_sum(a, b).chunks_inserted == a.chunks_inserted + b.chunks_inserted,
        stats_sum(a, b).embeddings_inserted == a.embeddings_inserted + b.embeddings_inserted,
{
}

/// A report gives every count as it was counted, under the name of its corpus.
pub proof fn reports_give_the_counts(report: CorpusReport, name: Seq<char>, stats: ApplyStats)
    requires
        is_report(report, name, stats),
    ensures
        report.name@ == name,
        stats == (ApplyStats {
            files_upserted: report.files_upserted,
            files_touched: report.files_touched,
            files_deleted: report.files_deleted,
            files_skipped_empty: report.files_skipped_empty,
            chunks_inserted: report.chunks_inserted,
            embeddings_inserted: report.embeddings_inserted,
        }),
{
}

/// The corpus that a list of paths makes is all that is at those paths, in a
/// corpus of its own.
pub proof fn lists_of_paths_make_a_corpus(paths: Seq<Seq<char>>, text: Seq<char>)
    ensures
        ad_hoc_model(paths).name == "ad-hoc"@,
        ad_hoc_model(paths).paths == paths,
        ad_hoc_model(paths).globs.len() == 0,
        ad_hoc_model(paths).exclude.len() == 0,
        !ad_hoc_model(paths).global,
        listed_paths(text) == split(text, '\n').filter(
            |piece: Seq<char>| !is_blank(piece),
        ).map_values(|piece: Seq<char>| trimmed(piece)),
{
    every_filled_line_is_a_path(split(text, '\n'));
}

/// Counts can be counted together where each sum is a number that can be kept.
pub proof fn counts_fit_where_their_sums_do(a: ApplyStats, b: ApplyStats)
    ensures
        stats_fit(a, b) <==> {
            &&& a.files_upserted + b.files_upserted < usize::MAX + 1
            &&& a.files_touched + b.files_touched < usize::MAX + 1
            &&& a.files_deleted + b.files_deleted < usize::MAX + 1
            &&& a.files_skipped_empty + b.files_skipped_empty < usize::MAX + 1
            &&& a.chunks_inserted + b.chunks_inserted < usize::MAX + 1
            &&& a.embeddings_inserted + b.embeddings_inserted < usize::MAX + 1
        },
{
}

} // verus!
