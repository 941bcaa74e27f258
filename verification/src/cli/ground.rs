//! The search command.

use vstd::prelude::*;
use vstd::string::StringExecFns;

use crate::config::Config;
use crate::corpus::{
    all_corpora, corpora_fault, corpus_models, corpus_named, find_corpus, CorpusModel,
};
use crate::daemon::dispatch::DEFAULT_LIMIT;
use crate::daemon::ipc::{DaemonRequest, DaemonRequestPayload, GroundRequest, IndexRequest};
use crate::index::{ad_hoc_corpus_unsupported, IndexArgs, SelectError};
use crate::text::{
    chars_of, ends_with, flat, has_prefix, has_suffix, inclusive_lines, opt_str_view, owned,
    split_lines, starts_with, text_between, views,
};
use crate::tilde::{expand_tilde, expands_to};

verus! {

/// How the results of a search are shown.
#[derive(Debug, Clone, Copy, PartialEq, Eq, Structural)]
pub enum Format {
    /// A short outline.
    Outline,
    /// Everything, for programs.
    Json,
    /// Everything, for people.
    JsonPretty,
}

impl Default for Format {
    fn default() -> (out: Format)
        ensures
            out == Format::Outline,
    {
        Format::Outline
    }
}

/// What the search command was asked.
#[derive(Debug, Default, Clone)]
pub struct GroundArgs {
    pub query: String,
    pub corpus: Option<String>,
    pub format: Format,
    pub snippet_chars: Option<usize>,
    pub top_files: Option<usize>,
    pub chunks_per_file: Option<usize>,
    pub limit: Option<usize>,
    pub config: Option<String>,
    pub socket: Option<String>,
}

/// The path of a directory, as paths below it begin with it.
pub open spec fn as_prefix(dir: Seq<char>) -> Seq<char> {
    if has_suffix(dir, seq!['/']) {
        dir
    } else {
        dir.push('/')
    }
}

/// The corpus that the paths of an outline are all below, if there is one: the
/// named corpus, or the only one.
pub open spec fn outline_corpus(all: Seq<CorpusModel>, requested: Option<Seq<char>>) -> Option<
    CorpusModel,
> {
    match requested {
        Some(name) => corpus_named(all, name),
        None => if all.len() == 1 {
            Some(all[0])
        } else {
            None
        },
    }
}

/// The directory that the paths of an outline are all below, if there is one:
/// the only root of the only corpus that is searched.
pub open spec fn outline_root(cfg: crate::config::ConfigModel, requested: Option<Seq<char>>) -> Option<
    Seq<char>,
> {
    match corpora_fault(cfg.corpora, cfg.repositories) {
        Some(_) => None,
        None => match outline_corpus(
            all_corpora(cfg.corpora, cfg.repositories),
            requested,
        ) {
            Some(corpus) => if corpus.paths.len() == 1 {
                Some(corpus.paths[0])
            } else {
                None
            },
            None => None,
        },
    }
}

/// The path of a directory, as paths below it begin with it.
pub fn prefix_of(dir: &str) -> (out: String)
    ensures
        out@ == as_prefix(dir@),
{
    proof {
        reveal_strlit("/");
        assert("/"@ =~= seq!['/']);
    }
    let mut out = owned(dir);
    if !ends_with(dir, "/") {
        out.push('/');
    }
    out
}

/// What the paths of an outline begin with, to be left out there; nothing where
/// leaving it out could make two paths look the same.
pub fn resolve_path_prefix_strip(cfg: &Config, requested_corpus: Option<&str>) -> (out: Option<
    String,
>)
    ensures
        match outline_root(cfg@, opt_str_view(requested_corpus)) {
            Some(root) => out matches Some(prefix) && exists|dir: Seq<char>|
                expands_to(root, dir) && prefix@ == #[trigger] as_prefix(dir),
            None => out is None,
        },
{
    let effective = match cfg.effective_corpora() {
        Ok(list) => list,
        Err(_) => {
            return None;
        },
    };
    let ghost all = corpus_models(effective@);
    let at: usize = match requested_corpus {
        Some(name) => match find_corpus(&effective, name) {
            Some(i) => i,
            None => {
                return None;
            },
        },
        None => {
            if effective.len() != 1 {
                return None;
            }
            0
        },
    };
    proof {
        assert(outline_corpus(all, opt_str_view(requested_corpus)) == Some(
            effective@[at as int]@,
        ));
    }
    let corpus = &effective[at];
    if corpus.paths.len() != 1 {
        return None;
    }
    let dir = expand_tilde(corpus.paths[0].as_str());
    let prefix = prefix_of(dir.as_str());
    proof {
        assert(corpus@.paths[0] == corpus.paths@[0]@);
        assert(prefix@ == as_prefix(dir@));
    }
    Some(prefix)
}

/// What the daemon is asked for a search from the command line.
pub fn ground_request(args: GroundArgs, cwd: String) -> (out: DaemonRequest)
    ensures
        out.cwd == cwd,
        out.payload == DaemonRequestPayload::Ground(
            (GroundRequest {
                query: args.query,
                corpus: args.corpus,
                top_files: args.top_files,
                chunks_per_file: args.chunks_per_file,
                limit: Some(
                    match args.limit {
                        Some(n) => n,
                        None => DEFAULT_LIMIT,
                    },
                ),
                snippet_chars: args.snippet_chars,
            }),
        ),
{
    let limit: usize = match args.limit {
        Some(n) => n,
        None => DEFAULT_LIMIT,
    };
    DaemonRequest {
        cwd,
        payload: DaemonRequestPayload::Ground(
            GroundRequest {
                query: args.query,
                corpus: args.corpus,
                top_files: args.top_files,
                chunks_per_file: args.chunks_per_file,
                limit: Some(limit),
                snippet_chars: args.snippet_chars,
            },
        ),
    }
}

/// What the daemon is asked to index from the command line.  A file of paths is
/// refused before the daemon is asked.
pub fn index_request(args: IndexArgs, cwd: String) -> (out: Result<DaemonRequest, SelectError>)
    ensures
        match args.paths_from {
            Some(file) => out matches Err(SelectError::Input(m)) && m@
                == "--paths-from is not supported via the daemon yet ("@ + file@ + ")"@,
            None => out matches Ok(req) && req.cwd == cwd && req.payload
                == DaemonRequestPayload::Index(
                (IndexRequest { corpus: args.corpus, paths_from: None, strict: false }),
            ),
        },
{
    match &args.paths_from {
        Some(file) => {
            return Err(ad_hoc_corpus_unsupported(file.as_str()));
        },
        None => {},
    }
    Ok(
        DaemonRequest {
            cwd,
            payload: DaemonRequestPayload::Index(
                IndexRequest { corpus: args.corpus, paths_from: None, strict: false },
            ),
        },
    )
}

/// The first `n` lines, each without the prefix where it begins with it.
pub open spec fn without_prefix(lines: Seq<Seq<char>>, prefix: Seq<char>, n: int) -> Seq<char>
    decreases n,
{
    if n <= 0 {
        Seq::empty()
    } else {
        without_prefix(lines, prefix, n - 1) + (if has_prefix(lines[n - 1], prefix) {
            lines[n - 1].skip(prefix.len() as int)
        } else {
            lines[n - 1]
        })
    }
}

/// The outline of a search with the paths at the start of its lines seen from
/// the directory that they are all below.  What stands elsewhere in a line is
/// left as it is.
pub fn shorten_outline(outline: &str, prefix: &str) -> (out: String)
    ensures
        out@ == without_prefix(
            inclusive_lines(outline@),
            prefix@,
            inclusive_lines(outline@).len() as int,
        ),
{
    let lines = split_lines(outline);
    let ghost all = views(lines@);
    let cut: usize = chars_of(prefix).len();
    let mut out = String::new();
    for i in 0..lines.len()
        invariant
            all == views(lines@),
            all == inclusive_lines(outline@),
            cut == prefix@.len(),
            out@ == without_prefix(all, prefix@, i as int),
    {
        let line = lines[i].as_str();
        proof {
            assert(all[i as int] == line@);
        }
        if starts_with(line, prefix) {
            let letters = chars_of(line);
            let rest = text_between(&letters, cut, letters.len());
            proof {
                assert(rest@ =~= line@.skip(cut as int));
            }
            out.append(rest.as_str());
        } else {
            out.append(line);
        }
    }
    out
}

/// A shortened outline has the lines of the outline, in their order; a line that
/// starts with the directory loses it, and no other line loses anything.
pub proof fn lines_lose_the_directory_they_start_with(
    lines: Seq<Seq<char>>,
    prefix: Seq<char>,
    n: int,
)
    requires
        0 <= n <= lines.len(),
    ensures
        without_prefix(lines, prefix, n) == flat(
            Seq::new(
                n as nat,
                |i: int|
                    if lines[i].len() >= prefix.len() && lines[i].subrange(0, prefix.len() as int)
                        == prefix {
                        lines[i].subrange(prefix.len() as int, lines[i].len() as int)
                    } else {
                        lines[i]
                    },
            ),
        ),
    decreases n,
{
    let shown = |i: int|
        if lines[i].len() >= prefix.len() && lines[i].subrange(0, prefix.len() as int) == prefix {
            lines[i].subrange(prefix.len() as int, lines[i].len() as int)
        } else {
            lines[i]
        };
    if n > 0 {
        lines_lose_the_directory_they_start_with(lines, prefix, n - 1);
        let all = Seq::new(n as nat, shown);
        assert(all.drop_last() =~= Seq::new((n - 1) as nat, shown));
        let line = lines[n - 1];
        if line.len() >= prefix.len() {
            assert(line.take(prefix.len() as int) =~= line.subrange(0, prefix.len() as int));
            assert(line.skip(prefix.len() as int) =~= line.subrange(
                prefix.len() as int,
                line.len() as int,
            ));
        }
        assert(all.last() == shown(n - 1));
    }
}

/// Paths below a directory begin with its path and one separator.
pub proof fn prefixes_end_with_one_separator(dir: Seq<char>)
    ensures
        dir.len() > 0 && dir.last() == '/' ==> as_prefix(dir) == dir,
        dir.len() == 0 || dir.last() != '/' ==> as_prefix(dir) == dir + seq!['/'],
{
    if dir.len() > 0 {
        assert(dir.skip(dir.len() - 1)[0] == dir.last());
        if dir.last() == '/' {
            assert(dir.skip(dir.len() - 1) =~= seq!['/']);
        }
    }
    assert(dir.push('/') =~= dir + seq!['/']);
}

/// The paths of an outline are all below one directory where one corpus is
/// searched, the named one or the only one, and it has one root.
pub proof fn outlines_of_one_root_are_shortened(
    cfg: crate::config::ConfigModel,
    requested: Option<Seq<char>>,
    i: int,
)
    requires
        corpora_fault(cfg.corpora, cfg.repositories) is None,
        ({
            let all = all_corpora(cfg.corpora, cfg.repositories);
            &&& 0 <= i < all.len()
            &&& match requested {
                Some(name) => all[i].name == name,
                None => all.len() == 1,
            }
        }),
    ensures
        ({
            let corpus = all_corpora(cfg.corpora, cfg.repositories)[i];
            outline_root(cfg, requested) == if corpus.paths.len() == 1 {
                Some(corpus.paths[0])
            } else {
                None
            }
        }),
{
    let all = all_corpora(cfg.corpora, cfg.repositories);
    if let Some(name) = requested {
        crate::corpus::effective_names_are_distinct(cfg.corpora, cfg.repositories);
        assert forall|j: int| 0 <= j < i implies (#[trigger] all[j]).name != name by {
            assert(crate::corpus::corpus_names(all)[j] != crate::corpus::corpus_names(all)[i]);
        }
        crate::corpus::the_first_of_a_name_is_found(all, name, i);
    }
}

} // verus!
