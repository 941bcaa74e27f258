//! Which file of which corpus a request means, and whether it may be touched.

use vstd::prelude::*;
use vstd::string::StringExecFns;

use crate::corpus::{
    corpus_models, is_wiki_corpus, names_wiki, pick_corpus, picked, CorpusConfig, CorpusModel,
};
use crate::daemon::ipc::{failed, is_error, refused, DaemonResponse, ErrorKind};
use crate::path::{
    absolute, below, components, components_are_names, components_of, components_of_joined, dot,
    dot_dot, is_absolute, is_name, join, joined, joined_is_below, names_of_names, parent,
    parent_of, slash, starts_here, within,
};
use crate::text::{
    cat2, cat3, cat4, cat5, debug_quote, debug_text, decimal, decimal_text, join_list, join_with,
    same, split, split_undoes_join, views,
};
use crate::tilde::{expand_tilde, expands_to};

verus! {

/// Whether a path stays below the directory that it is seen from: it is made of
/// names only.
pub open spec fn is_safe(path: Seq<char>) -> bool {
    &&& !absolute(path)
    &&& components(path).len() > 0
    &&& forall|i: int|
        0 <= i < components(path).len() ==> (#[trigger] components(path)[i]) != dot()
            && components(path)[i] != dot_dot()
}

/// The path with its separators tidied up.
pub open spec fn tidy(path: Seq<char>) -> Seq<char> {
    join_with(components(path), slash())
}

/// The message for a path that may leave its directory.
pub open spec fn unsafe_message(path: Seq<char>) -> Seq<char> {
    "path "@ + debug_text(path) + " must be relative and contain only normal file components"@
}

/// The path below a corpus root that the caller means; an error where it could
/// lead out of the root.
pub fn safe_relative_path(path: &str) -> (out: Result<String, String>)
    ensures
        is_safe(path@) ==> (out matches Ok(relative) && relative@ == tidy(path@)),
        !is_safe(path@) ==> (out matches Err(message) && message@ == unsafe_message(path@)),
{
    let parts = components_of(path);
    let mut fine = !is_absolute(path) && parts.len() > 0;
    proof {
        reveal_strlit(".");
        reveal_strlit("..");
        reveal_strlit("/");
        assert("."@ =~= dot());
        assert(".."@ =~= dot_dot());
        assert("/"@ =~= slash());
    }
    for i in 0..parts.len()
        invariant
            views(parts@) == components(path@),
            "."@ == dot(),
            ".."@ == dot_dot(),
            fine == (!absolute(path@) && components(path@).len() > 0 && forall|j: int|
                0 <= j < i ==> (#[trigger] components(path@)[j]) != dot() && components(path@)[j]
                    != dot_dot()),
    {
        proof {
            assert(components(path@)[i as int] == parts@[i as int]@);
        }
        if same(parts[i].as_str(), ".") || same(parts[i].as_str(), "..") {
            fine = false;
        }
    }
    if fine {
        Ok(join_list(&parts, "/"))
    } else {
        Err(
            cat3(
                "path ",
                debug_quote(path).as_str(),
                " must be relative and contain only normal file components",
            ),
        )
    }
}

/// The message for a corpus that has no one place to write to.
pub open spec fn many_roots_message(name: Seq<char>, roots: nat) -> Seq<char> {
    "corpus "@ + debug_text(name) + " has "@ + decimal(roots)
        + " roots; mutations (add/delete) require a single-root corpus — multi-root corpora are read- and search-only"@
}

/// The one root of a corpus.  A corpus with several is read and searched only:
/// there is no one place where a file of it would be written.
pub fn require_single_root(corpus: &CorpusConfig) -> (out: Result<String, DaemonResponse>)
    ensures
        corpus@.paths.len() == 1 ==> (out matches Ok(root) && expands_to(corpus@.paths[0], root@)),
        corpus@.paths.len() != 1 ==> refused(
            out,
            many_roots_message(corpus@.name, corpus@.paths.len()),
        ),
{
    if corpus.paths.len() == 1 {
        return Ok(expand_tilde(corpus.paths[0].as_str()));
    }
    let mut message = cat3("corpus ", debug_quote(corpus.name.as_str()).as_str(), " has ");
    message.append(decimal_text(corpus.paths.len() as u64).as_str());
    message.append(
        " roots; mutations (add/delete) require a single-root corpus — multi-root corpora are read- and search-only",
    );
    Err(DaemonResponse::invalid_params(message.as_str()))
}

/// A file of a corpus.
#[derive(Debug)]
pub struct WikiTarget {
    pub corpus: CorpusConfig,
    /// The root of the corpus that the file is below.
    pub root: String,
    /// The file, seen from the root.
    pub relative: String,
}

impl WikiTarget {
    /// Where the file is.
    pub open spec fn dest(&self) -> Seq<char> {
        joined(self.root@, self.relative@)
    }

    /// Where the file is.
    pub fn path(&self) -> (out: String)
        ensures
            out@ == self.dest(),
    {
        join(self.root.as_str(), self.relative.as_str())
    }
}

/// Why no file of the corpus can be written under that path, if none can.
pub open spec fn target_fault(
    corpora: Seq<CorpusModel>,
    name: Seq<char>,
    path: Seq<char>,
) -> Option<Seq<char>> {
    match picked(corpora, Some(name)) {
        Err(message) => Some(message),
        Ok(corpus) => if corpus.paths.len() != 1 {
            Some(many_roots_message(corpus.name, corpus.paths.len()))
        } else if !is_safe(path) {
            Some(unsafe_message(path))
        } else {
            None
        },
    }
}

/// The file that a request to write or delete means: the corpus is named, has
/// one root, and the path stays below it.
pub fn wiki_target(corpora: &Vec<CorpusConfig>, corpus_name: &str, path: &str) -> (out: Result<
    WikiTarget,
    DaemonResponse,
>)
    ensures
        match target_fault(corpus_models(corpora@), corpus_name@, path@) {
            Some(fault) => refused(out, fault),
            None => out matches Ok(target) && picked(
                corpus_models(corpora@),
                Some(corpus_name@),
            ) == Ok::<CorpusModel, Seq<char>>(target.corpus@) && expands_to(
                target.corpus@.paths[0],
                target.root@,
            ) && target.relative@ == tidy(path@),
        },
{
    let corpus = match pick_corpus(corpora, Some(corpus_name)) {
        Ok(corpus) => corpus,
        Err(message) => {
            return Err(DaemonResponse::invalid_params(message.as_str()));
        },
    };
    let root = match require_single_root(&corpus) {
        Ok(root) => root,
        Err(response) => {
            return Err(response);
        },
    };
    let relative = match safe_relative_path(path) {
        Ok(relative) => relative,
        Err(message) => {
            return Err(DaemonResponse::invalid_params(message.as_str()));
        },
    };
    Ok(WikiTarget { corpus, root, relative })
}

/// What was found out about a file before it is touched.
#[derive(Debug)]
pub struct PathChecks {
    /// Why the filters of the corpus leave the file out, if they do.
    pub filter_refusal: Option<String>,
    /// Whether the directory that holds the first root is a symbolic link.
    pub parent_is_link: bool,
    /// Whether the first root is a symbolic link.
    pub root_is_link: bool,
}

/// The message for a wiki whose directory is reached through a link.
pub open spec fn linked_parent_message(name: Seq<char>, dir: Seq<char>) -> Seq<char> {
    "wiki corpus "@ + name + " is unsafe: parent "@ + dir + " is a symlink"@
}

/// The message for a wiki that is a link.
pub open spec fn linked_root_message(name: Seq<char>) -> Seq<char> {
    "wiki corpus "@ + name + " is unsafe: wiki root is a symlink"@
}

/// Why the directory of a wiki must not be used, if it must not.  `root` is the
/// first root of the corpus.
pub open spec fn root_fault(
    corpus: CorpusModel,
    root: Seq<char>,
    parent_is_link: bool,
    root_is_link: bool,
) -> Option<Seq<char>> {
    if !names_wiki(corpus.name) || corpus.paths.len() == 0 {
        None
    } else if parent_is_link && parent(root) is Some {
        Some(linked_parent_message(corpus.name, parent(root)->0))
    } else if root_is_link {
        Some(linked_root_message(corpus.name))
    } else {
        None
    }
}

/// Fails where the directory of a wiki, or the one that holds it, is a symbolic
/// link.  Other corpora may use links.
pub fn ensure_wiki_root_safe(
    corpus: &CorpusConfig,
    root: &str,
    parent_is_link: bool,
    root_is_link: bool,
) -> (out: Result<(), String>)
    ensures
        match root_fault(corpus@, root@, parent_is_link, root_is_link) {
            Some(fault) => out matches Err(message) && message@ == fault,
            None => out is Ok,
        },
{
    if !is_wiki_corpus(corpus) || corpus.paths.len() == 0 {
        return Ok(());
    }
    if parent_is_link {
        match parent_of(root) {
            Some(dir) => {
                return Err(
                    cat5(
                        "wiki corpus ",
                        corpus.name.as_str(),
                        " is unsafe: parent ",
                        dir.as_str(),
                        " is a symlink",
                    ),
                );
            },
            None => {},
        }
    }
    if root_is_link {
        return Err(
            cat3("wiki corpus ", corpus.name.as_str(), " is unsafe: wiki root is a symlink"),
        );
    }
    Ok(())
}

/// Why the file must not be touched, if it must not.
pub open spec fn checks_fault(corpus: CorpusModel, root: Seq<char>, checks: PathChecks) -> Option<
    Seq<char>,
> {
    match checks.filter_refusal {
        Some(refusal) => Some(refusal@),
        None => root_fault(corpus, root, checks.parent_is_link, checks.root_is_link),
    }
}

fn run_checks(corpus: &CorpusConfig, first_root: &str, checks: &PathChecks) -> (out: Result<
    (),
    DaemonResponse,
>)
    ensures
        match checks_fault(corpus@, first_root@, *checks) {
            Some(fault) => refused(out, fault),
            None => out is Ok,
        },
{
    match &checks.filter_refusal {
        Some(refusal) => {
            return Err(DaemonResponse::invalid_params(refusal.as_str()));
        },
        None => {},
    }
    match ensure_wiki_root_safe(corpus, first_root, checks.parent_is_link, checks.root_is_link) {
        Ok(_) => Ok(()),
        Err(message) => Err(DaemonResponse::invalid_params(message.as_str())),
    }
}

/// The file that a request to write or delete means, once it has been checked:
/// the filters of the corpus take it and no link leads out of the wiki.
pub fn validate_wiki_path(target: WikiTarget, checks: &PathChecks) -> (out: Result<
    WikiTarget,
    DaemonResponse,
>)
    ensures
        match checks_fault(target.corpus@, target.root@, *checks) {
            Some(fault) => refused(out, fault),
            None => out matches Ok(same_target) && same_target == target,
        },
{
    match run_checks(&target.corpus, target.root.as_str(), checks) {
        Ok(_) => Ok(target),
        Err(response) => Err(response),
    }
}

/// How a file could not be touched.
#[derive(Debug, Clone, Copy, PartialEq, Eq, Structural)]
pub enum WriteErrorKind {
    /// There is a file already.
    Exists,
    /// A symbolic link is in the way.
    Symlink,
    /// The path leads nowhere.
    InvalidPath,
    /// The file system failed.
    Io,
}

/// A file that could not be touched.
#[derive(Debug)]
pub struct WriteError {
    pub kind: WriteErrorKind,
    /// Whether there is no such file.
    pub not_found: bool,
    /// What the file system said.
    pub detail: String,
}

/// Whether the answer is the one for a file that could not be read or deleted.
/// `verb` is how a refusal says it and `op` how a failure does.
pub open spec fn is_access_error(
    out: DaemonResponse,
    error: WriteError,
    relative: Seq<char>,
    verb: Seq<char>,
    op: Seq<char>,
) -> bool {
    match error.kind {
        WriteErrorKind::Symlink => is_error(
            out,
            ErrorKind::InvalidParams,
            "refusing to "@ + verb + " symlink "@ + relative + ": "@ + error.detail@,
        ),
        WriteErrorKind::InvalidPath => if error.not_found {
            is_error(out, ErrorKind::InvalidParams, relative + " does not exist"@)
        } else {
            is_error(
                out,
                ErrorKind::InvalidParams,
                "refusing unsafe path "@ + relative + ": "@ + error.detail@,
            )
        },
        WriteErrorKind::Io => if error.not_found {
            is_error(out, ErrorKind::InvalidParams, relative + " does not exist"@)
        } else {
            is_error(out, ErrorKind::Internal, op + " "@ + relative + ": "@ + error.detail@)
        },
        WriteErrorKind::Exists => is_error(out, ErrorKind::Internal, error.detail@),
    }
}

fn access_error(error: &WriteError, relative: &str, verb: &str, op: &str) -> (out: DaemonResponse)
    ensures
        is_access_error(out, *error, relative@, verb@, op@),
{
    match error.kind {
        WriteErrorKind::Symlink => {
            let mut message = cat3("refusing to ", verb, " symlink ");
            message.append(relative);
            message.append(": ");
            message.append(error.detail.as_str());
            DaemonResponse::invalid_params(message.as_str())
        },
        WriteErrorKind::InvalidPath => if error.not_found {
            DaemonResponse::invalid_params(cat2(relative, " does not exist").as_str())
        } else {
            DaemonResponse::invalid_params(
                cat4("refusing unsafe path ", relative, ": ", error.detail.as_str()).as_str(),
            )
        },
        WriteErrorKind::Io => if error.not_found {
            DaemonResponse::invalid_params(cat2(relative, " does not exist").as_str())
        } else {
            let mut message = cat3(op, " ", relative);
            message.append(": ");
            message.append(error.detail.as_str());
            DaemonResponse::internal(message.as_str())
        },
        WriteErrorKind::Exists => DaemonResponse::internal(error.detail.as_str()),
    }
}

/// The answer for a file that could not be read.
pub fn map_read_error(error: &WriteError, relative: &str) -> (out: DaemonResponse)
    ensures
        is_access_error(out, *error, relative@, "read"@, "read"@),
{
    access_error(error, relative, "read", "read")
}

/// The answer for a file that could not be deleted.
pub fn map_delete_error(error: &WriteError, relative: &str) -> (out: DaemonResponse)
    ensures
        is_access_error(out, *error, relative@, "delete"@, "unlink"@),
{
    access_error(error, relative, "delete", "unlink")
}

/// Whether the answer is the one for a file that could not be written.
pub open spec fn is_write_error(out: DaemonResponse, error: WriteError, relative: Seq<char>) -> bool {
    match error.kind {
        WriteErrorKind::Exists => is_error(
            out,
            ErrorKind::InvalidParams,
            relative + " already exists; pass overwrite=true to replace it"@,
        ),
        WriteErrorKind::Symlink | WriteErrorKind::InvalidPath => is_error(
            out,
            ErrorKind::InvalidParams,
            "refusing unsafe path "@ + relative + ": "@ + error.detail@,
        ),
        WriteErrorKind::Io => is_error(out, ErrorKind::Internal, error.detail@),
    }
}

/// The answer for a file that could not be written.
pub fn map_write_error(error: &WriteError, relative: &str) -> (out: DaemonResponse)
    ensures
        is_write_error(out, *error, relative@),
{
    match error.kind {
        WriteErrorKind::Exists => DaemonResponse::invalid_params(
            cat2(relative, " already exists; pass overwrite=true to replace it").as_str(),
        ),
        WriteErrorKind::Symlink | WriteErrorKind::InvalidPath => DaemonResponse::invalid_params(
            cat4("refusing unsafe path ", relative, ": ", error.detail.as_str()).as_str(),
        ),
        WriteErrorKind::Io => DaemonResponse::internal(error.detail.as_str()),
    }
}

/// The corpus and the path that a request to read means; the roots are tried
/// next.
#[derive(Debug)]
pub struct ReadTarget {
    pub corpus: CorpusConfig,
    pub relative: String,
}

/// The corpus and the path that a request to read means.
pub fn read_target(corpora: &Vec<CorpusConfig>, corpus_name: &str, path: &str) -> (out: Result<
    ReadTarget,
    DaemonResponse,
>)
    ensures
        match picked(corpus_models(corpora@), Some(corpus_name@)) {
            Err(message) => refused(out, message),
            Ok(corpus) => if is_safe(path@) {
                out matches Ok(target) && target.corpus@ == corpus && target.relative@ == tidy(
                    path@,
                )
            } else {
                refused(out, unsafe_message(path@))
            },
        },
{
    let corpus = match pick_corpus(corpora, Some(corpus_name)) {
        Ok(corpus) => corpus,
        Err(message) => {
            return Err(DaemonResponse::invalid_params(message.as_str()));
        },
    };
    match safe_relative_path(path) {
        Ok(relative) => Ok(ReadTarget { corpus, relative }),
        Err(message) => Err(DaemonResponse::invalid_params(message.as_str())),
    }
}

/// The file that a request to read means.  `found` is the root of the corpus
/// that holds it, or why none does; any of its roots will do.  `first_root` is
/// its first root, where the wiki is checked for links.
pub fn validate_wiki_read_path(
    target: ReadTarget,
    found: Result<String, WriteError>,
    first_root: &str,
    checks: &PathChecks,
) -> (out: Result<WikiTarget, DaemonResponse>)
    ensures
        match found {
            Err(error) => out matches Err(response) && is_access_error(
                response,
                error,
                target.relative@,
                "read"@,
                "read"@,
            ),
            Ok(root) => match checks_fault(target.corpus@, first_root@, *checks) {
                Some(fault) => refused(out, fault),
                None => out matches Ok(file) && file.corpus == target.corpus && file.root == root
                    && file.relative == target.relative,
            },
        },
{
    let root = match found {
        Ok(root) => root,
        Err(error) => {
            return Err(map_read_error(&error, target.relative.as_str()));
        },
    };
    match run_checks(&target.corpus, first_root, checks) {
        Ok(_) => Ok(WikiTarget { corpus: target.corpus, root, relative: target.relative }),
        Err(response) => Err(response),
    }
}

/// A safe path names a file below the root: what is below the root is what the
/// path names, and nothing above the root is touched.
pub proof fn safe_path_stays_below_root(root: Seq<char>, path: Seq<char>)
    requires
        is_safe(path),
    ensures
        is_safe(tidy(path)),
        components(tidy(path)) == components(path),
        components(joined(root, tidy(path))) == components(root) + components(path),
        within(joined(root, tidy(path)), root),
        root.len() > 0 ==> below(joined(root, tidy(path)), root) == tidy(path),
{
    let parts = components(path);
    let rel = tidy(path);
    components_are_names(path);
    assert forall|i: int| 0 <= i < parts.len() implies is_name(#[trigger] parts[i])
        && !parts[i].contains('/') by {
        assert(parts[i] != dot());
    }
    assert(!starts_here(path)) by {
        if starts_here(path) {
            assert(parts[0] == dot());
        }
    }
    split_undoes_join(parts, '/');
    assert(split(rel, '/') == parts);
    names_of_names(parts);
    assert(components(rel) == parts);
    assert(!absolute(rel)) by {
        crate::path::first_piece_starts_text(rel, '/');
        assert(is_name(parts[0]));
        assert(rel.take(parts[0].len() as int)[0] == parts[0][0]);
        if parts[0][0] == '/' {
            assert(parts[0].contains('/'));
        }
    }
    assert(is_safe(rel)) by {
        assert forall|i: int| 0 <= i < components(rel).len() implies (#[trigger] components(
            rel,
        )[i]) != dot() && components(rel)[i] != dot_dot() by {
            assert(components(path)[i] != dot());
        }
    }
    components_of_joined(root, rel);
    let whole = joined(root, rel);
    assert(components(whole) =~= components(root) + parts);
    assert(components(whole).take(components(root).len() as int) =~= components(root));
    assert(absolute(whole) == absolute(root)) by {
        if root.len() > 0 {
            assert(whole[0] == root[0]);
        } else {
            assert(whole =~= rel);
        }
    }
    if root.len() > 0 {
        joined_is_below(root, parts);
    }
}

/// A path that is put together from names stays below the root, and is taken as
/// it is; one that starts at the root of the file system, goes up, or names
/// nothing, is not taken.
pub proof fn paths_of_names_are_safe(parts: Seq<Seq<char>>)
    requires
        parts.len() > 0,
        forall|i: int|
            0 <= i < parts.len() ==> is_name(#[trigger] parts[i]) && !parts[i].contains('/'),
    ensures
        is_safe(join_with(parts, slash())) <==> !parts.contains(dot_dot()),
        tidy(join_with(parts, slash())) == join_with(parts, slash()),
        !is_safe(slash() + join_with(parts, slash())),
        !is_safe(Seq::empty()),
{
    let text = join_with(parts, slash());
    crate::path::paths_are_made_of_their_names(parts);
    split_undoes_join(parts, '/');
    assert(!absolute(text)) by {
        crate::path::first_piece_starts_text(text, '/');
        assert(is_name(parts[0]));
        assert(text.take(parts[0].len() as int)[0] == parts[0][0]);
        if parts[0][0] == '/' {
            assert(parts[0].contains('/'));
        }
    }
    assert forall|i: int| 0 <= i < parts.len() implies (#[trigger] components(text)[i]) != dot() by {
        assert(is_name(parts[i]));
    }
    if parts.contains(dot_dot()) {
        let i = choose|i: int| 0 <= i < parts.len() && parts[i] == dot_dot();
        assert(components(text)[i] == dot_dot());
    }
    assert((slash() + text)[0] == '/');
    let none = Seq::<char>::empty();
    assert(split(none, '/') =~= seq![none]);
    names_of_nothing();
}

proof fn names_of_nothing()
    ensures
        components(Seq::<char>::empty()).len() == 0,
{
    let none = Seq::<char>::empty();
    let pieces = split(none, '/');
    assert(pieces =~= seq![none]);
    assert(!is_name(pieces.last()));
    assert(pieces.drop_last() =~= Seq::<Seq<char>>::empty());
    assert(crate::path::names(pieces.drop_last()).len() == 0);
    assert(none != dot());
}

/// A file of a corpus is found where the corpus is there, has one root, and the
/// path stays below it; else what is wrong is told in that order.
pub proof fn targets_are_files_below_the_root(
    corpora: Seq<CorpusModel>,
    name: Seq<char>,
    path: Seq<char>,
    i: int,
)
    requires
        0 <= i < corpora.len(),
        corpora[i].name == name,
        forall|j: int| 0 <= j < i ==> (#[trigger] corpora[j]).name != name,
    ensures
        target_fault(corpora, name, path) is None <==> corpora[i].paths.len() == 1 && is_safe(path),
        corpora[i].paths.len() != 1 ==> target_fault(corpora, name, path) == Some(
            "corpus "@ + debug_text(name) + " has "@ + decimal(corpora[i].paths.len())
                + " roots; mutations (add/delete) require a single-root corpus — multi-root corpora are read- and search-only"@,
        ),
{
    crate::corpus::the_first_of_a_name_is_found(corpora, name, i);
}

/// A wiki is not used where its directory, or the one that holds it, is a link;
/// another corpus is.  A file that the filters leave out is not touched.
pub proof fn links_do_not_lead_out_of_wikis(
    corpus: CorpusModel,
    root: Seq<char>,
    checks: PathChecks,
)
    requires
        corpus.paths.len() > 0,
    ensures
        checks.filter_refusal is Some ==> checks_fault(corpus, root, checks) == Some(
            checks.filter_refusal->0@,
        ),
        checks.filter_refusal is None ==> (checks_fault(corpus, root, checks) is Some
            <==> names_wiki(corpus.name) && (checks.root_is_link || (checks.parent_is_link
            && parent(root) is Some))),
{
}

/// A file that is there already, or is a link, is the matter of the caller; a
/// file system that fails is not.
pub proof fn errors_are_of_the_caller_or_not(
    out: DaemonResponse,
    error: WriteError,
    relative: Seq<char>,
)
    requires
        is_write_error(out, error, relative),
    ensures
        error.kind is Io ==> is_error(out, ErrorKind::Internal, error.detail@),
        error.kind is Exists ==> is_error(
            out,
            ErrorKind::InvalidParams,
            relative + " already exists; pass overwrite=true to replace it"@,
        ),
        error.kind is Symlink || error.kind is InvalidPath ==> is_error(
            out,
            ErrorKind::InvalidParams,
            "refusing unsafe path "@ + relative + ": "@ + error.detail@,
        ),
{
}

/// A file that is not there is said not to exist, whatever was to be done with
/// it; only a failure of the file system is not the matter of the caller.
pub proof fn missing_files_are_said_to_be_missing(
    out: DaemonResponse,
    error: WriteError,
    relative: Seq<char>,
    verb: Seq<char>,
    op: Seq<char>,
)
    requires
        is_access_error(out, error, relative, verb, op),
        error.kind is Io || error.kind is InvalidPath,
    ensures
        error.not_found ==> is_error(out, ErrorKind::InvalidParams, relative + " does not exist"@),
        !error.not_found && error.kind is Io ==> is_error(
            out,
            ErrorKind::Internal,
            op + " "@ + relative + ": "@ + error.detail@,
        ),
{
}

/// What is a link is refused as one, with what was to be done with it; what was
/// done and failed is told with what the file system said.
pub proof fn links_are_refused_as_links(
    out: DaemonResponse,
    error: WriteError,
    relative: Seq<char>,
    verb: Seq<char>,
    op: Seq<char>,
)
    requires
        is_access_error(out, error, relative, verb, op),
    ensures
        error.kind is Symlink ==> is_error(
            out,
            ErrorKind::InvalidParams,
            "refusing to "@ + verb + " symlink "@ + relative + ": "@ + error.detail@,
        ),
        error.kind is InvalidPath && !error.not_found ==> is_error(
            out,
            ErrorKind::InvalidParams,
            "refusing unsafe path "@ + relative + ": "@ + error.detail@,
        ),
{
}

/// A path that is not taken is named, and so is what a path must be.
pub proof fn unsafe_paths_are_named(path: Seq<char>, name: Seq<char>, dir: Seq<char>)
    ensures
        unsafe_message(path) == "path "@ + debug_text(path)
            + " must be relative and contain only normal file components"@,
        linked_parent_message(name, dir) == "wiki corpus "@ + name + " is unsafe: parent "@ + dir
            + " is a symlink"@,
        linked_root_message(name) == "wiki corpus "@ + name
            + " is unsafe: wiki root is a symlink"@,
{
}

} // verus!
