//! Corpora: named sets of files, declared by the user or derived from a
//! repository.

use vstd::prelude::*;

use crate::error::{is_config_error, HallouminateError, Outcome};
use crate::path::{components, is_within, join, joined, within};
use crate::text::{
    blank, cat3, contains_char, copy_list, debug_quote, debug_text, ends_with, has_prefix,
    has_suffix, is_blank, opt_view, owned, same, starts_with, views,
};
use crate::tilde::{expand_tilde, expands_to};

verus! {

/// A named set of files.
#[derive(Debug, Clone, Default, PartialEq, Eq)]
pub struct CorpusConfig {
    /// The name by which requests ask for the corpus.
    pub name: String,
    /// The files and directories that the corpus is made of.
    pub paths: Vec<String>,
    /// Which files below the directories belong to it; all of them when empty.
    pub globs: Vec<String>,
    /// Which files do not belong to it.
    pub exclude: Vec<String>,
    /// Whether the corpus is shared by all repositories.
    pub global: bool,
}

/// The model of a corpus.
#[verifier::ext_equal]
pub struct CorpusModel {
    pub name: Seq<char>,
    pub paths: Seq<Seq<char>>,
    pub globs: Seq<Seq<char>>,
    pub exclude: Seq<Seq<char>>,
    pub global: bool,
}

impl View for CorpusConfig {
    type V = CorpusModel;

    open spec fn view(&self) -> CorpusModel {
        CorpusModel {
            name: self.name@,
            paths: views(self.paths@),
            globs: views(self.globs@),
            exclude: views(self.exclude@),
            global: self.global,
        }
    }
}

/// A repository whose wiki, and whose sources where it lists any, are corpora.
#[derive(Debug, Clone, Default, PartialEq, Eq)]
pub struct RepositoryConfig {
    /// The name from which the names of the corpora are made.
    pub name: String,
    /// The root of the repository.
    pub path: String,
    /// The files and directories that are indexed as sources.
    pub corpus_paths: Vec<String>,
}

/// The model of a repository.
#[verifier::ext_equal]
pub struct RepositoryModel {
    pub name: Seq<char>,
    pub path: Seq<char>,
    pub corpus_paths: Seq<Seq<char>>,
}

impl View for RepositoryConfig {
    type V = RepositoryModel;

    open spec fn view(&self) -> RepositoryModel {
        RepositoryModel {
            name: self.name@,
            path: self.path@,
            corpus_paths: views(self.corpus_paths@),
        }
    }
}

/// The models of a list of corpora.
pub open spec fn corpus_models(list: Seq<CorpusConfig>) -> Seq<CorpusModel> {
    Seq::new(list.len(), |i: int| list[i]@)
}

/// The models of a list of repositories.
pub open spec fn repository_models(list: Seq<RepositoryConfig>) -> Seq<RepositoryModel> {
    Seq::new(list.len(), |i: int| list[i]@)
}

/// The names of a list of corpora.
pub open spec fn corpus_names(list: Seq<CorpusModel>) -> Seq<Seq<char>> {
    Seq::new(list.len(), |i: int| list[i].name)
}

/// Where a repository keeps its wiki.
pub const WIKI_RELATIVE_PATH: &'static str = ".hallouminate/wiki";

/// The files of a wiki.
pub const WIKI_GLOB: &'static str = "**/*.md";

/// The two corpora that a repository can have.
#[derive(Debug, Clone, Copy, PartialEq, Eq, Structural)]
pub enum RepoCorpusKind {
    Wiki,
    Corpus,
}

/// The name of a corpus of a repository.
pub open spec fn repo_corpus(name: Seq<char>, kind: RepoCorpusKind) -> Seq<char> {
    match kind {
        RepoCorpusKind::Wiki => "repo:"@ + name + ":wiki"@,
        RepoCorpusKind::Corpus => "repo:"@ + name + ":corpus"@,
    }
}

/// What is wrong with the name of a repository, if anything.
pub open spec fn repo_name_fault(name: Seq<char>) -> Option<Seq<char>> {
    if is_blank(name) {
        Some("repository name is empty"@)
    } else if name.contains(':') {
        Some("repository name '"@ + name + "' must not contain ':'"@)
    } else {
        None
    }
}

/// The corpus that holds the wiki of a repository.
pub open spec fn wiki_corpus(repo: RepositoryModel) -> CorpusModel {
    CorpusModel {
        name: repo_corpus(repo.name, RepoCorpusKind::Wiki),
        paths: seq![joined(repo.path, WIKI_RELATIVE_PATH@)],
        globs: seq![WIKI_GLOB@],
        exclude: Seq::empty(),
        global: false,
    }
}

/// The corpus that holds the sources of a repository.
pub open spec fn source_corpus(repo: RepositoryModel) -> CorpusModel {
    CorpusModel {
        name: repo_corpus(repo.name, RepoCorpusKind::Corpus),
        paths: Seq::new(repo.corpus_paths.len(), |i: int| joined(repo.path, repo.corpus_paths[i])),
        globs: Seq::empty(),
        exclude: Seq::empty(),
        global: false,
    }
}

/// The corpora of a repository: its wiki, then its sources where it lists any.
pub open spec fn derived(repo: RepositoryModel) -> Seq<CorpusModel> {
    if repo.corpus_paths.len() == 0 {
        seq![wiki_corpus(repo)]
    } else {
        seq![wiki_corpus(repo), source_corpus(repo)]
    }
}

/// The corpora of all repositories, in their order.
pub open spec fn all_derived(repos: Seq<RepositoryModel>) -> Seq<CorpusModel>
    decreases repos.len(),
{
    if repos.len() == 0 {
        Seq::empty()
    } else {
        all_derived(repos.drop_last()) + derived(repos.last())
    }
}

/// What is wrong with the first repository whose name cannot be used.
pub open spec fn repo_names_fault(repos: Seq<RepositoryModel>) -> Option<Seq<char>>
    decreases repos.len(),
{
    if repos.len() == 0 {
        None
    } else {
        match repo_names_fault(repos.drop_last()) {
            Some(fault) => Some(fault),
            None => repo_name_fault(repos.last().name),
        }
    }
}

/// The first text of the list that an earlier one equals.
pub open spec fn first_duplicate(list: Seq<Seq<char>>) -> Option<Seq<char>>
    decreases list.len(),
{
    if list.len() == 0 {
        None
    } else {
        match first_duplicate(list.drop_last()) {
            Some(found) => Some(found),
            None => if list.drop_last().contains(list.last()) {
                Some(list.last())
            } else {
                None
            },
        }
    }
}

/// The message for two corpora of one name.
pub open spec fn duplicate_message(name: Seq<char>) -> Seq<char> {
    "duplicate corpus name '"@ + name + "'"@
}

/// Every corpus that requests can ask for: those that the user declared, then
/// those of the repositories.
pub open spec fn all_corpora(corpora: Seq<CorpusModel>, repos: Seq<RepositoryModel>) -> Seq<
    CorpusModel,
> {
    corpora + all_derived(repos)
}

/// Why the corpora cannot be listed, if they cannot.
pub open spec fn corpora_fault(corpora: Seq<CorpusModel>, repos: Seq<RepositoryModel>) -> Option<
    Seq<char>,
> {
    match repo_names_fault(repos) {
        Some(fault) => Some(fault),
        None => match first_duplicate(corpus_names(all_corpora(corpora, repos))) {
            Some(name) => Some(duplicate_message(name)),
            None => None,
        },
    }
}

impl CorpusConfig {
    /// A corpus with the same model.
    pub fn copy(&self) -> (out: CorpusConfig)
        ensures
            out@ == self@,
    {
        CorpusConfig {
            name: self.name.clone(),
            paths: copy_list(&self.paths),
            globs: copy_list(&self.globs),
            exclude: copy_list(&self.exclude),
            global: self.global,
        }
    }
}

impl RepositoryConfig {
    /// A repository with the same model.
    pub fn copy(&self) -> (out: RepositoryConfig)
        ensures
            out@ == self@,
    {
        RepositoryConfig {
            name: self.name.clone(),
            path: self.path.clone(),
            corpus_paths: copy_list(&self.corpus_paths),
        }
    }
}

/// The list followed by copies of `extra`.
pub fn with_corpora(list: Vec<CorpusConfig>, extra: &Vec<CorpusConfig>) -> (out: Vec<CorpusConfig>)
    ensures
        corpus_models(out@) == corpus_models(list@) + corpus_models(extra@),
{
    let ghost front = corpus_models(list@);
    let mut out = list;
    proof {
        assert(corpus_models(out@) =~= front + corpus_models(extra@).take(0));
    }
    for i in 0..extra.len()
        invariant
            corpus_models(out@) == front + corpus_models(extra@).take(i as int),
    {
        let ghost before = corpus_models(out@);
        let next = extra[i].copy();
        out.push(next);
        proof {
            assert(corpus_models(out@) =~= before.push(extra@[i as int]@));
            assert(front + corpus_models(extra@).take(i + 1) =~= before.push(extra@[i as int]@));
        }
    }
    proof {
        assert(corpus_models(extra@).take(extra@.len() as int) =~= corpus_models(extra@));
    }
    out
}

/// Copies of the corpora of the list.
pub fn copy_corpora(list: &Vec<CorpusConfig>) -> (out: Vec<CorpusConfig>)
    ensures
        corpus_models(out@) == corpus_models(list@),
{
    let none: Vec<CorpusConfig> = Vec::new();
    let out = with_corpora(none, list);
    proof {
        assert(corpus_models(out@) =~= corpus_models(list@));
    }
    out
}

/// The list followed by copies of `extra`.
pub fn with_repositories(
    list: Vec<RepositoryConfig>,
    extra: &Vec<RepositoryConfig>,
) -> (out: Vec<RepositoryConfig>)
    ensures
        repository_models(out@) == repository_models(list@) + repository_models(extra@),
{
    let ghost front = repository_models(list@);
    let mut out = list;
    proof {
        assert(repository_models(out@) =~= front + repository_models(extra@).take(0));
    }
    for i in 0..extra.len()
        invariant
            repository_models(out@) == front + repository_models(extra@).take(i as int),
    {
        let ghost before = repository_models(out@);
        let next = extra[i].copy();
        out.push(next);
        proof {
            assert(repository_models(out@) =~= before.push(extra@[i as int]@));
            assert(front + repository_models(extra@).take(i + 1) =~= before.push(
                extra@[i as int]@,
            ));
        }
    }
    proof {
        assert(repository_models(extra@).take(extra@.len() as int) =~= repository_models(extra@));
    }
    out
}

/// Copies of the repositories of the list.
pub fn copy_repositories(list: &Vec<RepositoryConfig>) -> (out: Vec<RepositoryConfig>)
    ensures
        repository_models(out@) == repository_models(list@),
{
    let none: Vec<RepositoryConfig> = Vec::new();
    let out = with_repositories(none, list);
    proof {
        assert(repository_models(out@) =~= repository_models(list@));
    }
    out
}

/// The name of a corpus of the named repository.
pub fn repo_corpus_name(name: &str, kind: RepoCorpusKind) -> (out: Outcome<String>)
    ensures
        match repo_name_fault(name@) {
            Some(fault) => is_config_error(out, fault),
            None => out matches Ok(text) && text@ == repo_corpus(name@, kind),
        },
{
    if blank(name) {
        return Err(HallouminateError::Config(owned("repository name is empty")));
    }
    if contains_char(name, ':') {
        return Err(
            HallouminateError::Config(
                cat3("repository name '", name, "' must not contain ':'"),
            ),
        );
    }
    match kind {
        RepoCorpusKind::Wiki => Ok(cat3("repo:", name, ":wiki")),
        RepoCorpusKind::Corpus => Ok(cat3("repo:", name, ":corpus")),
    }
}

/// The name of a corpus of the named repository, or the message that says why
/// it can have none.
pub fn derived_corpus_name(repo_name: &str, kind: RepoCorpusKind) -> (out: Result<String, String>)
    ensures
        match repo_name_fault(repo_name@) {
            Some(fault) => out matches Err(message) && message@ == fault,
            None => out matches Ok(text) && text@ == repo_corpus(repo_name@, kind),
        },
{
    match repo_corpus_name(repo_name, kind) {
        Ok(name) => Ok(name),
        Err(e) => Err(e.message()),
    }
}

/// The first corpus of that name.
pub open spec fn corpus_named(list: Seq<CorpusModel>, name: Seq<char>) -> Option<CorpusModel>
    decreases list.len(),
{
    if list.len() == 0 {
        None
    } else if list[0].name == name {
        Some(list[0])
    } else {
        corpus_named(list.drop_first(), name)
    }
}

/// Where the first corpus of that name stands in the list.
pub fn find_corpus(list: &Vec<CorpusConfig>, name: &str) -> (out: Option<usize>)
    ensures
        out matches Some(i) ==> i < list.len() && corpus_named(corpus_models(list@), name@) == Some(
            list@[i as int]@,
        ) && list@[i as int].name@ == name@,
        out is None ==> corpus_named(corpus_models(list@), name@) is None,
{
    let ghost all = corpus_models(list@);
    proof {
        assert(all.skip(0) =~= all);
    }
    for i in 0..list.len()
        invariant
            all == corpus_models(list@),
            corpus_named(all, name@) == corpus_named(all.skip(i as int), name@),
    {
        proof {
            assert(all.skip(i as int)[0] == list@[i as int]@);
            assert(all.skip(i as int).drop_first() =~= all.skip(i + 1));
        }
        if same(list[i].name.as_str(), name) {
            return Some(i);
        }
    }
    None
}

/// A name is found exactly when a corpus has it.
pub proof fn corpus_named_is_found(list: Seq<CorpusModel>, name: Seq<char>)
    ensures
        corpus_named(list, name) is Some <==> corpus_names(list).contains(name),
        corpus_named(list, name) matches Some(found) ==> found.name == name && list.contains(found),
    decreases list.len(),
{
    if list.len() > 0 {
        let rest = list.drop_first();
        corpus_named_is_found(rest, name);
        if list[0].name == name {
            assert(corpus_names(list)[0] == name);
        } else {
            if corpus_names(rest).contains(name) {
                let j = choose|j: int| 0 <= j < rest.len() && corpus_names(rest)[j] == name;
                assert(corpus_names(list)[j + 1] == name);
            }
            if corpus_names(list).contains(name) {
                let j = choose|j: int| 0 <= j < list.len() && corpus_names(list)[j] == name;
                assert(corpus_names(rest)[j - 1] == name);
            }
            if let Some(found) = corpus_named(rest, name) {
                let j = choose|j: int| 0 <= j < rest.len() && rest[j] == found;
                assert(list[j + 1] == found);
            }
        }
    }
}

/// Whether an earlier text of the list equals the one at `at`.
fn repeats(list: &Vec<CorpusConfig>, at: usize) -> (out: bool)
    requires
        at < list.len(),
    ensures
        out == corpus_names(corpus_models(list@)).take(at as int).contains(list@[at as int].name@),
{
    let ghost front = corpus_names(corpus_models(list@)).take(at as int);
    for i in 0..at
        invariant
            at < list.len(),
            front == corpus_names(corpus_models(list@)).take(at as int),
            forall|j: int| 0 <= j < i ==> front[j] != list@[at as int].name@,
    {
        proof {
            assert(front[i as int] == list@[i as int].name@);
        }
        if same(list[i].name.as_str(), list[at].name.as_str()) {
            return true;
        }
    }
    false
}

/// Every corpus that requests can ask for: those that the user declared, then
/// for each repository `repo:{name}:wiki` and, where it lists sources,
/// `repo:{name}:corpus`.  An error where a repository cannot be named so or two
/// corpora have one name.
pub fn effective_corpora(
    corpora: &Vec<CorpusConfig>,
    repositories: &Vec<RepositoryConfig>,
) -> (out: Outcome<Vec<CorpusConfig>>)
    ensures
        match corpora_fault(corpus_models(corpora@), repository_models(repositories@)) {
            Some(fault) => is_config_error(out, fault),
            None => out matches Ok(list) && corpus_models(list@) == all_corpora(
                corpus_models(corpora@),
                repository_models(repositories@),
            ),
        },
{
    let ghost repos = repository_models(repositories@);
    let mut list = copy_corpora(corpora);
    let ghost front = corpus_models(corpora@);
    proof {
        assert(front + all_derived(repos.take(0)) =~= front);
    }
    for i in 0..repositories.len()
        invariant
            repos == repository_models(repositories@),
            front == corpus_models(corpora@),
            repo_names_fault(repos.take(i as int)) is None,
            corpus_models(list@) == front + all_derived(repos.take(i as int)),
    {
        let repo = &repositories[i];
        let ghost before = corpus_models(list@);
        proof {
            assert(repos.take(i + 1).drop_last() =~= repos.take(i as int));
            assert(repos.take(i + 1).last() == repo@);
        }
        let wiki_name = match repo_corpus_name(repo.name.as_str(), RepoCorpusKind::Wiki) {
            Ok(name) => name,
            Err(e) => {
                proof {
                    repo_names_fault_stays(repos, i + 1);
                }
                return Err(e);
            },
        };
        let mut wiki_paths: Vec<String> = Vec::new();
        wiki_paths.push(join(repo.path.as_str(), WIKI_RELATIVE_PATH));
        let mut wiki_globs: Vec<String> = Vec::new();
        wiki_globs.push(owned(WIKI_GLOB));
        let wiki = CorpusConfig {
            name: wiki_name,
            paths: wiki_paths,
            globs: wiki_globs,
            exclude: Vec::new(),
            global: false,
        };
        proof {
            assert(wiki@ =~= wiki_corpus(repo@));
        }
        list.push(wiki);
        proof {
            assert(corpus_models(list@) =~= before + seq![wiki_corpus(repo@)]);
            assert(front + (all_derived(repos.take(i as int)) + derived(repo@)) =~= before
                + derived(repo@));
        }
        if repo.corpus_paths.len() > 0 {
            let source_name = match repo_corpus_name(repo.name.as_str(), RepoCorpusKind::Corpus) {
                Ok(name) => name,
                Err(e) => {
                    return Err(e);
                },
            };
            let mut source_paths: Vec<String> = Vec::new();
            for k in 0..repo.corpus_paths.len()
                invariant
                    views(source_paths@) == Seq::new(
                        k as nat,
                        |j: int| joined(repo.path@, repo.corpus_paths@[j]@),
                    ),
            {
                let ghost done = views(source_paths@);
                source_paths.push(join(repo.path.as_str(), repo.corpus_paths[k].as_str()));
                proof {
                    assert(views(source_paths@) =~= done.push(
                        joined(repo.path@, repo.corpus_paths@[k as int]@),
                    ));
                    assert(views(source_paths@) =~= Seq::new(
                        (k + 1) as nat,
                        |j: int| joined(repo.path@, repo.corpus_paths@[j]@),
                    ));
                }
            }
            let source = CorpusConfig {
                name: source_name,
                paths: source_paths,
                globs: Vec::new(),
                exclude: Vec::new(),
                global: false,
            };
            proof {
                assert(source@ =~= source_corpus(repo@));
            }
            let ghost middle = corpus_models(list@);
            list.push(source);
            proof {
                assert(corpus_models(list@) =~= middle.push(source_corpus(repo@)));
                assert(corpus_models(list@) =~= before + derived(repo@));
            }
        }
    }
    proof {
        assert(repos.take(repos.len() as int) =~= repos);
    }
    let ghost names = corpus_names(corpus_models(list@));
    proof {
        assert(names.take(0) =~= Seq::<Seq<char>>::empty());
    }
    for i in 0..list.len()
        invariant
            names == corpus_names(corpus_models(list@)),
            corpus_models(list@) == all_corpora(front, repos),
            front == corpus_models(corpora@),
            repos == repository_models(repositories@),
            repo_names_fault(repos) is None,
            first_duplicate(names.take(i as int)) is None,
    {
        proof {
            assert(names.take(i + 1).drop_last() =~= names.take(i as int));
            assert(names.take(i + 1).last() == list@[i as int].name@);
        }
        if repeats(&list, i) {
            proof {
                first_duplicate_stays(names, i + 1);
            }
            return Err(
                HallouminateError::Config(
                    cat3("duplicate corpus name '", list[i].name.as_str(), "'"),
                ),
            );
        }
    }
    proof {
        assert(names.take(names.len() as int) =~= names);
    }
    Ok(list)
}

proof fn repo_names_fault_stays(repos: Seq<RepositoryModel>, n: int)
    requires
        0 <= n <= repos.len(),
        repo_names_fault(repos.take(n)) is Some,
    ensures
        repo_names_fault(repos) == repo_names_fault(repos.take(n)),
    decreases repos.len(),
{
    if n < repos.len() {
        assert(repos.drop_last().take(n) =~= repos.take(n));
        repo_names_fault_stays(repos.drop_last(), n);
    } else {
        assert(repos.take(n) =~= repos);
    }
}

proof fn first_duplicate_stays(list: Seq<Seq<char>>, n: int)
    requires
        0 <= n <= list.len(),
        first_duplicate(list.take(n)) is Some,
    ensures
        first_duplicate(list) == first_duplicate(list.take(n)),
    decreases list.len(),
{
    if n < list.len() {
        assert(list.drop_last().take(n) =~= list.take(n));
        first_duplicate_stays(list.drop_last(), n);
    } else {
        assert(list.take(n) =~= list);
    }
}

/// A list has a duplicate exactly when two of its texts are equal.
pub proof fn first_duplicate_is_exact(list: Seq<Seq<char>>)
    ensures
        first_duplicate(list) is None <==> list.no_duplicates(),
        first_duplicate(list) matches Some(name) ==> list.contains(name),
    decreases list.len(),
{
    if list.len() > 0 {
        let front = list.drop_last();
        first_duplicate_is_exact(front);
        if first_duplicate(front) is Some {
            let (a, b) = choose|i: int, j: int|
                0 <= i < front.len() && 0 <= j < front.len() && i != j && front[i] == front[j];
            assert(list[a] == list[b]);
            let name = first_duplicate(front)->0;
            let k = choose|k: int| 0 <= k < front.len() && front[k] == name;
            assert(list[k] == name);
        } else if front.contains(list.last()) {
            let k = choose|k: int| 0 <= k < front.len() && front[k] == list.last();
            assert(list[k] == list[list.len() - 1]);
            assert(list[list.len() - 1] == list.last());
        } else {
            assert forall|i: int, j: int|
                0 <= i < list.len() && 0 <= j < list.len() && i != j implies list[i] != list[j] by {
                if i == list.len() - 1 {
                    assert(front[j] == list[j]);
                } else if j == list.len() - 1 {
                    assert(front[i] == list[i]);
                } else {
                    assert(front[i] == list[i] && front[j] == list[j]);
                }
            }
        }
    }
}

/// The corpora that can be asked for have distinct names, so that a declared
/// corpus never stands for a repository's, and the declared ones come first.
pub proof fn effective_names_are_distinct(corpora: Seq<CorpusModel>, repos: Seq<RepositoryModel>)
    requires
        corpora_fault(corpora, repos) is None,
    ensures
        corpus_names(all_corpora(corpora, repos)).no_duplicates(),
        all_corpora(corpora, repos).take(corpora.len() as int) == corpora,
{
    first_duplicate_is_exact(corpus_names(all_corpora(corpora, repos)));
    assert(all_corpora(corpora, repos).take(corpora.len() as int) =~= corpora);
}

/// Every repository has its wiki among the corpora.
pub proof fn every_repository_has_its_wiki(
    corpora: Seq<CorpusModel>,
    repos: Seq<RepositoryModel>,
    i: int,
)
    requires
        0 <= i < repos.len(),
    ensures
        all_corpora(corpora, repos).contains(wiki_corpus(repos[i])),
        repos[i].corpus_paths.len() > 0 ==> all_corpora(corpora, repos).contains(
            source_corpus(repos[i]),
        ),
{
    derived_are_listed(repos, i);
    let tail = all_derived(repos);
    let all = all_corpora(corpora, repos);
    let j = choose|j: int| 0 <= j < tail.len() && tail[j] == wiki_corpus(repos[i]);
    assert(all[corpora.len() + j] == wiki_corpus(repos[i]));
    if repos[i].corpus_paths.len() > 0 {
        let k = choose|k: int| 0 <= k < tail.len() && tail[k] == source_corpus(repos[i]);
        assert(all[corpora.len() + k] == source_corpus(repos[i]));
    }
}

proof fn derived_are_listed(repos: Seq<RepositoryModel>, i: int)
    requires
        0 <= i < repos.len(),
    ensures
        all_derived(repos).contains(wiki_corpus(repos[i])),
        repos[i].corpus_paths.len() > 0 ==> all_derived(repos).contains(source_corpus(repos[i])),
    decreases repos.len(),
{
    let front = all_derived(repos.drop_last());
    let all = all_derived(repos);
    if i == repos.len() - 1 {
        assert(all[front.len() as int] == wiki_corpus(repos[i]));
        if repos[i].corpus_paths.len() > 0 {
            assert(all[front.len() as int + 1] == source_corpus(repos[i]));
        }
    } else {
        derived_are_listed(repos.drop_last(), i);
        let j = choose|j: int| 0 <= j < front.len() && front[j] == wiki_corpus(repos[i]);
        assert(all[j] == wiki_corpus(repos[i]));
        if repos[i].corpus_paths.len() > 0 {
            let k = choose|k: int| 0 <= k < front.len() && front[k] == source_corpus(repos[i]);
            assert(all[k] == source_corpus(repos[i]));
        }
    }
}

/// The name of a corpus of a repository tells which repository it is of, and which
/// of its corpora it is.
pub proof fn corpus_names_tell_repositories_apart(
    a: Seq<char>,
    b: Seq<char>,
    one: RepoCorpusKind,
    other: RepoCorpusKind,
)
    requires
        repo_corpus(a, one) == repo_corpus(b, other),
    ensures
        a == b,
        one == other,
{
    reveal_strlit("repo:");
    reveal_strlit(":wiki");
    reveal_strlit(":corpus");
    let whole = repo_corpus(a, one);
    assert(one == other) by {
        assert(repo_corpus(a, one).last() == repo_corpus(b, other).last());
    }
    let tail: int = if one is Wiki {
        5
    } else {
        7
    };
    assert(whole.subrange(5, whole.len() - tail) =~= a);
    assert(whole.subrange(5, whole.len() - tail) =~= b);
}

/// Which repository a corpus of the repositories is of.
proof fn derived_is_of_a_repository(repos: Seq<RepositoryModel>, j: int) -> (at: (int, int))
    requires
        0 <= j < all_derived(repos).len(),
    ensures
        0 <= at.0 < repos.len(),
        0 <= at.1 < derived(repos[at.0]).len(),
        all_derived(repos)[j] == derived(repos[at.0])[at.1],
    decreases repos.len(),
{
    let front = all_derived(repos.drop_last());
    if j < front.len() {
        derived_is_of_a_repository(repos.drop_last(), j)
    } else {
        (repos.len() - 1, j - front.len())
    }
}

/// The names of the repositories.
pub open spec fn repository_names(repos: Seq<RepositoryModel>) -> Seq<Seq<char>> {
    Seq::new(repos.len(), |i: int| repos[i].name)
}

proof fn derived_names(repo: RepositoryModel, k: int)
    requires
        0 <= k < derived(repo).len(),
    ensures
        derived(repo)[k].name == repo_corpus(
            repo.name,
            if k == 0 {
                RepoCorpusKind::Wiki
            } else {
                RepoCorpusKind::Corpus
            },
        ),
        k < 2,
{
}

/// Repositories of different names have corpora of different names.
pub proof fn distinct_repositories_have_distinct_corpora(repos: Seq<RepositoryModel>)
    requires
        repository_names(repos).no_duplicates(),
    ensures
        corpus_names(all_derived(repos)).no_duplicates(),
    decreases repos.len(),
{
    if repos.len() > 0 {
        let front = repos.drop_last();
        let last = repos.len() - 1;
        assert forall|i: int, j: int|
            0 <= i < front.len() && 0 <= j < front.len() && i != j implies repository_names(
            front,
        )[i] != repository_names(front)[j] by {
            assert(repository_names(repos)[i] != repository_names(repos)[j]);
        }
        distinct_repositories_have_distinct_corpora(front);
        let before = all_derived(front);
        let all = all_derived(repos);
        let names = corpus_names(all);
        assert forall|i: int, j: int| 0 <= i < j < names.len() implies names[i] != names[j] by {
            if j < before.len() {
                assert(corpus_names(before)[i] != corpus_names(before)[j]);
            } else {
                derived_names(repos[last], j - before.len());
                if i < before.len() {
                    let at = derived_is_of_a_repository(front, i);
                    derived_names(front[at.0], at.1);
                    assert(all[i] == before[i]);
                    if names[i] == names[j] {
                        corpus_names_tell_repositories_apart(
                            front[at.0].name,
                            repos[last].name,
                            if at.1 == 0 {
                                RepoCorpusKind::Wiki
                            } else {
                                RepoCorpusKind::Corpus
                            },
                            if j == before.len() {
                                RepoCorpusKind::Wiki
                            } else {
                                RepoCorpusKind::Corpus
                            },
                        );
                        assert(repository_names(repos)[at.0] != repository_names(repos)[last]);
                    }
                } else {
                    derived_names(repos[last], i - before.len());
                    if names[i] == names[j] {
                        corpus_names_tell_repositories_apart(
                            repos[last].name,
                            repos[last].name,
                            RepoCorpusKind::Wiki,
                            RepoCorpusKind::Corpus,
                        );
                    }
                }
            }
        }
    }
}

/// Repositories whose corpora have different names have different names.
pub proof fn distinct_corpora_are_of_distinct_repositories(repos: Seq<RepositoryModel>)
    requires
        corpus_names(all_derived(repos)).no_duplicates(),
    ensures
        repository_names(repos).no_duplicates(),
    decreases repos.len(),
{
    if repos.len() > 0 {
        let front = repos.drop_last();
        let last = repos.len() - 1;
        let before = all_derived(front);
        let all = all_derived(repos);
        let names = corpus_names(all);
        assert forall|i: int, j: int|
            0 <= i < before.len() && 0 <= j < before.len() && i != j implies corpus_names(
            before,
        )[i] != corpus_names(before)[j] by {
            assert(names[i] != names[j]);
        }
        distinct_corpora_are_of_distinct_repositories(front);
        assert forall|i: int, j: int|
            0 <= i < j < repos.len() implies repository_names(repos)[i] != repository_names(
            repos,
        )[j] by {
            if j < last {
                assert(repository_names(front)[i] != repository_names(front)[j]);
            } else {
                derived_are_listed(front, i);
                let k = choose|k: int| 0 <= k < before.len() && before[k] == wiki_corpus(front[i]);
                assert(all[k] == before[k]);
                assert(all[before.len() as int] == wiki_corpus(repos[last]));
                assert(names[k] != names[before.len() as int]);
            }
        }
    }
}

/// Whether no corpus of the list has the name of one of the repository's.
pub open spec fn clear_of(corpora: Seq<CorpusModel>, repo: RepositoryModel) -> bool {
    forall|k: int|
        0 <= k < derived(repo).len() ==> !corpus_names(corpora).contains(
            (#[trigger] derived(repo)[k]).name,
        )
}

/// The corpora can be listed where the declared ones have different names, the
/// repositories have different names that can be used, and no corpus of a
/// repository has the name of a declared one.
pub proof fn distinct_corpora_can_be_listed(
    corpora: Seq<CorpusModel>,
    repos: Seq<RepositoryModel>,
)
    requires
        corpus_names(corpora).no_duplicates(),
        repository_names(repos).no_duplicates(),
        repo_names_fault(repos) is None,
        forall|i: int| 0 <= i < repos.len() ==> clear_of(corpora, #[trigger] repos[i]),
    ensures
        corpora_fault(corpora, repos) is None,
{
    distinct_repositories_have_distinct_corpora(repos);
    let tail = all_derived(repos);
    let names = corpus_names(all_corpora(corpora, repos));
    let n = corpora.len() as int;
    assert forall|i: int, j: int| 0 <= i < j < names.len() implies names[i] != names[j] by {
        if j < n {
            assert(corpus_names(corpora)[i] != corpus_names(corpora)[j]);
        } else if i >= n {
            assert(corpus_names(tail)[i - n] != corpus_names(tail)[j - n]);
        } else {
            let at = derived_is_of_a_repository(repos, j - n);
            assert(clear_of(corpora, repos[at.0]));
            assert(names[j] == derived(repos[at.0])[at.1].name);
            assert(corpus_names(corpora)[i] == names[i]);
            assert(corpus_names(corpora).contains(names[i]));
        }
    }
    first_duplicate_is_exact(names);
}

/// What it says of the lists that the corpora can be listed.
pub proof fn listed_corpora_are_distinct(corpora: Seq<CorpusModel>, repos: Seq<RepositoryModel>)
    requires
        corpora_fault(corpora, repos) is None,
    ensures
        corpus_names(corpora).no_duplicates(),
        repository_names(repos).no_duplicates(),
        forall|i: int| 0 <= i < repos.len() ==> clear_of(corpora, #[trigger] repos[i]),
{
    effective_names_are_distinct(corpora, repos);
    let tail = all_derived(repos);
    let names = corpus_names(all_corpora(corpora, repos));
    let n = corpora.len() as int;
    assert forall|i: int, j: int|
        0 <= i < n && 0 <= j < n && i != j implies corpus_names(corpora)[i] != corpus_names(
        corpora,
    )[j] by {
        assert(names[i] != names[j]);
    }
    assert forall|i: int, j: int|
        0 <= i < tail.len() && 0 <= j < tail.len() && i != j implies corpus_names(tail)[i]
        != corpus_names(tail)[j] by {
        assert(names[n + i] != names[n + j]);
    }
    distinct_corpora_are_of_distinct_repositories(repos);
    assert forall|i: int| 0 <= i < repos.len() implies clear_of(corpora, #[trigger] repos[i]) by {
        assert forall|k: int| 0 <= k < derived(repos[i]).len() implies !corpus_names(
            corpora,
        ).contains((#[trigger] derived(repos[i])[k]).name) by {
            derived_are_listed(repos, i);
            let c = derived(repos[i])[k];
            assert(tail.contains(c));
            let j = choose|j: int| 0 <= j < tail.len() && tail[j] == c;
            if corpus_names(corpora).contains(c.name) {
                let m = choose|m: int| 0 <= m < n && corpus_names(corpora)[m] == c.name;
                assert(names[m] == names[n + j]);
            }
        }
    }
}

/// Whether the corpus is the wiki of a repository, whose directory the daemon
/// looks after.
pub open spec fn names_wiki(name: Seq<char>) -> bool {
    has_prefix(name, "repo:"@) && has_suffix(name, ":wiki"@)
}

/// Whether the corpus is the wiki of a repository.
pub fn is_wiki_corpus(corpus: &CorpusConfig) -> (out: bool)
    ensures
        out == names_wiki(corpus@.name),
{
    starts_with(corpus.name.as_str(), "repo:") && ends_with(corpus.name.as_str(), ":wiki")
}

/// The wiki of a repository is known by its name; its sources are not a wiki.
pub proof fn only_wikis_are_named_so(name: Seq<char>)
    ensures
        names_wiki(repo_corpus(name, RepoCorpusKind::Wiki)),
        !names_wiki(repo_corpus(name, RepoCorpusKind::Corpus)),
{
    reveal_strlit("repo:");
    reveal_strlit(":wiki");
    reveal_strlit(":corpus");
    let wiki = repo_corpus(name, RepoCorpusKind::Wiki);
    assert(wiki.take(5) =~= "repo:"@);
    assert(wiki.skip(wiki.len() - 5) =~= ":wiki"@);
    let sources = repo_corpus(name, RepoCorpusKind::Corpus);
    assert(sources.skip(sources.len() - 5)[4] == 's');
}

/// The message for a name that no corpus has.
pub open spec fn not_found_message(name: Seq<char>) -> Seq<char> {
    "corpus "@ + debug_text(name) + " not found in config"@
}

/// The message where there are no corpora at all.
pub const NO_CORPORA: &'static str =
    "no corpora configured; add [[corpus]] or [[repository]] to config";

/// The message where a corpus has to be named.
pub const AMBIGUOUS_CORPUS: &'static str = "multiple corpora configured; name one of them";

/// The corpus that a request means.
pub open spec fn picked(list: Seq<CorpusModel>, requested: Option<Seq<char>>) -> Result<
    CorpusModel,
    Seq<char>,
> {
    match requested {
        Some(name) => match corpus_named(list, name) {
            Some(found) => Ok(found),
            None => Err(not_found_message(name)),
        },
        None => if list.len() == 0 {
            Err(NO_CORPORA@)
        } else if list.len() == 1 {
            Ok(list[0])
        } else {
            Err(AMBIGUOUS_CORPUS@)
        },
    }
}

/// The model of the outcome of a choice between corpora.
pub open spec fn choice_model(out: Result<CorpusConfig, String>) -> Result<CorpusModel, Seq<char>> {
    match out {
        Ok(corpus) => Ok(corpus@),
        Err(message) => Err(message@),
    }
}

/// The message for a name that no corpus has.
pub fn not_found_text(name: &str) -> (out: String)
    ensures
        out@ == not_found_message(name@),
{
    cat3("corpus ", debug_quote(name).as_str(), " not found in config")
}

/// The corpus that a request means: the named one or, without a name, the only
/// one there is.
pub fn pick_corpus(corpora: &Vec<CorpusConfig>, requested: Option<&str>) -> (out: Result<
    CorpusConfig,
    String,
>)
    ensures
        choice_model(out) == picked(
            corpus_models(corpora@),
            crate::text::opt_str_view(requested),
        ),
{
    match requested {
        Some(name) => match find_corpus(corpora, name) {
            Some(i) => Ok(corpora[i].copy()),
            None => Err(not_found_text(name)),
        },
        None => if corpora.len() == 0 {
            Err(owned(NO_CORPORA))
        } else if corpora.len() == 1 {
            Ok(corpora[0].copy())
        } else {
            Err(owned(AMBIGUOUS_CORPUS))
        },
    }
}

/// Which of the directories around `cwd` lies deepest; the first of them where
/// two are the same.
pub open spec fn innermost(roots: Seq<Seq<char>>, cwd: Seq<char>) -> Option<int>
    decreases roots.len(),
{
    if roots.len() == 0 {
        None
    } else {
        let before = innermost(roots.drop_last(), cwd);
        let last = roots.len() - 1;
        if !within(cwd, roots.last()) {
            before
        } else {
            match before {
                Some(i) => if components(roots.last()).len() > components(roots[i]).len() {
                    Some(last)
                } else {
                    before
                },
                None => Some(last),
            }
        }
    }
}

/// Which of the directories around `cwd` lies deepest.
pub fn find_innermost(roots: &Vec<String>, cwd: &str) -> (out: Option<usize>)
    ensures
        out matches Some(i) ==> i < roots.len() && innermost(views(roots@), cwd@) == Some(i as int),
        out is None ==> innermost(views(roots@), cwd@) is None,
{
    let ghost all = views(roots@);
    let mut best: Option<usize> = None;
    for i in 0..roots.len()
        invariant
            all == views(roots@),
            best matches Some(b) ==> b < i && innermost(all.take(i as int), cwd@) == Some(b as int),
            best is None ==> innermost(all.take(i as int), cwd@) is None,
    {
        proof {
            assert(all.take(i + 1).drop_last() =~= all.take(i as int));
            assert(all.take(i + 1).last() == roots@[i as int]@);
        }
        if is_within(cwd, roots[i].as_str()) {
            match best {
                Some(b) => {
                    let depth: usize = crate::path::components_of(roots[i].as_str()).len();
                    let known: usize = crate::path::components_of(roots[b].as_str()).len();
                    proof {
                        assert(all.take(i + 1)[b as int] == roots@[b as int]@);
                    }
                    if depth > known {
                        best = Some(i);
                    }
                },
                None => {
                    best = Some(i);
                },
            }
        }
    }
    proof {
        assert(all.take(all.len() as int) =~= all);
    }
    best
}

/// The innermost directory holds `cwd`, and none that holds it lies deeper.
pub proof fn innermost_is_deepest(roots: Seq<Seq<char>>, cwd: Seq<char>)
    ensures
        match innermost(roots, cwd) {
            Some(i) => 0 <= i < roots.len() && within(cwd, roots[i]) && forall|j: int|
                0 <= j < roots.len() && within(cwd, #[trigger] roots[j]) ==> components(
                    roots[j],
                ).len() <= components(roots[i]).len(),
            None => forall|j: int| 0 <= j < roots.len() ==> !within(cwd, #[trigger] roots[j]),
        },
    decreases roots.len(),
{
    if roots.len() > 0 {
        let front = roots.drop_last();
        innermost_is_deepest(front, cwd);
        assert forall|j: int|
            0 <= j < roots.len() && within(cwd, #[trigger] roots[j]) implies match innermost(
            roots,
            cwd,
        ) {
            Some(i) => components(roots[j]).len() <= components(roots[i]).len(),
            None => false,
        } by {
            if j < front.len() {
                assert(front[j] == roots[j]);
            }
        }
    }
}

/// The wiki of the repository that `cwd` lies in; `roots` holds where each
/// repository stands.
pub open spec fn wiki_of(
    repos: Seq<RepositoryModel>,
    roots: Seq<Seq<char>>,
    cwd: Seq<char>,
) -> Option<Seq<char>> {
    match innermost(roots, cwd) {
        Some(i) => match repo_name_fault(repos[i].name) {
            Some(fault) => None,
            None => Some(repo_corpus(repos[i].name, RepoCorpusKind::Wiki)),
        },
        None => None,
    }
}

/// The name of the wiki of the repository that `cwd` lies in, if it lies in
/// one.  `roots` holds the directory of each repository, with the home
/// directory filled in.
pub fn default_wiki_for_cwd(
    repositories: &Vec<RepositoryConfig>,
    roots: &Vec<String>,
    cwd: &str,
) -> (out: Option<String>)
    requires
        roots.len() == repositories.len(),
    ensures
        opt_view(out) == wiki_of(repository_models(repositories@), views(roots@), cwd@),
{
    match find_innermost(roots, cwd) {
        Some(i) => match repo_corpus_name(repositories[i].name.as_str(), RepoCorpusKind::Wiki) {
            Ok(name) => Some(name),
            Err(_) => None,
        },
        None => None,
    }
}

/// Where each repository stands, with the home directory filled in.
pub fn repository_roots(repositories: &Vec<RepositoryConfig>) -> (out: Vec<String>)
    ensures
        out.len() == repositories.len(),
        forall|i: int|
            0 <= i < out.len() ==> expands_to(repositories@[i].path@, #[trigger] out@[i]@),
{
    let mut out: Vec<String> = Vec::new();
    for i in 0..repositories.len()
        invariant
            out.len() == i,
            forall|j: int|
                0 <= j < i ==> expands_to(repositories@[j].path@, #[trigger] out@[j]@),
    {
        out.push(expand_tilde(repositories[i].path.as_str()));
    }
    out
}

/// The corpus that a read request means: without a name, the wiki of the
/// repository around the working directory, where there is one.
pub open spec fn picked_or_default(
    list: Seq<CorpusModel>,
    default_wiki: Option<Seq<char>>,
    requested: Option<Seq<char>>,
) -> Result<CorpusModel, Seq<char>> {
    match (requested, default_wiki) {
        (None, Some(wiki)) => match corpus_named(list, wiki) {
            Some(found) => Ok(found),
            None => picked(list, None),
        },
        _ => picked(list, requested),
    }
}

/// The corpus that a read request means.  `default_wiki` names the wiki of the
/// repository around the working directory.
pub fn pick_corpus_or_default(
    corpora: &Vec<CorpusConfig>,
    default_wiki: Option<&str>,
    requested: Option<&str>,
) -> (out: Result<CorpusConfig, String>)
    ensures
        choice_model(out) == picked_or_default(
            corpus_models(corpora@),
            crate::text::opt_str_view(default_wiki),
            crate::text::opt_str_view(requested),
        ),
{
    if requested.is_none() {
        match default_wiki {
            Some(wiki) => match find_corpus(corpora, wiki) {
                Some(i) => {
                    return Ok(corpora[i].copy());
                },
                None => {},
            },
            None => {},
        }
    }
    pick_corpus(corpora, requested)
}

/// A named corpus is the one that is read, whatever the working directory.
pub proof fn explicit_corpus_wins(
    list: Seq<CorpusModel>,
    default_wiki: Option<Seq<char>>,
    name: Seq<char>,
)
    ensures
        picked_or_default(list, default_wiki, Some(name)) == picked(list, Some(name)),
        picked_or_default(list, default_wiki, Some(name)) matches Ok(found) ==> found.name == name,
{
    corpus_named_is_found(list, name);
}

/// The corpus that a name means is the first that has it; a name that none has
/// is refused by name.
pub proof fn the_first_of_a_name_is_found(list: Seq<CorpusModel>, name: Seq<char>, i: int)
    requires
        0 <= i <= list.len(),
        i < list.len() ==> list[i].name == name,
        forall|j: int| 0 <= j < i ==> (#[trigger] list[j]).name != name,
    ensures
        i < list.len() ==> corpus_named(list, name) == Some(list[i]) && picked(list, Some(name))
            == Ok::<CorpusModel, Seq<char>>(list[i]),
        i == list.len() ==> corpus_named(list, name) is None && picked(list, Some(name)) == Err::<
            CorpusModel,
            Seq<char>,
        >("corpus "@ + debug_text(name) + " not found in config"@),
    decreases i,
{
    if i > 0 {
        let rest = list.drop_first();
        assert(list[0].name != name);
        assert forall|j: int| 0 <= j < i - 1 implies (#[trigger] rest[j]).name != name by {
            assert(rest[j] == list[j + 1]);
        }
        if i < list.len() {
            assert(rest[i - 1] == list[i]);
        }
        the_first_of_a_name_is_found(rest, name, i - 1);
    }
}

/// Without a name, a request means the wiki of the repository around it where
/// that is there, and else the one corpus that there is; where there are several
/// or none, it means none of them.
pub proof fn nameless_requests_mean_the_wiki_around_them(
    list: Seq<CorpusModel>,
    wiki: Seq<char>,
    i: int,
)
    ensures
        0 <= i < list.len() && list[i].name == wiki && (forall|j: int|
            0 <= j < i ==> (#[trigger] list[j]).name != wiki) ==> picked_or_default(
            list,
            Some(wiki),
            None,
        ) == Ok::<CorpusModel, Seq<char>>(list[i]),
        (forall|j: int| 0 <= j < list.len() ==> (#[trigger] list[j]).name != wiki)
            ==> picked_or_default(list, Some(wiki), None) == picked_or_default(list, None, None),
        list.len() == 1 ==> picked_or_default(list, None, None) == Ok::<CorpusModel, Seq<char>>(
            list[0],
        ),
        list.len() != 1 ==> picked_or_default(list, None, None) is Err,
        picked(list, None) == picked_or_default(list, None, None),
        list.len() > 1 ==> picked(list, None) == Err::<CorpusModel, Seq<char>>(
            "multiple corpora configured; name one of them"@,
        ),
{
    if 0 <= i < list.len() && list[i].name == wiki && (forall|j: int|
        0 <= j < i ==> (#[trigger] list[j]).name != wiki) {
        the_first_of_a_name_is_found(list, wiki, i);
    }
    if forall|j: int| 0 <= j < list.len() ==> (#[trigger] list[j]).name != wiki {
        the_first_of_a_name_is_found(list, wiki, list.len() as int);
    }
}

/// Of two directories that lie equally deep around a place, the first is meant.
pub proof fn the_first_of_the_deepest_is_meant(roots: Seq<Seq<char>>, cwd: Seq<char>, i: int)
    requires
        0 <= i < roots.len(),
        within(cwd, roots[i]),
        forall|j: int|
            0 <= j < roots.len() && within(cwd, #[trigger] roots[j]) ==> components(roots[j]).len()
                <= components(roots[i]).len(),
        forall|j: int|
            0 <= j < i && within(cwd, #[trigger] roots[j]) ==> components(roots[j]).len()
                < components(roots[i]).len(),
    ensures
        innermost(roots, cwd) == Some(i),
    decreases roots.len(),
{
    let front = roots.drop_last();
    innermost_is_deepest(front, cwd);
    assert forall|j: int| 0 <= j < front.len() implies front[j] == #[trigger] roots[j] by {}
    if i < front.len() {
        assert(front[i] == roots[i]);
        the_first_of_the_deepest_is_meant(front, cwd, i);
    } else {
        if let Some(b) = innermost(front, cwd) {
            assert(front[b] == roots[b]);
        }
    }
}

/// The wiki around a place is that of the repository that holds it most closely,
/// under the name of that repository.
pub proof fn the_wiki_is_of_the_closest_repository(
    repos: Seq<RepositoryModel>,
    roots: Seq<Seq<char>>,
    cwd: Seq<char>,
)
    ensures
        wiki_of(repos, roots, cwd) matches Some(wiki) ==> exists|i: int|
            0 <= i < roots.len() && within(cwd, #[trigger] roots[i]) && wiki == "repo:"@
                + repos[i].name + ":wiki"@ && !repos[i].name.contains(':') && forall|j: int|
                0 <= j < roots.len() && within(cwd, #[trigger] roots[j]) ==> components(
                    roots[j],
                ).len() <= components(roots[i]).len(),
        (forall|i: int| 0 <= i < roots.len() ==> !within(cwd, #[trigger] roots[i])) ==> wiki_of(
            repos,
            roots,
            cwd,
        ) is None,
{
    innermost_is_deepest(roots, cwd);
    if let Some(i) = innermost(roots, cwd) {
        assert(within(cwd, roots[i]));
    }
}

/// The wiki of a repository is the pages in its own directory below the root of
/// the repository; its sources, where it lists any, are all that is in the
/// places that it lists, seen from that root.
pub proof fn repositories_have_a_wiki_and_sources(repo: RepositoryModel)
    ensures
        derived(repo).len() == if repo.corpus_paths.len() == 0 {
            1nat
        } else {
            2nat
        },
        derived(repo)[0].name == "repo:"@ + repo.name + ":wiki"@,
        derived(repo)[0].paths == seq![joined(repo.path, ".hallouminate/wiki"@)],
        derived(repo)[0].globs == seq!["**/*.md"@],
        derived(repo)[0].exclude.len() == 0,
        !derived(repo)[0].global,
        repo.corpus_paths.len() > 0 ==> {
            &&& derived(repo)[1].name == "repo:"@ + repo.name + ":corpus"@
            &&& derived(repo)[1].paths.len() == repo.corpus_paths.len()
            &&& forall|i: int|
                0 <= i < repo.corpus_paths.len() ==> #[trigger] derived(repo)[1].paths[i]
                    == joined(repo.path, repo.corpus_paths[i])
            &&& derived(repo)[1].globs.len() == 0
            &&& derived(repo)[1].exclude.len() == 0
            &&& !derived(repo)[1].global
        },
{
}

/// The corpora are those that are declared, and then those of every repository,
/// in the order of the repositories.
pub proof fn corpora_are_declared_or_of_a_repository(
    corpora: Seq<CorpusModel>,
    repos: Seq<RepositoryModel>,
)
    ensures
        all_corpora(corpora, repos) == corpora + repos.map_values(
            |repo: RepositoryModel| derived(repo),
        ).flatten(),
    decreases repos.len(),
{
    let each = |repo: RepositoryModel| derived(repo);
    let parts = repos.map_values(each);
    if repos.len() > 0 {
        corpora_are_declared_or_of_a_repository(corpora, repos.drop_last());
        let front = repos.drop_last().map_values(each);
        assert(parts.drop_last() =~= front);
        parts.lemma_flatten_and_flatten_alt_are_equivalent();
        front.lemma_flatten_and_flatten_alt_are_equivalent();
        assert(parts.last() == derived(repos.last()));
        assert(all_corpora(corpora, repos.drop_last()) == corpora + all_derived(
            repos.drop_last(),
        ));
        assert(all_derived(repos.drop_last()) =~= front.flatten()) by {
            let a = corpora + all_derived(repos.drop_last());
            let b = corpora + front.flatten();
            assert(a == b);
            assert(a.skip(corpora.len() as int) =~= all_derived(repos.drop_last()));
            assert(b.skip(corpora.len() as int) =~= front.flatten());
        }
    } else {
        assert(parts.flatten() =~= Seq::<CorpusModel>::empty());
    }
}

/// The names of repositories are in order where each has something in it but
/// white space, and no colon; the first that is not in order is the one that is
/// spoken of.
pub proof fn the_first_unusable_name_is_told(repos: Seq<RepositoryModel>, i: int)
    requires
        0 <= i <= repos.len(),
        forall|j: int|
            0 <= j < i ==> !is_blank((#[trigger] repos[j]).name) && !repos[j].name.contains(':'),
        i < repos.len() ==> is_blank(repos[i].name) || repos[i].name.contains(':'),
    ensures
        i == repos.len() ==> repo_names_fault(repos) is None,
        i < repos.len() ==> repo_names_fault(repos) == Some(
            if is_blank(repos[i].name) {
                "repository name is empty"@
            } else {
                "repository name '"@ + repos[i].name + "' must not contain ':'"@
            },
        ),
    decreases repos.len(),
{
    if repos.len() > 0 {
        let front = repos.drop_last();
        let at = if i < front.len() {
            i
        } else {
            front.len() as int
        };
        assert forall|j: int| 0 <= j < at implies !is_blank((#[trigger] front[j]).name)
            && !front[j].name.contains(':') by {
            assert(front[j] == repos[j]);
        }
        if at < front.len() {
            assert(front[at] == repos[at]);
        }
        the_first_unusable_name_is_told(front, at);
        if i == repos.len() {
            assert(!is_blank(repos[repos.len() - 1].name));
        }
    }
}

/// The models of a list are those of its corpora and repositories, each in its
/// place and with all that it says.
pub proof fn models_are_in_their_place(
    corpora: Seq<CorpusConfig>,
    repos: Seq<RepositoryConfig>,
    i: int,
)
    ensures
        corpus_models(corpora).len() == corpora.len(),
        repository_models(repos).len() == repos.len(),
        0 <= i < corpora.len() ==> {
            let model = corpus_models(corpora)[i];
            &&& model.name == corpora[i].name@
            &&& model.paths == views(corpora[i].paths@)
            &&& model.globs == views(corpora[i].globs@)
            &&& model.exclude == views(corpora[i].exclude@)
            &&& model.global == corpora[i].global
        },
        0 <= i < repos.len() ==> {
            let model = repository_models(repos)[i];
            &&& model.name == repos[i].name@
            &&& model.path == repos[i].path@
            &&& model.corpus_paths == views(repos[i].corpus_paths@)
        },
{
}

} // verus!
