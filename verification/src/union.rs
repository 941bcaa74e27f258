//! Above all repositories: the baseline together with the repositories that
//! were found below the working directory.

use vstd::prelude::*;

use crate::config::{config_fault, faultless_lists_are_usable, is_usable, Config, ConfigModel};
use crate::corpus::{
    all_corpora, clear_of, corpus_names, distinct_corpora_can_be_listed,
    every_repository_has_its_wiki, listed_corpora_are_distinct, repo_corpus, repository_models,
    repository_names, source_corpus, wiki_corpus, RepoCorpusKind, RepositoryConfig,
    RepositoryModel,
};
use crate::path::{is_same_path, same_path};
use crate::text::{cat5, has_prefix, owned, same, starts_with, views};

verus! {

/// A repository, and where it stands with the home directory filled in and
/// links resolved.
#[derive(Debug)]
pub struct Rooted {
    pub repository: RepositoryConfig,
    pub root: String,
}

/// The model of a repository and where it stands.
#[verifier::ext_equal]
pub struct RootedModel {
    pub repository: RepositoryModel,
    pub root: Seq<char>,
}

impl View for Rooted {
    type V = RootedModel;

    open spec fn view(&self) -> RootedModel {
        RootedModel { repository: self.repository@, root: self.root@ }
    }
}

/// The models of a list of repositories and where they stand.
pub open spec fn rooted_models(list: Seq<Rooted>) -> Seq<RootedModel> {
    Seq::new(list.len(), |i: int| list[i]@)
}

/// The repositories of a list.
pub open spec fn repositories_of(list: Seq<RootedModel>) -> Seq<RepositoryModel> {
    Seq::new(list.len(), |i: int| list[i].repository)
}

/// The first of the list that stands there, from `from` on.
pub open spec fn standing_at(list: Seq<RootedModel>, root: Seq<char>, from: int) -> Option<int>
    decreases list.len() - from,
{
    if from < 0 || from >= list.len() {
        None
    } else if same_path(list[from].root, root) {
        Some(from)
    } else {
        standing_at(list, root, from + 1)
    }
}

/// The first of the list that has the name, from `from` on.
pub open spec fn named(list: Seq<RootedModel>, name: Seq<char>, from: int) -> Option<int>
    decreases list.len() - from,
{
    if from < 0 || from >= list.len() {
        None
    } else if list[from].repository.name == name {
        Some(from)
    } else {
        named(list, name, from + 1)
    }
}

/// The list with a repository that was found: one that stands where another
/// does is the same; one that has the name of another takes its place.
pub open spec fn with_found(list: Seq<RootedModel>, found: RootedModel) -> Seq<RootedModel> {
    if standing_at(list, found.root, 0) is Some {
        list
    } else {
        match named(list, found.repository.name, 0) {
            Some(i) => list.update(i, found),
            None => list.push(found),
        }
    }
}

/// What is said where one repository takes the place of another.
pub open spec fn shadow_note(name: Seq<char>, found: Seq<char>, replaced: Seq<char>) -> Seq<char> {
    "repository '"@ + name + "' at "@ + found + " shadows the one at "@ + replaced
}

/// What is said of a repository that was found, if anything.
pub open spec fn found_notes(list: Seq<RootedModel>, found: RootedModel) -> Seq<Seq<char>> {
    if standing_at(list, found.root, 0) is Some {
        Seq::empty()
    } else {
        match named(list, found.repository.name, 0) {
            Some(i) => seq![
                shadow_note(found.repository.name, found.root, list[i].root),
            ],
            None => Seq::empty(),
        }
    }
}

/// The list with the first `n` of the repositories that were found.
pub open spec fn with_all_found(
    list: Seq<RootedModel>,
    found: Seq<RootedModel>,
    n: int,
) -> Seq<RootedModel>
    decreases n,
{
    if n <= 0 {
        list
    } else {
        with_found(with_all_found(list, found, n - 1), found[n - 1])
    }
}

/// What is said of the first `n` of the repositories that were found.
pub open spec fn all_found_notes(
    list: Seq<RootedModel>,
    found: Seq<RootedModel>,
    n: int,
) -> Seq<Seq<char>>
    decreases n,
{
    if n <= 0 {
        Seq::empty()
    } else {
        all_found_notes(list, found, n - 1) + found_notes(
            with_all_found(list, found, n - 1),
            found[n - 1],
        )
    }
}

/// The repositories of a configuration and where they stand.
pub open spec fn rooted_baseline(repos: Seq<RepositoryModel>, roots: Seq<Seq<char>>) -> Seq<
    RootedModel,
> {
    Seq::new(repos.len(), |i: int| RootedModel { repository: repos[i], root: roots[i] })
}

/// The baseline with the repositories that were found.
pub open spec fn union_config(
    baseline: ConfigModel,
    roots: Seq<Seq<char>>,
    found: Seq<RootedModel>,
) -> ConfigModel {
    ConfigModel {
        repositories: repositories_of(
            with_all_found(
                rooted_baseline(baseline.repositories, roots),
                found,
                found.len() as int,
            ),
        ),
        ..baseline
    }
}

/// What is said of the repositories that were found.
pub open spec fn union_notes(
    baseline: ConfigModel,
    roots: Seq<Seq<char>>,
    found: Seq<RootedModel>,
) -> Seq<Seq<char>> {
    all_found_notes(
        rooted_baseline(baseline.repositories, roots),
        found,
        found.len() as int,
    )
}

fn find_root(list: &Vec<Rooted>, root: &str) -> (out: Option<usize>)
    ensures
        out matches Some(i) ==> i < list.len() && standing_at(rooted_models(list@), root@, 0)
            == Some(i as int),
        out is None ==> standing_at(rooted_models(list@), root@, 0) is None,
{
    for i in 0..list.len()
        invariant
            standing_at(rooted_models(list@), root@, 0) == standing_at(
                rooted_models(list@),
                root@,
                i as int,
            ),
    {
        if is_same_path(list[i].root.as_str(), root) {
            return Some(i);
        }
    }
    None
}

fn find_name(list: &Vec<Rooted>, name: &str) -> (out: Option<usize>)
    ensures
        out matches Some(i) ==> i < list.len() && named(rooted_models(list@), name@, 0) == Some(
            i as int,
        ),
        out is None ==> named(rooted_models(list@), name@, 0) is None,
{
    for i in 0..list.len()
        invariant
            named(rooted_models(list@), name@, 0) == named(rooted_models(list@), name@, i as int),
    {
        if same(list[i].repository.name.as_str(), name) {
            return Some(i);
        }
    }
    None
}

fn copy_rooted(repository: &RepositoryConfig, root: &str) -> (out: Rooted)
    ensures
        out@ == (RootedModel { repository: repository@, root: root@ }),
{
    Rooted { repository: repository.copy(), root: owned(root) }
}

/// The baseline with the repositories that were found below the working
/// directory, and what there is to say of them.  `roots` holds where each
/// repository of the baseline stands.  A repository that the baseline has
/// already is not added again; one that has the name of another takes its
/// place, and that is said.
pub fn union_repositories(baseline: &Config, roots: &Vec<String>, found: &Vec<Rooted>) -> (out: (
    Config,
    Vec<String>,
))
    requires
        roots@.len() == baseline.repositories@.len(),
    ensures
        out.0@ == union_config(baseline@, views(roots@), rooted_models(found@)),
        views(out.1@) == union_notes(baseline@, views(roots@), rooted_models(found@)),
{
    let ghost start = rooted_baseline(baseline@.repositories, views(roots@));
    let ghost all = rooted_models(found@);
    let mut list: Vec<Rooted> = Vec::new();
    for i in 0..roots.len()
        invariant
            roots@.len() == baseline.repositories@.len(),
            start == rooted_baseline(baseline@.repositories, views(roots@)),
            rooted_models(list@) == start.take(i as int),
    {
        let ghost before = rooted_models(list@);
        let next = copy_rooted(&baseline.repositories[i], roots[i].as_str());
        list.push(next);
        proof {
            assert(start[i as int] == next@);
            assert(rooted_models(list@) =~= before.push(next@));
            assert(start.take(i + 1) =~= before.push(next@));
        }
    }
    proof {
        assert(start.take(start.len() as int) =~= start);
    }
    let mut notes: Vec<String> = Vec::new();
    proof {
        assert(views(notes@) =~= Seq::<Seq<char>>::empty());
    }
    for i in 0..found.len()
        invariant
            all == rooted_models(found@),
            rooted_models(list@) == with_all_found(start, all, i as int),
            views(notes@) == all_found_notes(start, all, i as int),
    {
        let f = &found[i];
        let ghost before = rooted_models(list@);
        let ghost said = views(notes@);
        proof {
            assert(all[i as int] == f@);
            assert(said + Seq::<Seq<char>>::empty() =~= said);
        }
        if find_root(&list, f.root.as_str()).is_none() {
            let next = copy_rooted(&f.repository, f.root.as_str());
            match find_name(&list, f.repository.name.as_str()) {
                Some(at) => {
                    let note = cat6(
                        "repository '",
                        f.repository.name.as_str(),
                        "' at ",
                        f.root.as_str(),
                        " shadows the one at ",
                        list[at].root.as_str(),
                    );
                    notes.push(note);
                    proof {
                        assert(views(notes@) =~= said.push(note@));
                        assert(said + seq![note@] =~= said.push(note@));
                    }
                    list.set(at, next);
                    proof {
                        assert(rooted_models(list@) =~= before.update(at as int, f@));
                    }
                },
                None => {
                    list.push(next);
                    proof {
                        assert(rooted_models(list@) =~= before.push(f@));
                    }
                },
            }
        }
    }
    let ghost last = rooted_models(list@);
    let mut repositories: Vec<RepositoryConfig> = Vec::new();
    for i in 0..list.len()
        invariant
            last == rooted_models(list@),
            repository_models(repositories@) == repositories_of(last).take(i as int),
    {
        let ghost before = repository_models(repositories@);
        repositories.push(list[i].repository.copy());
        proof {
            let target = repositories_of(last);
            assert(target[i as int] == list@[i as int].repository@);
            assert(repository_models(repositories@) =~= before.push(target[i as int]));
            assert(target.take(i + 1) =~= before.push(target[i as int]));
        }
    }
    proof {
        let target = repositories_of(last);
        assert(target.take(target.len() as int) =~= target);
    }
    let copy = baseline.copy();
    let cfg = Config { repositories, ..copy };
    proof {
        assert(cfg@ =~= union_config(baseline@, views(roots@), all));
    }
    (cfg, notes)
}

fn cat6(a: &str, b: &str, c: &str, d: &str, e: &str, f: &str) -> (out: String)
    ensures
        out@ == a@ + b@ + c@ + d@ + e@ + f@,
{
    let start = cat5(a, b, c, d, e);
    crate::text::cat2(start.as_str(), f)
}

/// The names of the repositories of a list.
pub open spec fn rooted_names(list: Seq<RootedModel>) -> Seq<Seq<char>> {
    Seq::new(list.len(), |i: int| list[i].repository.name)
}

proof fn named_is_exact(list: Seq<RootedModel>, name: Seq<char>, from: int)
    requires
        0 <= from <= list.len(),
    ensures
        match named(list, name, from) {
            Some(i) => from <= i < list.len() && list[i].repository.name == name,
            None => forall|j: int|
                from <= j < list.len() ==> (#[trigger] list[j]).repository.name != name,
        },
    decreases list.len() - from,
{
    if from < list.len() && list[from].repository.name != name {
        named_is_exact(list, name, from + 1);
    }
}

proof fn standing_is_exact(list: Seq<RootedModel>, root: Seq<char>, from: int)
    requires
        0 <= from <= list.len(),
    ensures
        match standing_at(list, root, from) {
            Some(i) => from <= i < list.len() && same_path(list[i].root, root),
            None => forall|j: int|
                from <= j < list.len() ==> !same_path((#[trigger] list[j]).root, root),
        },
    decreases list.len() - from,
{
    if from < list.len() && !same_path(list[from].root, root) {
        standing_is_exact(list, root, from + 1);
    }
}

/// Where the repositories of the baseline have different names, so have those
/// of the union.
pub proof fn union_names_stay_distinct(list: Seq<RootedModel>, found: Seq<RootedModel>, n: int)
    requires
        0 <= n <= found.len(),
        rooted_names(list).no_duplicates(),
    ensures
        rooted_names(with_all_found(list, found, n)).no_duplicates(),
    decreases n,
{
    if n > 0 {
        union_names_stay_distinct(list, found, n - 1);
        let before = with_all_found(list, found, n - 1);
        let f = found[n - 1];
        let after = with_found(before, f);
        named_is_exact(before, f.repository.name, 0);
        assert forall|i: int, j: int|
            0 <= i < after.len() && 0 <= j < after.len() && i != j implies rooted_names(after)[i]
            != rooted_names(after)[j] by {
            if i < before.len() && j < before.len() {
                assert(rooted_names(before)[i] != rooted_names(before)[j]);
            }
        }
    }
}

/// Every repository that was found is in the union, or one that stands where it
/// does is; one that is found last of its name is there itself.
pub proof fn found_repository_is_in_the_union(list: Seq<RootedModel>, found: RootedModel)
    ensures
        with_found(list, found).contains(found) || exists|i: int|
            0 <= i < list.len() && same_path((#[trigger] list[i]).root, found.root)
                && with_found(list, found) == list,
{
    standing_is_exact(list, found.root, 0);
    named_is_exact(list, found.repository.name, 0);
    match standing_at(list, found.root, 0) {
        Some(i) => {
            assert(same_path(list[i].root, found.root));
        },
        None => {
            match named(list, found.repository.name, 0) {
                Some(i) => {
                    assert(with_found(list, found)[i] == found);
                },
                None => {
                    assert(with_found(list, found)[list.len() as int] == found);
                },
            }
        },
    }
}

/// Where nothing is found, the union is the baseline.
pub proof fn union_with_nothing_is_the_baseline(baseline: ConfigModel, roots: Seq<Seq<char>>)
    ensures
        union_config(baseline, roots, Seq::<RootedModel>::empty()) == baseline,
        union_notes(baseline, roots, Seq::<RootedModel>::empty()).len() == 0,
{
    let none = Seq::<RootedModel>::empty();
    assert(repositories_of(rooted_baseline(baseline.repositories, roots))
        =~= baseline.repositories);
    assert(union_config(baseline, roots, none) =~= baseline);
}

proof fn union_is_of_both(list: Seq<RootedModel>, found: Seq<RootedModel>, n: int, i: int)
    requires
        0 <= n <= found.len(),
        0 <= i < with_all_found(list, found, n).len(),
    ensures
        list.contains(with_all_found(list, found, n)[i]) || found.contains(
            with_all_found(list, found, n)[i],
        ),
    decreases n,
{
    let all = with_all_found(list, found, n);
    if n <= 0 {
        assert(list.contains(list[i]));
    } else {
        let before = with_all_found(list, found, n - 1);
        named_is_exact(before, found[n - 1].repository.name, 0);
        if i < before.len() && all[i] == before[i] {
            union_is_of_both(list, found, n - 1, i);
        } else {
            assert(found.contains(found[n - 1]));
        }
    }
}

/// A repository of the baseline stays where it is in the union, unless one that
/// was found has its name; one of its name is there in any case.
pub proof fn baseline_repositories_stay(
    list: Seq<RootedModel>,
    found: Seq<RootedModel>,
    n: int,
    i: int,
)
    requires
        0 <= n <= found.len(),
        0 <= i < list.len(),
    ensures
        list.len() <= with_all_found(list, found, n).len(),
        with_all_found(list, found, n)[i].repository.name == list[i].repository.name,
        (forall|k: int|
            0 <= k < n ==> (#[trigger] found[k]).repository.name != list[i].repository.name)
            ==> with_all_found(list, found, n)[i] == list[i],
    decreases n,
{
    if n > 0 {
        baseline_repositories_stay(list, found, n - 1, i);
        let before = with_all_found(list, found, n - 1);
        named_is_exact(before, found[n - 1].repository.name, 0);
    }
}

/// A usable baseline stays usable with usable repositories that were found, as
/// long as no corpus that the user declared has the name of one of theirs.  Every
/// declared corpus is listed as it is, and so is the wiki of every repository of
/// the baseline; a repository of which none of its name was found keeps its
/// corpora.
pub proof fn union_with_found_is_usable(
    baseline: ConfigModel,
    roots: Seq<Seq<char>>,
    found: Seq<RootedModel>,
)
    requires
        config_fault(baseline) is None,
        forall|k: int|
            0 <= k < found.len() ==> is_usable((#[trigger] found[k]).repository) && clear_of(
                baseline.corpora,
                found[k].repository,
            ),
    ensures
        config_fault(union_config(baseline, roots, found)) is None,
        ({
            let cfg = union_config(baseline, roots, found);
            let all = all_corpora(cfg.corpora, cfg.repositories);
            &&& all.take(baseline.corpora.len() as int) == baseline.corpora
            &&& forall|i: int|
                #![trigger baseline.repositories[i]]
                0 <= i < baseline.repositories.len() ==> {
                    let repo = baseline.repositories[i];
                    &&& corpus_names(all).contains(repo_corpus(repo.name, RepoCorpusKind::Wiki))
                    &&& !repository_names(repositories_of(found)).contains(repo.name)
                        ==> all.contains(wiki_corpus(repo)) && (repo.corpus_paths.len() > 0
                        ==> all.contains(source_corpus(repo)))
                }
        }),
{
    let list = rooted_baseline(baseline.repositories, roots);
    let n = found.len() as int;
    let union = with_all_found(list, found, n);
    let cfg = union_config(baseline, roots, found);
    let repos = cfg.repositories;
    listed_corpora_are_distinct(baseline.corpora, baseline.repositories);
    faultless_lists_are_usable(baseline.repositories);
    assert(rooted_names(list) =~= repository_names(baseline.repositories));
    union_names_stay_distinct(list, found, n);
    assert(repository_names(repos) =~= rooted_names(union));
    assert forall|i: int| 0 <= i < repos.len() implies is_usable(#[trigger] repos[i]) && clear_of(
        baseline.corpora,
        repos[i],
    ) by {
        union_is_of_both(list, found, n, i);
        if list.contains(union[i]) {
            let k = choose|k: int| 0 <= k < list.len() && list[k] == union[i];
            assert(repos[i] == baseline.repositories[k]);
        } else {
            let k = choose|k: int| 0 <= k < found.len() && found[k] == union[i];
            assert(repos[i] == found[k].repository);
        }
    }
    faultless_lists_are_usable(repos);
    distinct_corpora_can_be_listed(baseline.corpora, repos);
    let all = all_corpora(cfg.corpora, repos);
    assert(all.take(baseline.corpora.len() as int) =~= baseline.corpora);
    assert forall|i: int|
        #![trigger baseline.repositories[i]]
        0 <= i < baseline.repositories.len() implies {
        let repo = baseline.repositories[i];
        &&& corpus_names(all).contains(repo_corpus(repo.name, RepoCorpusKind::Wiki))
        &&& !repository_names(repositories_of(found)).contains(repo.name) ==> all.contains(
            wiki_corpus(repo),
        ) && (repo.corpus_paths.len() > 0 ==> all.contains(source_corpus(repo)))
    } by {
        let repo = baseline.repositories[i];
        baseline_repositories_stay(list, found, n, i);
        every_repository_has_its_wiki(cfg.corpora, repos, i);
        assert(repos[i].name == repo.name);
        let j = choose|j: int| 0 <= j < all.len() && all[j] == wiki_corpus(repos[i]);
        assert(corpus_names(all)[j] == repo_corpus(repo.name, RepoCorpusKind::Wiki));
        if !repository_names(repositories_of(found)).contains(repo.name) {
            assert forall|k: int| 0 <= k < n implies (#[trigger] found[k]).repository.name
                != list[i].repository.name by {
                assert(repository_names(repositories_of(found))[k] == found[k].repository.name);
            }
            assert(repos[i] == repo);
        }
    }
}

/// How far below a working directory repositories are looked for: how many
/// directories are entered, one in the other, with the one that holds a layer.
pub const WALK_DEPTH: usize = 5;

/// The directory of a repository that holds its layer.
pub const LAYER_DIR: &'static str = ".hallouminate";

/// Whether the search for repositories enters the entry of a directory, with
/// `depth_left` directories left to enter: it must be a directory that git does
/// not ignore and that is not hidden, but for the one that holds a layer.
pub open spec fn enters(name: Seq<char>, is_dir: bool, ignored: bool, depth_left: nat) -> bool {
    &&& depth_left > 0
    &&& is_dir
    &&& !ignored
    &&& !has_prefix(name, "."@) || name == LAYER_DIR@
}

/// Whether the search for repositories enters the entry of a directory.
pub fn walk_enters(name: &str, is_dir: bool, ignored: bool, depth_left: usize) -> (out: bool)
    ensures
        out == enters(name@, is_dir, ignored, depth_left as nat),
{
    depth_left > 0 && is_dir && !ignored && (!starts_with(name, ".") || same(name, LAYER_DIR))
}

/// The search for repositories is bounded: it enters no more directories, one in
/// the other, than it may.
pub proof fn walks_are_bounded(
    names: Seq<Seq<char>>,
    dirs: Seq<bool>,
    ignored: Seq<bool>,
    depth: nat,
)
    requires
        dirs.len() == names.len(),
        ignored.len() == names.len(),
        forall|i: int|
            0 <= i < names.len() ==> enters(
                #[trigger] names[i],
                dirs[i],
                ignored[i],
                (if i <= depth {
                    depth - i
                } else {
                    0
                }) as nat,
            ),
    ensures
        names.len() <= depth,
{
    if names.len() > depth {
        let name = names[depth as int];
        assert(enters(name, dirs[depth as int], ignored[depth as int], 0));
    }
}

/// A repository that was found adds nothing where one of the list stands in its
/// place.  Else it takes the place of the first that has its name, and that is
/// said; and where none has its name, it comes last.
pub proof fn found_repositories_join_replace_or_stay_out(
    list: Seq<RootedModel>,
    found: RootedModel,
    i: int,
)
    requires
        0 <= i <= list.len(),
        forall|j: int| 0 <= j < i ==> (#[trigger] list[j]).repository.name != found.repository.name,
        i < list.len() ==> list[i].repository.name == found.repository.name,
    ensures
        (exists|j: int| 0 <= j < list.len() && same_path((#[trigger] list[j]).root, found.root))
            ==> with_found(list, found) == list && found_notes(list, found).len() == 0,
        (forall|j: int|
            0 <= j < list.len() ==> !same_path((#[trigger] list[j]).root, found.root)) ==> {
            if i < list.len() {
                &&& with_found(list, found) == list.take(i).push(found) + list.skip(i + 1)
                &&& found_notes(list, found) == seq![
                    "repository '"@ + found.repository.name + "' at "@ + found.root
                        + " shadows the one at "@ + list[i].root,
                ]
            } else {
                &&& with_found(list, found) == list.push(found)
                &&& found_notes(list, found).len() == 0
            }
        },
{
    standing_is_exact(list, found.root, 0);
    first_of_the_name(list, found.repository.name, 0, i);
    if i < list.len() {
        assert(list.update(i, found) =~= list.take(i).push(found) + list.skip(i + 1));
    }
}

proof fn first_of_the_name(list: Seq<RootedModel>, name: Seq<char>, from: int, i: int)
    requires
        0 <= from <= i <= list.len(),
        forall|j: int| from <= j < i ==> (#[trigger] list[j]).repository.name != name,
        i < list.len() ==> list[i].repository.name == name,
    ensures
        named(list, name, from) == if i < list.len() {
            Some(i)
        } else {
            None
        },
    decreases i - from,
{
    if from < i {
        assert(list[from].repository.name != name);
        first_of_the_name(list, name, from + 1, i);
    }
}

/// The repositories that were found join one after the other, each the list that
/// the ones before it have made; and nothing but the repositories changes.
pub proof fn found_repositories_join_in_turn(
    baseline: ConfigModel,
    roots: Seq<Seq<char>>,
    found: Seq<RootedModel>,
)
    ensures
        ({
            let start = Seq::new(
                baseline.repositories.len(),
                |i: int| RootedModel { repository: baseline.repositories[i], root: roots[i] },
            );
            let end = found.fold_left(
                start,
                |list: Seq<RootedModel>, one: RootedModel| with_found(list, one),
            );
            let out = union_config(baseline, roots, found);
            &&& out == (ConfigModel { repositories: out.repositories, ..baseline })
            &&& out.repositories.len() == end.len()
            &&& forall|i: int|
                0 <= i < end.len() ==> #[trigger] out.repositories[i] == end[i].repository
        }),
{
    joined_in_turn(
        rooted_baseline(baseline.repositories, roots),
        found,
        found.len() as int,
    );
    assert(found.take(found.len() as int) =~= found);
}

proof fn joined_in_turn(list: Seq<RootedModel>, found: Seq<RootedModel>, n: int)
    requires
        0 <= n <= found.len(),
    ensures
        with_all_found(list, found, n) == found.take(n).fold_left(
            list,
            |list: Seq<RootedModel>, one: RootedModel| with_found(list, one),
        ),
    decreases n,
{
    reveal(Seq::fold_left);
    if n > 0 {
        joined_in_turn(list, found, n - 1);
        assert(found.take(n).drop_last() =~= found.take(n - 1));
        assert(found.take(n).last() == found[n - 1]);
    }
}

/// The search for repositories enters directories that are neither ignored nor
/// hidden, and the directory that holds a layer.
pub proof fn walks_enter_plain_directories(name: Seq<char>, depth_left: nat)
    ensures
        enters(".hallouminate"@, true, false, depth_left) <==> depth_left > 0,
        !enters(name, false, false, depth_left),
        !enters(name, true, true, depth_left),
        name.len() > 0 && name[0] != '.' ==> (enters(name, true, false, depth_left) <==> depth_left
            > 0),
        name.len() > 0 && name[0] == '.' && name != ".hallouminate"@ ==> !enters(
            name,
            true,
            false,
            depth_left,
        ),
{
    reveal_strlit(".");
    if name.len() > 0 {
        assert(name.take(1)[0] == name[0]);
        if name[0] == '.' {
            assert(name.take(1) =~= "."@);
        }
    }
}

/// What is said of the repositories that were found is what is said of each of
/// them in turn.
pub proof fn notes_are_made_in_turn(
    baseline: ConfigModel,
    roots: Seq<Seq<char>>,
    found: Seq<RootedModel>,
    last: RootedModel,
)
    ensures
        ({
            let start = Seq::new(
                baseline.repositories.len(),
                |i: int| RootedModel { repository: baseline.repositories[i], root: roots[i] },
            );
            let so_far = found.fold_left(
                start,
                |list: Seq<RootedModel>, one: RootedModel| with_found(list, one),
            );
            union_notes(baseline, roots, found.push(last)) == union_notes(baseline, roots, found)
                + found_notes(so_far, last)
        }),
{
    let start = rooted_baseline(baseline.repositories, roots);
    let n = found.len() as int;
    let more = found.push(last);
    joined_in_turn(start, found, n);
    assert(found.take(n) =~= found);
    same_beginning(start, found, more, n);
}

proof fn same_beginning(
    list: Seq<RootedModel>,
    found: Seq<RootedModel>,
    more: Seq<RootedModel>,
    n: int,
)
    requires
        0 <= n <= found.len() <= more.len(),
        forall|i: int| 0 <= i < found.len() ==> found[i] == #[trigger] more[i],
    ensures
        with_all_found(list, found, n) == with_all_found(list, more, n),
        all_found_notes(list, found, n) == all_found_notes(list, more, n),
    decreases n,
{
    if n > 0 {
        same_beginning(list, found, more, n - 1);
        assert(found[n - 1] == more[n - 1]);
    }
}

/// The models of a list are those of its repositories, each in its place and with
/// where it stands.
pub proof fn rooted_models_are_in_their_place(list: Seq<Rooted>, i: int)
    requires
        0 <= i < list.len(),
    ensures
        rooted_models(list).len() == list.len(),
        rooted_models(list)[i].root == list[i].root@,
        rooted_models(list)[i].repository == list[i].repository@,
        repositories_of(rooted_models(list))[i] == list[i].repository@,
{
}

} // verus!
