//! Watching the files of the corpora and indexing those that change.

use vstd::prelude::*;

use crate::config::Config;
use crate::corpus::{all_corpora, corpora_fault, corpus_models, CorpusConfig, CorpusModel};
use crate::path::{
    absolute, below, components, components_of, is_name, is_same_path, is_within, join, joined,
    parent, parent_of, same_path, slash, strip_prefix, within,
};
use crate::text::{join_with, owned, same, views};
use crate::tilde::{expand_tilde, expands_to};

verus! {

/// How far below a directory changes are watched for.
#[derive(Debug, Clone, Copy, PartialEq, Eq, Structural)]
pub enum RecursiveMode {
    Recursive,
    NonRecursive,
}

/// A place that is watched for a corpus.
#[derive(Debug)]
pub struct WatchRoot {
    /// The directory that is watched, as it was configured.
    pub watched: String,
    /// The same directory with links resolved, as changes are reported.
    pub canonical_watched: String,
    pub corpus: CorpusConfig,
    /// The one file that belongs to the corpus, where its root is a file.
    pub canonical_file_root: Option<String>,
    pub mode: RecursiveMode,
}

/// What there is at a root of a corpus.
#[derive(Debug)]
pub enum RootProbe {
    /// A directory; this is where it is with links resolved.
    Dir { canonical: String },
    /// A file; this is where it, and the directory that holds it, are with
    /// links resolved.
    File { canonical: String, canonical_parent: String },
    /// Nothing.
    Absent,
}

/// A root of a corpus that may be watched.
#[derive(Debug)]
pub struct WatchCandidate {
    pub corpus: CorpusConfig,
    /// The root, with the home directory filled in.
    pub root: String,
}

/// Whether a root of a corpus is watched as `out` says.
pub open spec fn watched_as(
    corpus: CorpusModel,
    root: Seq<char>,
    probe: RootProbe,
    out: Option<WatchRoot>,
) -> bool {
    match probe {
        RootProbe::Dir { canonical } => out matches Some(w) && w.watched@ == root
            && w.canonical_watched == canonical && w.corpus@ == corpus && w.canonical_file_root
            is None && w.mode == RecursiveMode::Recursive,
        RootProbe::File { canonical, canonical_parent } => match parent(root) {
            Some(dir) => out matches Some(w) && w.watched@ == dir && w.canonical_watched
                == canonical_parent && w.corpus@ == corpus && w.canonical_file_root == Some(
                canonical,
            ) && w.mode == RecursiveMode::NonRecursive,
            None => out is None,
        },
        RootProbe::Absent => out is None,
    }
}

/// How a root of a corpus is watched: a directory with all that is below it; a
/// file through the directory that holds it, so that a file that is replaced is
/// noticed.  What is not there is not watched.
pub fn build_watch_root(corpus: &CorpusConfig, root: &str, probe: RootProbe) -> (out: Option<
    WatchRoot,
>)
    ensures
        watched_as(corpus@, root@, probe, out),
{
    match probe {
        RootProbe::Dir { canonical } => Some(
            WatchRoot {
                watched: owned(root),
                canonical_watched: canonical,
                corpus: corpus.copy(),
                canonical_file_root: None,
                mode: RecursiveMode::Recursive,
            },
        ),
        RootProbe::File { canonical, canonical_parent } => match parent_of(root) {
            Some(dir) => Some(
                WatchRoot {
                    watched: dir,
                    canonical_watched: canonical_parent,
                    corpus: corpus.copy(),
                    canonical_file_root: Some(canonical),
                    mode: RecursiveMode::NonRecursive,
                },
            ),
            None => None,
        },
        RootProbe::Absent => None,
    }
}

/// How many roots the first `n` corpora have together.
pub open spec fn root_count(corpora: Seq<CorpusModel>, n: int) -> nat
    decreases n,
{
    if n <= 0 {
        0
    } else {
        root_count(corpora, n - 1) + corpora[n - 1].paths.len()
    }
}

/// Whether the candidate at the given place stands for that root of that
/// corpus.
pub open spec fn stands_for(
    candidate: WatchCandidate,
    corpus: CorpusModel,
    path: Seq<char>,
) -> bool {
    candidate.corpus@ == corpus && expands_to(path, candidate.root@)
}

/// Whether the candidates are the roots of the first `n` corpora and the first
/// `k` of the next, in their order.
pub open spec fn lists_roots(
    list: Seq<WatchCandidate>,
    corpora: Seq<CorpusModel>,
    n: int,
    k: int,
) -> bool {
    &&& list.len() == root_count(corpora, n) + k
    &&& forall|c: int, p: int|
        #![trigger corpora[c].paths[p]]
        0 <= c < n && 0 <= p < corpora[c].paths.len() ==> stands_for(
            list[root_count(corpora, c) + p],
            corpora[c],
            corpora[c].paths[p],
        )
    &&& forall|p: int|
        0 <= p < k ==> stands_for(
            list[root_count(corpora, n) + p],
            corpora[n],
            #[trigger] corpora[n].paths[p],
        )
}

proof fn root_count_grows(corpora: Seq<CorpusModel>, c: int, n: int)
    requires
        0 <= c < n,
    ensures
        root_count(corpora, c) + corpora[c].paths.len() <= root_count(corpora, n),
    decreases n,
{
    if c < n - 1 {
        root_count_grows(corpora, c, n - 1);
    }
}

/// The roots of all corpora of the baseline, which may be watched; none where
/// the corpora cannot be listed.
pub fn watch_candidates(cfg: &Config) -> (out: Option<Vec<WatchCandidate>>)
    ensures
        match corpora_fault(cfg@.corpora, cfg@.repositories) {
            Some(_) => out is None,
            None => {
                let all = all_corpora(cfg@.corpora, cfg@.repositories);
                out matches Some(list) && lists_roots(list@, all, all.len() as int, 0)
            },
        },
{
    let corpora = match cfg.effective_corpora() {
        Ok(list) => list,
        Err(_) => {
            return None;
        },
    };
    let ghost all = corpus_models(corpora@);
    let mut out: Vec<WatchCandidate> = Vec::new();
    for n in 0..corpora.len()
        invariant
            all == corpus_models(corpora@),
            lists_roots(out@, all, n as int, 0),
    {
        let corpus = &corpora[n];
        for k in 0..corpus.paths.len()
            invariant
                n < corpora@.len(),
                all == corpus_models(corpora@),
                *corpus == corpora@[n as int],
                lists_roots(out@, all, n as int, k as int),
        {
            let ghost before = out@;
            let root = expand_tilde(corpus.paths[k].as_str());
            out.push(WatchCandidate { corpus: corpus.copy(), root });
            proof {
                assert(all[n as int] == corpus@);
                assert(all[n as int].paths[k as int] == corpus.paths@[k as int]@);
                assert(out@.last() == out@[root_count(all, n as int) + k]);
                assert forall|c: int, p: int|
                    #![trigger all[c].paths[p]]
                    0 <= c < n && 0 <= p < all[c].paths.len() implies stands_for(
                    out@[root_count(all, c) + p],
                    all[c],
                    all[c].paths[p],
                ) by {
                    root_count_grows(all, c, n as int);
                    assert(before[root_count(all, c) + p] == out@[root_count(all, c) + p]);
                }
                assert forall|p: int| 0 <= p < k + 1 implies stands_for(
                    out@[root_count(all, n as int) + p],
                    all[n as int],
                    #[trigger] all[n as int].paths[p],
                ) by {
                    if p < k {
                        assert(before[root_count(all, n as int) + p] == out@[root_count(
                            all,
                            n as int,
                        ) + p]);
                    }
                }
            }
        }
        proof {
            assert(root_count(all, n + 1) == root_count(all, n as int)
                + all[n as int].paths.len());
            assert forall|c: int, p: int|
                #![trigger all[c].paths[p]]
                0 <= c < n + 1 && 0 <= p < all[c].paths.len() implies stands_for(
                out@[root_count(all, c) + p],
                all[c],
                all[c].paths[p],
            ) by {
                if c == n {
                    assert(stands_for(
                        out@[root_count(all, n as int) + p],
                        all[n as int],
                        all[n as int].paths[p],
                    ));
                }
            }
        }
    }
    Some(out)
}

/// The candidates whose root is there, as they are watched, up to `n`.
pub open spec fn watched_roots(
    list: Seq<WatchCandidate>,
    probes: Seq<RootProbe>,
    roots: Seq<WatchRoot>,
    n: int,
) -> bool
    decreases n,
{
    if n <= 0 {
        roots.len() == 0
    } else {
        let c = list[n - 1];
        if watched_as(c.corpus@, c.root@, probes[n - 1], None) {
            watched_roots(list, probes, roots, n - 1)
        } else {
            &&& roots.len() > 0
            &&& watched_as(c.corpus@, c.root@, probes[n - 1], Some(roots.last()))
            &&& watched_roots(list, probes, roots.drop_last(), n - 1)
        }
    }
}

/// What is watched, from what there is at each candidate; nothing where there
/// is nothing to watch.
pub fn watch_roots(list: &Vec<WatchCandidate>, probes: Vec<RootProbe>) -> (out: Option<
    Vec<WatchRoot>,
>)
    requires
        probes@.len() == list@.len(),
    ensures
        out matches Some(roots) ==> roots@.len() > 0 && watched_roots(
            list@,
            probes@,
            roots@,
            list@.len() as int,
        ),
        out is None ==> watched_roots(
            list@,
            probes@,
            Seq::<WatchRoot>::empty(),
            list@.len() as int,
        ),
{
    let ghost all = probes@;
    let mut reversed: Vec<RootProbe> = Vec::new();
    let mut rest = probes;
    while rest.len() > 0
        invariant
            rest@ == all.take(rest@.len() as int),
            rest@.len() <= all.len(),
            reversed@ == all.skip(rest@.len() as int).reverse(),
        decreases rest.len(),
    {
        let ghost len = rest@.len() as int;
        match rest.pop() {
            Some(probe) => {
                reversed.push(probe);
                proof {
                    assert(rest@ =~= all.take(len - 1));
                    assert(reversed@ =~= all.skip(len - 1).reverse());
                }
            },
            None => {},
        }
    }
    proof {
        assert(all.skip(0) =~= all);
    }
    let mut roots: Vec<WatchRoot> = Vec::new();
    for i in 0..list.len()
        invariant
            all.len() == list@.len(),
            reversed@ == all.skip(i as int).reverse(),
            watched_roots(list@, all, roots@, i as int),
    {
        let ghost before = roots@;
        match reversed.pop() {
            Some(probe) => {
                proof {
                    assert(probe == all[i as int]);
                    assert(reversed@ =~= all.skip(i + 1).reverse());
                }
                match build_watch_root(&list[i].corpus, list[i].root.as_str(), probe) {
                    Some(root) => {
                        roots.push(root);
                        proof {
                            assert(roots@.drop_last() =~= before);
                        }
                    },
                    None => {},
                }
            },
            None => {
                proof {
                    assert(all.skip(i as int).reverse().len() > 0);
                }
            },
        }
    }
    if roots.len() == 0 {
        proof {
            assert(roots@ =~= Seq::<WatchRoot>::empty());
        }
        None
    } else {
        Some(roots)
    }
}

/// Whether a changed file belongs to what is watched there.  `allowed` says
/// whether the filters of the corpus take the file.
pub open spec fn owns(root: WatchRoot, allowed: bool, path: Seq<char>) -> bool {
    &&& within(path, root.canonical_watched@)
    &&& match root.canonical_file_root {
        Some(file) => same_path(file@, path),
        None => allowed,
    }
}

/// Which of the first `n` roots a changed file belongs to: the deepest that
/// owns it, and the first of those.
pub open spec fn owner_among(
    roots: Seq<WatchRoot>,
    allowed: Seq<bool>,
    path: Seq<char>,
    n: int,
) -> Option<int>
    decreases n,
{
    if n <= 0 {
        None
    } else {
        let before = owner_among(roots, allowed, path, n - 1);
        if !owns(roots[n - 1], allowed[n - 1], path) {
            before
        } else {
            match before {
                Some(i) => if components(roots[n - 1].canonical_watched@).len() > components(
                    roots[i].canonical_watched@,
                ).len() {
                    Some(n - 1)
                } else {
                    before
                },
                None => Some(n - 1),
            }
        }
    }
}

/// Which root a changed file belongs to: the deepest directory around it whose
/// corpus takes it.  A root that is a file takes that file only.
pub fn owning_corpus(roots: &Vec<WatchRoot>, allowed: &Vec<bool>, path: &str) -> (out: Option<
    usize,
>)
    requires
        allowed@.len() == roots@.len(),
    ensures
        out matches Some(i) ==> i < roots@.len() && owner_among(
            roots@,
            allowed@,
            path@,
            roots@.len() as int,
        ) == Some(i as int),
        out is None ==> owner_among(roots@, allowed@, path@, roots@.len() as int) is None,
{
    let mut best: Option<usize> = None;
    for i in 0..roots.len()
        invariant
            allowed@.len() == roots@.len(),
            best matches Some(b) ==> b < i && owner_among(roots@, allowed@, path@, i as int)
                == Some(b as int),
            best is None ==> owner_among(roots@, allowed@, path@, i as int) is None,
    {
        let root = &roots[i];
        let mut member = is_within(path, root.canonical_watched.as_str());
        if member {
            member = match &root.canonical_file_root {
                Some(file) => is_same_path(file.as_str(), path),
                None => allowed[i],
            };
        }
        if member {
            match best {
                Some(b) => {
                    let depth: usize = components_of(root.canonical_watched.as_str()).len();
                    let known: usize = components_of(roots[b].canonical_watched.as_str()).len();
                    if depth > known {
                        best = Some(i);
                    }
                },
                None => {
                    best = Some(i);
                },
            }
        }
    }
    best
}

/// The root that a changed file belongs to owns it, no root that owns it lies
/// deeper, and of those that lie as deep it is the first; where there is none, no
/// root owns it.
pub proof fn owner_is_deepest(roots: Seq<WatchRoot>, allowed: Seq<bool>, path: Seq<char>, n: int)
    requires
        0 <= n <= roots.len(),
        allowed.len() == roots.len(),
    ensures
        match owner_among(roots, allowed, path, n) {
            Some(i) => 0 <= i < n && owns(roots[i], allowed[i], path) && forall|j: int|
                0 <= j < n && owns(#[trigger] roots[j], allowed[j], path) ==> components(
                    roots[j].canonical_watched@,
                ).len() <= components(roots[i].canonical_watched@).len() && (j < i ==> components(
                    roots[j].canonical_watched@,
                ).len() < components(roots[i].canonical_watched@).len()),
            None => forall|j: int| 0 <= j < n ==> !owns(#[trigger] roots[j], allowed[j], path),
        },
    decreases n,
{
    if n > 0 {
        owner_is_deepest(roots, allowed, path, n - 1);
    }
}

/// The name in the store of a file that is gone: `fallback` where it was not
/// below what is watched.
pub open spec fn gone_file_ref(
    canonical_watched: Seq<char>,
    path: Seq<char>,
    fallback: Seq<char>,
) -> Seq<char> {
    if within(path, canonical_watched) {
        joined(canonical_watched, below(path, canonical_watched))
    } else {
        fallback
    }
}

/// The name in the store of a file that is gone.  It can no longer be asked
/// where its links lead, so the name is made from the directory, which was
/// asked while it was there.
pub fn delete_file_ref(owner: &WatchRoot, path: &str, fallback: &str) -> (out: String)
    ensures
        out@ == gone_file_ref(owner.canonical_watched@, path@, fallback@),
{
    match strip_prefix(path, owner.canonical_watched.as_str()) {
        Some(rest) => join(owner.canonical_watched.as_str(), rest.as_str()),
        None => owned(fallback),
    }
}

/// A path that changed, as it was reported.
#[derive(Debug)]
pub struct Changed {
    pub path: String,
    /// Whether it is of a kind that is indexed at all.
    pub indexable: bool,
}

/// The changed files that wait to be indexed, each of them once.
#[derive(Debug)]
pub struct Pending {
    pub paths: Vec<String>,
}

/// The paths among the changes that are indexed, up to `n`.
pub open spec fn admitted(changes: Seq<Changed>, n: int) -> Set<Seq<char>>
    decreases n,
{
    if n <= 0 {
        Set::empty()
    } else if changes[n - 1].indexable {
        admitted(changes, n - 1).insert(changes[n - 1].path@)
    } else {
        admitted(changes, n - 1)
    }
}

impl Pending {
    /// Whether each path is there once.
    pub open spec fn well_formed(&self) -> bool {
        views(self.paths@).no_duplicates()
    }

    /// The paths.
    pub open spec fn set(&self) -> Set<Seq<char>> {
        views(self.paths@).to_set()
    }

    /// Nothing waits.
    pub fn none() -> (out: Pending)
        ensures
            out.well_formed(),
            out.set() == Set::<Seq<char>>::empty(),
    {
        let out = Pending { paths: Vec::new() };
        proof {
            assert(views(out.paths@) =~= Seq::<Seq<char>>::empty());
            assert(out.set() =~= Set::<Seq<char>>::empty());
        }
        out
    }

    fn holds(&self, path: &str) -> (out: bool)
        ensures
            out == self.set().contains(path@),
    {
        for i in 0..self.paths.len()
            invariant
                forall|j: int| 0 <= j < i ==> views(self.paths@)[j] != path@,
        {
            if same(self.paths[i].as_str(), path) {
                proof {
                    assert(views(self.paths@)[i as int] == path@);
                }
                return true;
            }
        }
        false
    }

    fn add_path(&mut self, path: &str)
        requires
            old(self).well_formed(),
        ensures
            final(self).well_formed(),
            final(self).set() == old(self).set().insert(path@),
    {
        let ghost before = views(self.paths@);
        if self.holds(path) {
            proof {
                assert(self.set() =~= self.set().insert(path@));
            }
            return;
        }
        self.paths.push(owned(path));
        proof {
            let now = views(self.paths@);
            assert(now =~= before.push(path@));
            assert(self.set() =~= before.to_set().insert(path@)) by {
                assert forall|p: Seq<char>| #[trigger] now.contains(p) == before.to_set().insert(
                    path@,
                ).contains(p) by {
                    if before.contains(p) {
                        let i = choose|i: int| 0 <= i < before.len() && before[i] == p;
                        assert(now[i] == p);
                    }
                    if p == path@ {
                        assert(now[before.len() as int] == p);
                    }
                    if now.contains(p) {
                        let i = choose|i: int| 0 <= i < now.len() && now[i] == p;
                        if i < before.len() {
                            assert(before[i] == p);
                        }
                    }
                }
            }
            assert(now.no_duplicates()) by {
                assert forall|i: int, j: int|
                    0 <= i < now.len() && 0 <= j < now.len() && i != j implies now[i] != now[j] by {
                    if i == before.len() {
                        assert(before[j] == now[j]);
                        assert(before.to_set().contains(before[j]));
                    } else if j == before.len() {
                        assert(before[i] == now[i]);
                        assert(before.to_set().contains(before[i]));
                    }
                }
            }
        }
    }

    /// Adds the changes that are indexed.  One that waits already is not added
    /// again, so that a file that changes often is indexed once.
    pub fn record(&mut self, changes: &Vec<Changed>)
        requires
            old(self).well_formed(),
        ensures
            final(self).well_formed(),
            final(self).set() == old(self).set().union(admitted(changes@, changes@.len() as int)),
    {
        let ghost start = self.set();
        proof {
            assert(start.union(admitted(changes@, 0)) =~= start);
        }
        for i in 0..changes.len()
            invariant
                self.well_formed(),
                self.set() == start.union(admitted(changes@, i as int)),
        {
            if changes[i].indexable {
                self.add_path(changes[i].path.as_str());
            }
            proof {
                assert(self.set() =~= start.union(admitted(changes@, i + 1)));
            }
        }
    }

    /// Takes all that waits; nothing waits afterwards.
    pub fn drain(&mut self) -> (out: Vec<String>)
        ensures
            out@ == old(self).paths@,
            final(self).well_formed(),
            final(self).set() == Set::<Seq<char>>::empty(),
    {
        let mut out: Vec<String> = Vec::new();
        core::mem::swap(&mut self.paths, &mut out);
        proof {
            assert(views(self.paths@) =~= Seq::<Seq<char>>::empty());
            assert(self.set() =~= Set::<Seq<char>>::empty());
        }
        out
    }
}

/// Whether a failure is reported, where the last one was reported at `last`: not
/// before `reminder_secs` have passed since then.  Every failure is, where that
/// is zero.
pub open spec fn is_reported(last: Option<u64>, now: u64, reminder_secs: u64) -> bool {
    match last {
        Some(before) => reminder_secs == 0 || now - before >= reminder_secs,
        None => true,
    }
}

/// Whether a failure is reported, where the last one was reported at `last`.
pub fn report_failure(last: Option<u64>, now: u64, reminder_secs: u64) -> (out: bool)
    ensures
        out == is_reported(last, now, reminder_secs),
{
    match last {
        Some(before) => reminder_secs == 0 || (now >= before && now - before >= reminder_secs),
        None => true,
    }
}

/// What waits does not depend on how the changes were reported, in one batch or
/// in several.
pub proof fn batches_coalesce(first: Seq<Changed>, second: Seq<Changed>)
    ensures
        admitted(first + second, (first.len() + second.len()) as int) == admitted(
            first,
            first.len() as int,
        ).union(admitted(second, second.len() as int)),
    decreases second.len(),
{
    let whole = first + second;
    if second.len() == 0 {
        admitted_prefix(whole, first, first.len() as int);
        assert(admitted(first, first.len() as int).union(admitted(second, 0)) =~= admitted(
            first,
            first.len() as int,
        ));
    } else {
        let shorter = second.drop_last();
        batches_coalesce(first, shorter);
        let n = (first.len() + second.len()) as int;
        admitted_prefix(whole, first + shorter, n - 1);
        admitted_prefix(second, shorter, second.len() - 1);
        assert(whole[n - 1] == second.last());
        assert(admitted(whole, n) =~= admitted(first, first.len() as int).union(
            admitted(second, second.len() as int),
        ));
    }
}

proof fn admitted_prefix(a: Seq<Changed>, b: Seq<Changed>, n: int)
    requires
        0 <= n <= a.len(),
        n <= b.len(),
        forall|i: int| 0 <= i < n ==> a[i] == b[i],
    ensures
        admitted(a, n) == admitted(b, n),
    decreases n,
{
    if n > 0 {
        admitted_prefix(a, b, n - 1);
    }
}

/// What wakes the pump that indexes changed files.
#[derive(Debug, Clone, Copy, PartialEq, Eq, Structural)]
pub enum PumpEvent {
    /// The daemon stops.
    Shutdown,
    /// Something waits.
    Wake,
    /// No more changes will be reported.
    Disconnected,
    /// The task that waited broke down.
    TaskFailed,
}

/// Whether the pump goes on: only where something waits.
pub fn pump_continues(event: PumpEvent) -> (out: bool)
    ensures
        out == (event is Wake),
{
    match event {
        PumpEvent::Wake => true,
        _ => false,
    }
}

/// What is done next about a changed file.
#[derive(Debug, Clone, Copy, PartialEq, Eq, Structural)]
pub enum ChangeStep {
    /// Take the lock of the corpus and the lane for writes.
    Lock,
    /// Look whether the file is there.
    Stat,
    /// Read it, following no links.
    Read,
    /// Get the embedder.
    Embedder,
    /// Index it.
    Reindex,
    /// Delete its rows.
    Prune,
    /// Nothing more.
    Finished,
}

/// What came of a step.
#[derive(Debug)]
pub enum ChangeEvent {
    /// Whether the lock was taken.
    Locked(bool),
    /// Whether the file is there.
    Exists(bool),
    /// What the one read gave that followed no links: the bytes of the file and
    /// when it was last changed, in milliseconds; none where it failed.
    Read(Option<(Vec<u8>, i64)>),
    /// Whether the embedder could be had.
    Embedder(bool),
    /// The store was told.
    Done,
}

/// A changed file that is being seen to.
#[derive(Debug)]
pub struct ChangeRun {
    /// The name of the corpus that the file belongs to.
    pub corpus: String,
    /// The file, as its change was reported.
    pub path: String,
    /// The directory from which it is read, following no links.
    pub root: String,
    /// The file, seen from that directory.
    pub relative: String,
    /// The name of the file in the store.
    pub file_ref: String,
    /// What it holds, once it was read.
    pub content: Vec<u8>,
    /// When it was last changed, in milliseconds, once it was read.
    pub mtime_ms: i64,
    pub step: ChangeStep,
}

/// Whether the run sees to a file of the root, from its start.
pub open spec fn change_starts(
    run: ChangeRun,
    owner: WatchRoot,
    path: Seq<char>,
    fallback: Seq<char>,
) -> bool {
    &&& run.step == ChangeStep::Lock
    &&& run.corpus@ == owner.corpus@.name
    &&& run.path@ == path
    &&& run.root@ == owner.canonical_watched@
    &&& run.relative@ == below(path, owner.canonical_watched@)
    &&& run.file_ref@ == gone_file_ref(owner.canonical_watched@, path, fallback)
    &&& run.content@.len() == 0
    &&& run.mtime_ms == 0
}

/// What is done about a changed file: nothing where no root owns it.  `allowed`
/// says for each root whether the filters of its corpus take the file.
pub fn handle_changed_path(
    roots: &Vec<WatchRoot>,
    allowed: &Vec<bool>,
    path: &str,
    fallback: &str,
) -> (out: Option<ChangeRun>)
    requires
        allowed@.len() == roots@.len(),
    ensures
        match owner_among(roots@, allowed@, path@, roots@.len() as int) {
            Some(i) => out matches Some(run) && change_starts(run, roots@[i], path@, fallback@),
            None => out is None,
        },
{
    let at: usize = match owning_corpus(roots, allowed, path) {
        Some(i) => i,
        None => {
            return None;
        },
    };
    let owner = &roots[at];
    proof {
        owner_is_deepest(roots@, allowed@, path@, roots@.len() as int);
    }
    let relative = match strip_prefix(path, owner.canonical_watched.as_str()) {
        Some(rest) => rest,
        None => String::new(),
    };
    Some(
        ChangeRun {
            corpus: owner.corpus.name.clone(),
            path: owned(path),
            root: owner.canonical_watched.clone(),
            relative,
            file_ref: delete_file_ref(owner, path, fallback),
            content: Vec::new(),
            mtime_ms: 0,
            step: ChangeStep::Lock,
        },
    )
}

/// What follows.  What does not answer the step changes nothing.
pub open spec fn change_after(
    run: ChangeRun,
    event: ChangeEvent,
    embeddings_enabled: bool,
) -> ChangeRun {
    match (run.step, event) {
        (ChangeStep::Lock, ChangeEvent::Locked(taken)) => ChangeRun {
            step: if taken {
                ChangeStep::Stat
            } else {
                ChangeStep::Finished
            },
            ..run
        },
        (ChangeStep::Stat, ChangeEvent::Exists(there)) => ChangeRun {
            step: if there {
                ChangeStep::Read
            } else {
                ChangeStep::Prune
            },
            ..run
        },
        (ChangeStep::Read, ChangeEvent::Read(Some((bytes, mtime)))) => ChangeRun {
            content: bytes,
            mtime_ms: mtime,
            step: if embeddings_enabled {
                ChangeStep::Embedder
            } else {
                ChangeStep::Reindex
            },
            ..run
        },
        (ChangeStep::Read, ChangeEvent::Read(None)) => ChangeRun {
            step: ChangeStep::Finished,
            ..run
        },
        (ChangeStep::Embedder, ChangeEvent::Embedder(there)) => ChangeRun {
            step: if there {
                ChangeStep::Reindex
            } else {
                ChangeStep::Finished
            },
            ..run
        },
        (ChangeStep::Reindex, ChangeEvent::Done) => ChangeRun { step: ChangeStep::Finished, ..run },
        (ChangeStep::Prune, ChangeEvent::Done) => ChangeRun { step: ChangeStep::Finished, ..run },
        _ => run,
    }
}

/// What follows.  A file that is there is read once, following no links, and
/// indexed from the bytes of that read; one that is gone loses its rows.  Any
/// failure leaves the store as it is.
pub fn change_next(run: ChangeRun, event: ChangeEvent, embeddings_enabled: bool) -> (out: ChangeRun)
    ensures
        out == change_after(run, event, embeddings_enabled),
{
    let mut run = run;
    match (run.step, event) {
        (ChangeStep::Lock, ChangeEvent::Locked(taken)) => {
            run.step = if taken {
                ChangeStep::Stat
            } else {
                ChangeStep::Finished
            };
        },
        (ChangeStep::Stat, ChangeEvent::Exists(there)) => {
            run.step = if there {
                ChangeStep::Read
            } else {
                ChangeStep::Prune
            };
        },
        (ChangeStep::Read, ChangeEvent::Read(got)) => match got {
            Some((bytes, mtime)) => {
                run.content = bytes;
                run.mtime_ms = mtime;
                run.step = if embeddings_enabled {
                    ChangeStep::Embedder
                } else {
                    ChangeStep::Reindex
                };
            },
            None => {
                run.step = ChangeStep::Finished;
            },
        },
        (ChangeStep::Embedder, ChangeEvent::Embedder(there)) => {
            run.step = if there {
                ChangeStep::Reindex
            } else {
                ChangeStep::Finished
            };
        },
        (ChangeStep::Reindex, ChangeEvent::Done) => {
            run.step = ChangeStep::Finished;
        },
        (ChangeStep::Prune, ChangeEvent::Done) => {
            run.step = ChangeStep::Finished;
        },
        _ => {},
    }
    run
}

/// Whether the changed file was seen to in these states, one event after the
/// other.
pub open spec fn change_trace(
    states: Seq<ChangeRun>,
    events: Seq<ChangeEvent>,
    embeddings_enabled: bool,
) -> bool {
    &&& states.len() == events.len() + 1
    &&& forall|i: int|
        0 <= i < events.len() ==> #[trigger] states[i + 1] == change_after(
            states[i],
            events[i],
            embeddings_enabled,
        )
}

/// Which file a run sees to, and under which name in which corpus, is settled
/// from its start: what is pruned is pruned under the corpus and the name that
/// the owner of the file gave it.
pub proof fn changes_keep_their_file(
    states: Seq<ChangeRun>,
    events: Seq<ChangeEvent>,
    embeddings_enabled: bool,
    i: int,
)
    requires
        change_trace(states, events, embeddings_enabled),
        0 <= i < states.len(),
    ensures
        states[i].corpus == states[0].corpus,
        states[i].path == states[0].path,
        states[i].root == states[0].root,
        states[i].relative == states[0].relative,
        states[i].file_ref == states[0].file_ref,
    decreases i,
{
    if i > 0 {
        let j = i - 1;
        changes_keep_their_file(states, events, embeddings_enabled, j);
        assert(states[j + 1] == change_after(states[j], events[j], embeddings_enabled));
    }
}

/// What is pruned for a file that is gone is what the store has under the name of
/// the file in the corpus of its owner, and nothing else; and it is pruned only
/// where the file was found not to be there.
pub proof fn gone_files_are_pruned_for_their_owner(
    states: Seq<ChangeRun>,
    events: Seq<ChangeEvent>,
    embeddings_enabled: bool,
    owner: WatchRoot,
    path: Seq<char>,
    fallback: Seq<char>,
    i: int,
)
    requires
        change_trace(states, events, embeddings_enabled),
        change_starts(states[0], owner, path, fallback),
        0 <= i < states.len(),
        states[i].step is Prune,
    ensures
        states[i].corpus@ == owner.corpus@.name,
        states[i].file_ref@ == gone_file_ref(owner.canonical_watched@, path, fallback),
        exists|j: int|
            0 <= j < i && (#[trigger] states[j]).step is Stat && events[j] == ChangeEvent::Exists(
                false,
            ),
    decreases i,
{
    changes_keep_their_file(states, events, embeddings_enabled, i);
    let j = i - 1;
    assert(states[j + 1] == change_after(states[j], events[j], embeddings_enabled));
    if states[j].step is Prune {
        gone_files_are_pruned_for_their_owner(
            states,
            events,
            embeddings_enabled,
            owner,
            path,
            fallback,
            j,
        );
    }
}

/// Whether the event is a read that gave what the run holds.
pub open spec fn gave_content(event: ChangeEvent, run: ChangeRun) -> bool {
    event matches ChangeEvent::Read(Some((bytes, mtime))) && run.content == bytes && run.mtime_ms
        == mtime
}

/// What is indexed is what the read gave that followed no links, and nothing
/// else: a file that could not be read so is not indexed.
pub proof fn only_what_was_read_is_indexed(
    states: Seq<ChangeRun>,
    events: Seq<ChangeEvent>,
    embeddings_enabled: bool,
    i: int,
)
    requires
        change_trace(states, events, embeddings_enabled),
        states[0].step is Lock,
        0 <= i < states.len(),
        states[i].step is Embedder || states[i].step is Reindex,
    ensures
        exists|j: int|
            0 <= j < i && states[j].step is Read && #[trigger] gave_content(events[j], states[i]),
    decreases i,
{
    if i > 0 {
        let j = i - 1;
        assert(states[j + 1] == change_after(states[j], events[j], embeddings_enabled));
        if states[j].step is Embedder || states[j].step is Reindex {
            only_what_was_read_is_indexed(states, events, embeddings_enabled, j);
            let k = choose|k: int|
                0 <= k < j && states[k].step is Read && #[trigger] gave_content(
                    events[k],
                    states[j],
                );
            assert(gave_content(events[k], states[i]));
        } else {
            assert(states[j].step is Read);
            assert(gave_content(events[j], states[i]));
        }
    }
}

/// Rows are deleted only when the file is gone, and a file that could not be
/// read without following links is left alone: the run is over.
pub proof fn only_gone_files_are_pruned(
    run: ChangeRun,
    event: ChangeEvent,
    embeddings_enabled: bool,
)
    ensures
        ({
            let next = change_after(run, event, embeddings_enabled);
            &&& next.step is Prune && !(run.step is Prune) ==> run.step is Stat && event
                == ChangeEvent::Exists(false)
            &&& run.step is Read && event == ChangeEvent::Read(None) ==> next.step is Finished
            &&& run.step is Finished ==> next == run
        }),
{
}

/// What waits is every path that was reported and is of a kind that is indexed,
/// and nothing else.
pub proof fn every_indexed_change_waits(changes: Seq<Changed>, n: int, path: Seq<char>)
    requires
        0 <= n <= changes.len(),
    ensures
        admitted(changes, n).contains(path) <==> exists|i: int|
            0 <= i < n && (#[trigger] changes[i]).indexable && changes[i].path@ == path,
    decreases n,
{
    if n > 0 {
        every_indexed_change_waits(changes, n - 1, path);
        if changes[n - 1].indexable && changes[n - 1].path@ == path {
            assert(changes[n - 1].indexable);
        }
    }
}

/// A failure is reported the first time, and then when the time for a reminder
/// has passed since the last report; without such a time, always.
pub proof fn failures_are_reported_now_and_then(before: u64, now: u64, reminder_secs: u64)
    ensures
        is_reported(None, now, reminder_secs),
        is_reported(Some(before), now, 0),
        reminder_secs > 0 ==> (is_reported(Some(before), now, reminder_secs) <==> now >= before
            + reminder_secs),
{
}

/// Whether the root is what is watched for the candidate: a directory itself,
/// with all that is below it; a file through the directory that holds it.
pub open spec fn is_watch_of(root: WatchRoot, candidate: WatchCandidate, probe: RootProbe) -> bool {
    &&& root.corpus@ == candidate.corpus@
    &&& match probe {
        RootProbe::Dir { canonical } => root.watched@ == candidate.root@ && root.mode
            is Recursive && root.canonical_watched@ == canonical@ && root.canonical_file_root
            is None,
        RootProbe::File { canonical, canonical_parent } => Some(root.watched@) == parent(
            candidate.root@,
        ) && root.mode is NonRecursive && root.canonical_watched@ == canonical_parent@ && (
        root.canonical_file_root matches Some(file) && file@ == canonical@),
        RootProbe::Absent => false,
    }
}

/// Whether the candidate is there to be watched.
pub open spec fn is_there(candidate: WatchCandidate, probe: RootProbe) -> bool {
    match probe {
        RootProbe::Dir { canonical } => true,
        RootProbe::File { canonical, canonical_parent } => parent(candidate.root@) is Some,
        RootProbe::Absent => false,
    }
}

/// Every candidate that is there is watched, and nothing else is, in the order of
/// the candidates.
pub proof fn all_that_is_there_is_watched(
    list: Seq<WatchCandidate>,
    probes: Seq<RootProbe>,
    roots: Seq<WatchRoot>,
    n: int,
) -> (at: Seq<int>)
    requires
        0 <= n <= list.len(),
        probes.len() == list.len(),
        watched_roots(list, probes, roots, n),
    ensures
        at.len() == roots.len(),
        forall|k: int|
            0 <= k < at.len() ==> 0 <= (#[trigger] at[k]) < n && is_there(
                list[at[k]],
                probes[at[k]],
            ) && is_watch_of(roots[k], list[at[k]], probes[at[k]]),
        forall|j: int, k: int| 0 <= j < k < at.len() ==> #[trigger] at[j] < #[trigger] at[k],
        forall|i: int|
            0 <= i < n && is_there(#[trigger] list[i], probes[i]) ==> at.contains(i),
    decreases n,
{
    if n <= 0 {
        Seq::empty()
    } else {
        let c = list[n - 1];
        if watched_as(c.corpus@, c.root@, probes[n - 1], None) {
            let at = all_that_is_there_is_watched(list, probes, roots, n - 1);
            assert(!is_there(c, probes[n - 1]));
            at
        } else {
            let before = all_that_is_there_is_watched(list, probes, roots.drop_last(), n - 1);
            let at = before.push(n - 1);
            assert(is_there(c, probes[n - 1]));
            assert(is_watch_of(roots.last(), c, probes[n - 1]));
            assert forall|k: int| 0 <= k < at.len() implies 0 <= (#[trigger] at[k]) < n && is_there(
                list[at[k]],
                probes[at[k]],
            ) && is_watch_of(roots[k], list[at[k]], probes[at[k]]) by {
                if k < before.len() {
                    assert(at[k] == before[k]);
                    assert(roots[k] == roots.drop_last()[k]);
                }
            }
            assert forall|j: int, k: int| 0 <= j < k < at.len() implies #[trigger] at[j]
                < #[trigger] at[k] by {
                assert(at[j] == before[j]);
                if k < before.len() {
                    assert(at[k] == before[k]);
                }
            }
            assert forall|i: int| 0 <= i < n && is_there(#[trigger] list[i], probes[i]) implies
                at.contains(i) by {
                if i < n - 1 {
                    let k = choose|k: int| 0 <= k < before.len() && before[k] == i;
                    assert(at[k] == i);
                } else {
                    assert(at[at.len() - 1] == i);
                }
            }
            at
        }
    }
}

/// A file that is gone has the name in the store that it had while it was there:
/// the directory that is watched, and the file seen from it.
pub proof fn gone_files_keep_their_name(
    watched: Seq<char>,
    parts: Seq<Seq<char>>,
    fallback: Seq<char>,
)
    requires
        absolute(watched),
        parts.len() > 0,
        forall|i: int|
            0 <= i < parts.len() ==> is_name(#[trigger] parts[i]) && !parts[i].contains('/'),
    ensures
        gone_file_ref(watched, joined(watched, join_with(parts, slash())), fallback) == joined(
            watched,
            join_with(parts, slash()),
        ),
{
    let rel = join_with(parts, slash());
    let path = joined(watched, rel);
    crate::path::paths_are_made_of_their_names(parts);
    crate::text::split_undoes_join(parts, '/');
    assert(is_name(parts[0]));
    assert(!absolute(rel)) by {
        crate::path::first_piece_starts_text(rel, '/');
        assert(rel.take(parts[0].len() as int)[0] == parts[0][0]);
        if parts[0][0] == '/' {
            assert(parts[0].contains('/'));
        }
    }
    crate::path::components_of_joined(watched, rel);
    crate::path::joined_is_below(watched, parts);
    assert(components(path).take(components(watched).len() as int) =~= components(watched));
    assert(path[0] == watched[0]);
}

/// A changed file that is there is read and indexed as it was read, with the
/// embedder where there is one, and one that is gone loses its rows; a file whose
/// lock cannot be had is left alone.
pub proof fn changes_are_seen_to_the_end(
    run: ChangeRun,
    bytes: Vec<u8>,
    mtime_ms: i64,
    embeddings_enabled: bool,
)
    requires
        run.step is Lock,
    ensures
        ({
            let locked = change_after(run, ChangeEvent::Locked(true), embeddings_enabled);
            let there = change_after(locked, ChangeEvent::Exists(true), embeddings_enabled);
            let read = change_after(
                there,
                ChangeEvent::Read(Some((bytes, mtime_ms))),
                embeddings_enabled,
            );
            let ready = if embeddings_enabled {
                change_after(read, ChangeEvent::Embedder(true), embeddings_enabled)
            } else {
                read
            };
            let gone = change_after(locked, ChangeEvent::Exists(false), embeddings_enabled);
            &&& locked.step is Stat
            &&& there.step is Read
            &&& ready == (ChangeRun {
                content: bytes,
                mtime_ms,
                step: ChangeStep::Reindex,
                ..run
            })
            &&& change_after(ready, ChangeEvent::Done, embeddings_enabled).step is Finished
            &&& gone == (ChangeRun { step: ChangeStep::Prune, ..run })
            &&& change_after(gone, ChangeEvent::Done, embeddings_enabled).step is Finished
            &&& change_after(run, ChangeEvent::Locked(false), embeddings_enabled).step is Finished
            &&& embeddings_enabled ==> change_after(
                read,
                ChangeEvent::Embedder(false),
                embeddings_enabled,
            ).step is Finished
        }),
{
}

/// Every root of every corpus may be watched, with the home directory filled in,
/// and nothing else may: there are as many candidates as roots.
pub proof fn every_root_is_a_candidate(
    list: Seq<WatchCandidate>,
    corpora: Seq<CorpusModel>,
    c: int,
    p: int,
) -> (k: int)
    requires
        lists_roots(list, corpora, corpora.len() as int, 0),
        0 <= c < corpora.len(),
        0 <= p < corpora[c].paths.len(),
    ensures
        list.len() == corpora.map_values(|corpus: CorpusModel| corpus.paths).flatten().len(),
        0 <= k < list.len(),
        list[k].corpus@ == corpora[c],
        expands_to(corpora[c].paths[p], list[k].root@),
{
    roots_are_counted(corpora, corpora.len() as int);
    assert(corpora.take(corpora.len() as int) =~= corpora);
    let k = root_count(corpora, c) + p;
    root_count_grows(corpora, c, corpora.len() as int);
    assert(stands_for(list[k], corpora[c], corpora[c].paths[p]));
    k
}

proof fn roots_are_counted(corpora: Seq<CorpusModel>, n: int)
    requires
        0 <= n <= corpora.len(),
    ensures
        root_count(corpora, n) == corpora.take(n).map_values(
            |corpus: CorpusModel| corpus.paths,
        ).flatten().len(),
    decreases n,
{
    let paths = |corpus: CorpusModel| corpus.paths;
    let parts = corpora.take(n).map_values(paths);
    if n > 0 {
        roots_are_counted(corpora, n - 1);
        let front = corpora.take(n - 1).map_values(paths);
        assert(parts.drop_last() =~= front);
        parts.lemma_flatten_and_flatten_alt_are_equivalent();
        front.lemma_flatten_and_flatten_alt_are_equivalent();
        assert(parts.last() == corpora[n - 1].paths);
    }
}

} // verus!
