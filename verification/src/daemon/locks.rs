//! The locks that a change to a corpus is made under.
//!
//! A change takes the lock of its corpus and then the one lane for writes, and
//! gives them back the other way round.  Who holds the lane so never waits for
//! a corpus, and no two changes wait for each other.

use vstd::prelude::*;

use crate::text::{owned, same, views};

verus! {

/// What a change holds.
#[derive(Debug, Clone, Copy, PartialEq, Eq, Structural)]
pub struct MutationGuard {
    /// The lock of its corpus.
    pub corpus: bool,
    /// The lane for writes.
    pub lane: bool,
}

/// What a change waits for, or gives back.
#[derive(Debug, Clone, Copy, PartialEq, Eq, Structural)]
pub enum GuardStep {
    /// Wait for the lock of the corpus.
    TakeCorpus,
    /// Wait for the lane.
    TakeLane,
    /// Give the lane back.
    ReleaseLane,
    /// Give the lock of the corpus back.
    ReleaseCorpus,
    /// Nothing.
    Settled,
}

/// The message where no more writes are taken.
pub const LANE_CLOSED: &'static str = "write lane closed";

impl MutationGuard {
    /// The lane is held only together with the lock of the corpus.
    pub open spec fn well_formed(&self) -> bool {
        self.lane ==> self.corpus
    }

    /// Nothing is held.
    pub fn nothing() -> (out: MutationGuard)
        ensures
            out.well_formed(),
            out == (MutationGuard { corpus: false, lane: false }),
    {
        MutationGuard { corpus: false, lane: false }
    }

    /// What is taken next, until both are held.
    pub fn acquire_next(&self) -> (out: GuardStep)
        ensures
            out == acquiring(*self),
    {
        if !self.corpus {
            GuardStep::TakeCorpus
        } else if !self.lane {
            GuardStep::TakeLane
        } else {
            GuardStep::Settled
        }
    }

    /// What is given back next, until nothing is held.
    pub fn release_next(&self) -> (out: GuardStep)
        ensures
            out == releasing(*self),
    {
        if self.lane {
            GuardStep::ReleaseLane
        } else if self.corpus {
            GuardStep::ReleaseCorpus
        } else {
            GuardStep::Settled
        }
    }

    /// The step was done.
    pub fn after(&self, step: GuardStep) -> (out: MutationGuard)
        requires
            self.well_formed(),
            step == acquiring(*self) || step == releasing(*self),
        ensures
            out.well_formed(),
            out == stepped(*self, step),
    {
        match step {
            GuardStep::TakeCorpus => MutationGuard { corpus: true, lane: self.lane },
            GuardStep::TakeLane => MutationGuard { corpus: self.corpus, lane: true },
            GuardStep::ReleaseLane => MutationGuard { corpus: self.corpus, lane: false },
            GuardStep::ReleaseCorpus => MutationGuard { corpus: false, lane: self.lane },
            GuardStep::Settled => *self,
        }
    }
}

/// What is taken next, until both are held.
pub open spec fn acquiring(guard: MutationGuard) -> GuardStep {
    if !guard.corpus {
        GuardStep::TakeCorpus
    } else if !guard.lane {
        GuardStep::TakeLane
    } else {
        GuardStep::Settled
    }
}

/// What is given back next, until nothing is held.
pub open spec fn releasing(guard: MutationGuard) -> GuardStep {
    if guard.lane {
        GuardStep::ReleaseLane
    } else if guard.corpus {
        GuardStep::ReleaseCorpus
    } else {
        GuardStep::Settled
    }
}

/// What is held after the step.
pub open spec fn stepped(guard: MutationGuard, step: GuardStep) -> MutationGuard {
    match step {
        GuardStep::TakeCorpus => MutationGuard { corpus: true, ..guard },
        GuardStep::TakeLane => MutationGuard { lane: true, ..guard },
        GuardStep::ReleaseLane => MutationGuard { lane: false, ..guard },
        GuardStep::ReleaseCorpus => MutationGuard { corpus: false, ..guard },
        GuardStep::Settled => guard,
    }
}

/// Why a change is not made where no more writes are taken.
pub fn lane_closed() -> (out: String)
    ensures
        out@ == LANE_CLOSED@,
{
    owned(LANE_CLOSED)
}

/// Who holds the lane waits for nothing.
pub proof fn lane_holder_never_waits(guard: MutationGuard)
    requires
        guard.well_formed(),
        guard.lane,
    ensures
        acquiring(guard) == GuardStep::Settled,
{
}

/// Both are held after two steps and given back after two more.
pub proof fn guards_are_taken_and_given_back()
    ensures
        ({
            let none = MutationGuard { corpus: false, lane: false };
            let one = stepped(none, acquiring(none));
            let both = stepped(one, acquiring(one));
            let less = stepped(both, releasing(both));
            &&& both == MutationGuard { corpus: true, lane: true }
            &&& less == one
            &&& stepped(less, releasing(less)) == none
        }),
{
}

/// The corpora that have a lock, each once; the place of a corpus is the number
/// of its lock.
#[derive(Debug)]
pub struct CorpusLockMap {
    pub names: Vec<String>,
}

impl CorpusLockMap {
    /// No corpus has two locks.
    pub open spec fn well_formed(&self) -> bool {
        views(self.names@).no_duplicates()
    }

    /// No locks yet.
    pub fn empty() -> (out: CorpusLockMap)
        ensures
            out.well_formed(),
            out.names@.len() == 0,
    {
        CorpusLockMap { names: Vec::new() }
    }

    /// The number of the lock of a corpus.  A corpus that has none gets one;
    /// the numbers of the others stay.
    pub fn lock(&mut self, corpus: &str) -> (out: usize)
        requires
            old(self).well_formed(),
        ensures
            final(self).well_formed(),
            out < final(self).names@.len(),
            final(self).names@[out as int]@ == corpus@,
            views(final(self).names@) == if views(old(self).names@).contains(corpus@) {
                views(old(self).names@)
            } else {
                views(old(self).names@).push(corpus@)
            },
    {
        for i in 0..self.names.len()
            invariant
                self.well_formed(),
                self.names@ == old(self).names@,
                forall|j: int| 0 <= j < i ==> views(self.names@)[j] != corpus@,
        {
            if same(self.names[i].as_str(), corpus) {
                proof {
                    assert(views(self.names@)[i as int] == corpus@);
                }
                return i;
            }
        }
        let at: usize = self.names.len();
        let ghost before = views(self.names@);
        self.names.push(owned(corpus));
        proof {
            assert(views(self.names@) =~= before.push(corpus@));
            assert(!before.contains(corpus@));
        }
        at
    }
}

/// Two changes share a lock exactly when they are made to the same corpus.
pub proof fn locks_are_shared_within_a_corpus(map: CorpusLockMap, a: int, b: int)
    requires
        map.well_formed(),
        0 <= a < map.names@.len(),
        0 <= b < map.names@.len(),
    ensures
        a == b <==> map.names@[a]@ == map.names@[b]@,
{
    assert(views(map.names@)[a] == map.names@[a]@);
    assert(views(map.names@)[b] == map.names@[b]@);
}

/// A change that is being made: the number of its corpus's lock, and what it
/// holds.
pub struct Change {
    pub lock: nat,
    pub guard: MutationGuard,
}

/// Whether no two changes hold the same lock, or the lane.
pub open spec fn exclusive(changes: Seq<Change>) -> bool {
    &&& forall|i: int, j: int|
        0 <= i < j < changes.len() ==> !((#[trigger] changes[i]).guard.lane && (
        #[trigger] changes[j]).guard.lane)
    &&& forall|i: int, j: int|
        0 <= i < j < changes.len() ==> !((#[trigger] changes[i]).guard.corpus && (
        #[trigger] changes[j]).guard.corpus && changes[i].lock == changes[j].lock)
}

/// Whether the change waits for nothing that another holds.
pub open spec fn can_go_on(changes: Seq<Change>, i: int) -> bool {
    match acquiring(changes[i].guard) {
        GuardStep::TakeCorpus => forall|j: int|
            0 <= j < changes.len() && (#[trigger] changes[j]).lock == changes[i].lock
                ==> !changes[j].guard.corpus,
        GuardStep::TakeLane => forall|j: int|
            0 <= j < changes.len() ==> !(#[trigger] changes[j]).guard.lane,
        _ => true,
    }
}

/// However many changes are being made, one of them can go on: they never all
/// wait for each other.
pub proof fn some_change_can_go_on(changes: Seq<Change>) -> (i: int)
    requires
        changes.len() > 0,
        exclusive(changes),
        forall|j: int| 0 <= j < changes.len() ==> (#[trigger] changes[j]).guard.well_formed(),
    ensures
        0 <= i < changes.len(),
        can_go_on(changes, i),
{
    if exists|j: int| 0 <= j < changes.len() && (#[trigger] changes[j]).guard.lane {
        let j = choose|j: int| 0 <= j < changes.len() && (#[trigger] changes[j]).guard.lane;
        assert(changes[j].guard.well_formed());
        j
    } else if exists|j: int| 0 <= j < changes.len() && (#[trigger] changes[j]).guard.corpus {
        choose|j: int| 0 <= j < changes.len() && (#[trigger] changes[j]).guard.corpus
    } else {
        0
    }
}

} // verus!
