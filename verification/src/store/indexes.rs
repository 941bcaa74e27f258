//! When the search indexes of the store are built.
//!
//! After each batch the store is asked which indexes it has.  The text index is
//! built at once; the vector index waits until there are rows enough to train
//! it on, and is never built where there are no embeddings.  Once nothing is
//! left to build, a latch saves the question.

use vstd::prelude::*;

verus! {

/// How many rows the vector index needs.
pub const VECTOR_INDEX_ROWS: u64 = 256;

/// What the store has to be asked or told next.
#[derive(Debug, Clone, Copy, PartialEq, Eq, Structural)]
pub enum IndexStep {
    /// Which indexes are there?
    List,
    /// Build the text index; `has_vector` remembers whether there is a vector
    /// index.
    BuildText { has_vector: bool },
    /// How many rows are there?
    CountRows,
    /// Build the vector index.
    BuildVector,
    /// Nothing more for this batch; `latch` says whether nothing is left to
    /// build for good.
    Done { latch: bool },
}

/// What the store answered.
#[derive(Debug, Clone, Copy, PartialEq, Eq, Structural)]
pub enum IndexReply {
    /// Which indexes are there.
    Indexes { has_text: bool, has_vector: bool },
    /// The text index was built.
    TextBuilt,
    /// How many rows there are.
    Rows(u64),
    /// Whether the vector index could be built.
    VectorBuilt(bool),
}

/// What follows when the text index is there.
pub open spec fn after_text(embeddings_enabled: bool, has_vector: bool) -> IndexStep {
    if !embeddings_enabled || has_vector {
        IndexStep::Done { latch: true }
    } else {
        IndexStep::CountRows
    }
}

/// The step that follows a reply.  A reply that does not answer the step ends
/// the work of this batch and leaves the latch open.
pub open spec fn step_after(
    step: IndexStep,
    reply: IndexReply,
    embeddings_enabled: bool,
) -> IndexStep {
    match (step, reply) {
        (IndexStep::List, IndexReply::Indexes { has_text, has_vector }) => if has_text {
            after_text(embeddings_enabled, has_vector)
        } else {
            IndexStep::BuildText { has_vector }
        },
        (IndexStep::BuildText { has_vector }, IndexReply::TextBuilt) => after_text(
            embeddings_enabled,
            has_vector,
        ),
        (IndexStep::CountRows, IndexReply::Rows(rows)) => if rows >= VECTOR_INDEX_ROWS {
            IndexStep::BuildVector
        } else {
            IndexStep::Done { latch: false }
        },
        (IndexStep::BuildVector, IndexReply::VectorBuilt(built)) => IndexStep::Done { latch: built },
        (IndexStep::Done { latch }, _) => IndexStep::Done { latch },
        _ => IndexStep::Done { latch: false },
    }
}

/// The first step after a batch was written.
pub fn ensure_search_indexes(latched: bool) -> (out: IndexStep)
    ensures
        out == if latched {
            IndexStep::Done { latch: true }
        } else {
            IndexStep::List
        },
{
    if latched {
        IndexStep::Done { latch: true }
    } else {
        IndexStep::List
    }
}

fn step_after_text(embeddings_enabled: bool, has_vector: bool) -> (out: IndexStep)
    ensures
        out == after_text(embeddings_enabled, has_vector),
{
    if !embeddings_enabled || has_vector {
        IndexStep::Done { latch: true }
    } else {
        IndexStep::CountRows
    }
}

/// The step that follows a reply.
pub fn next_index_step(
    step: IndexStep,
    reply: IndexReply,
    embeddings_enabled: bool,
) -> (out: IndexStep)
    ensures
        out == step_after(step, reply, embeddings_enabled),
{
    match (step, reply) {
        (IndexStep::List, IndexReply::Indexes { has_text, has_vector }) => if has_text {
            step_after_text(embeddings_enabled, has_vector)
        } else {
            IndexStep::BuildText { has_vector }
        },
        (IndexStep::BuildText { has_vector }, IndexReply::TextBuilt) => step_after_text(
            embeddings_enabled,
            has_vector,
        ),
        (IndexStep::CountRows, IndexReply::Rows(rows)) => if rows >= VECTOR_INDEX_ROWS {
            IndexStep::BuildVector
        } else {
            IndexStep::Done { latch: false }
        },
        (IndexStep::BuildVector, IndexReply::VectorBuilt(built)) => IndexStep::Done { latch: built },
        (IndexStep::Done { latch }, _) => IndexStep::Done { latch },
        _ => IndexStep::Done { latch: false },
    }
}

/// What the store holds, as far as its indexes go.
pub struct StoreIndexes {
    pub has_text: bool,
    pub has_vector: bool,
    pub rows: u64,
}

/// What a store answers to a step, where the builds it is asked for succeed as
/// `vector_builds` says, and what it holds afterwards.
pub open spec fn answered(store: StoreIndexes, step: IndexStep, vector_builds: bool) -> (
    IndexReply,
    StoreIndexes,
) {
    match step {
        IndexStep::List => (
            IndexReply::Indexes { has_text: store.has_text, has_vector: store.has_vector },
            store,
        ),
        IndexStep::BuildText { has_vector } => (
            IndexReply::TextBuilt,
            StoreIndexes { has_text: true, ..store },
        ),
        IndexStep::CountRows => (IndexReply::Rows(store.rows), store),
        IndexStep::BuildVector => (
            IndexReply::VectorBuilt(vector_builds),
            StoreIndexes { has_vector: store.has_vector || vector_builds, ..store },
        ),
        IndexStep::Done { latch } => (IndexReply::TextBuilt, store),
    }
}

/// Where the work on a store ends that starts with `step`, after at most
/// `fuel` answers.
pub open spec fn indexed(
    store: StoreIndexes,
    step: IndexStep,
    embeddings_enabled: bool,
    vector_builds: bool,
    fuel: nat,
) -> (IndexStep, StoreIndexes)
    decreases fuel,
{
    if fuel == 0 || step is Done {
        (step, store)
    } else {
        let (reply, next) = answered(store, step, vector_builds);
        indexed(
            next,
            step_after(step, reply, embeddings_enabled),
            embeddings_enabled,
            vector_builds,
            (fuel - 1) as nat,
        )
    }
}

/// After a batch the work is done in at most four answers, and the store has
/// its text index.  It latches exactly when nothing is left to build: without
/// embeddings at once, with them when the vector index is there.  No vector
/// index is built without embeddings, nor below the number of rows it needs.
pub proof fn latch_means_nothing_left(
    store: StoreIndexes,
    embeddings_enabled: bool,
    vector_builds: bool,
)
    ensures
        ({
            let (step, after) = indexed(
                store,
                IndexStep::List,
                embeddings_enabled,
                vector_builds,
                4,
            );
            &&& step is Done
            &&& after.has_text
            &&& after.rows == store.rows
            &&& step == IndexStep::Done { latch: !embeddings_enabled || after.has_vector }
            &&& !embeddings_enabled ==> after.has_vector == store.has_vector
            &&& store.rows < VECTOR_INDEX_ROWS ==> after.has_vector == store.has_vector
            &&& embeddings_enabled && store.rows >= VECTOR_INDEX_ROWS && vector_builds
                ==> after.has_vector
        }),
{
    reveal_with_fuel(indexed, 5);
}

/// Once latched, a store is not asked again.
pub proof fn latched_store_is_left_alone(store: StoreIndexes, embeddings_enabled: bool)
    ensures
        indexed(
            store,
            IndexStep::Done { latch: true },
            embeddings_enabled,
            true,
            4,
        ) == (IndexStep::Done { latch: true }, store),
{
}

} // verus!
