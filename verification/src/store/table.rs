//! What the table holds after a batch of files was merged into it.

use vstd::prelude::*;

use crate::store::rows::{
    file_refs, is_plan_for, one_corpus, planned_rows_stay_in_scope, rows_of, BatchPlan,
    PreparedFile, Row,
};
use crate::text::views;

verus! {

/// Whether the row is one of the files in the corpus.
pub open spec fn in_scope<E>(row: Row<E>, corpus: Seq<char>, refs: Seq<Seq<char>>) -> bool {
    row.corpus == corpus && refs.contains(row.file_ref)
}

/// Whether one of the rows has the key of `row`.
pub open spec fn has_key_of<E>(rows: Seq<Row<E>>, row: Row<E>) -> bool {
    exists|i: int|
        0 <= i < rows.len() && (#[trigger] rows[i]).corpus == row.corpus && rows[i].chunk_id
            == row.chunk_id
}

/// What a table holds after rows were merged into it: the rows; and of what it
/// held, what has none of their keys and is not one of the files.
pub open spec fn after_merge<E>(
    table: Set<Row<E>>,
    rows: Seq<Row<E>>,
    corpus: Seq<char>,
    refs: Seq<Seq<char>>,
) -> Set<Row<E>> {
    Set::new(
        |row: Row<E>|
            rows.contains(row) || (table.contains(row) && !in_scope(row, corpus, refs)
                && !has_key_of(rows, row)),
    )
}

/// What a table holds after a batch of files of one corpus was indexed.
pub open spec fn after_batch<E>(table: Set<Row<E>>, files: Seq<PreparedFile<E>>) -> Set<Row<E>> {
    after_merge(table, rows_of(files), files[0].corpus@, file_refs(files))
}

/// What a table holds after a plan was carried out: its rows are merged in by
/// their keys, and what its scope names and is not among them goes.
pub open spec fn after_plan<E>(table: Set<Row<E>>, plan: BatchPlan<E>) -> Set<Row<E>> {
    after_merge(table, plan.rows.rows(), plan.corpus@, views(plan.refs@))
}

/// To carry out the plan for a batch is to index its files.
pub proof fn plans_index_their_files<E>(
    table: Set<Row<E>>,
    plan: BatchPlan<E>,
    files: Seq<PreparedFile<E>>,
)
    requires
        is_plan_for(plan, files),
    ensures
        after_plan(table, plan) == after_batch(table, files),
{
}

/// After a batch was indexed, the rows of its files are those of their chunks
/// and no others: what an older version of a file left is gone.
pub proof fn indexing_replaces_the_rows_of_the_files<E>(
    table: Set<Row<E>>,
    files: Seq<PreparedFile<E>>,
    row: Row<E>,
)
    requires
        files.len() > 0,
        one_corpus(files),
        in_scope(row, files[0].corpus@, file_refs(files)),
    ensures
        after_batch(table, files).contains(row) <==> rows_of(files).contains(row),
{
}

/// Indexing a batch leaves the rows of other corpora alone, also where they are
/// of the same files.
pub proof fn indexing_leaves_other_corpora_alone<E>(
    table: Set<Row<E>>,
    files: Seq<PreparedFile<E>>,
    row: Row<E>,
)
    requires
        files.len() > 0,
        one_corpus(files),
        row.corpus != files[0].corpus@,
    ensures
        after_batch(table, files).contains(row) <==> table.contains(row),
{
    let rows = rows_of(files);
    assert forall|i: int| 0 <= i < rows.len() implies (#[trigger] rows[i]).corpus != row.corpus by {
        planned_rows_stay_in_scope(files, i);
    }
    if rows.contains(row) {
        let i = choose|i: int| 0 <= i < rows.len() && rows[i] == row;
        assert(rows[i].corpus != row.corpus);
    }
}

/// Indexing a batch leaves the rows of other files alone, as long as none of
/// their identifiers is one of the batch.
pub proof fn indexing_leaves_other_files_alone<E>(
    table: Set<Row<E>>,
    files: Seq<PreparedFile<E>>,
    row: Row<E>,
)
    requires
        files.len() > 0,
        one_corpus(files),
        !file_refs(files).contains(row.file_ref),
        forall|i: int|
            0 <= i < rows_of(files).len() ==> (#[trigger] rows_of(files)[i]).chunk_id
                != row.chunk_id,
    ensures
        after_batch(table, files).contains(row) <==> table.contains(row),
{
    let rows = rows_of(files);
    if rows.contains(row) {
        let i = choose|i: int| 0 <= i < rows.len() && rows[i] == row;
        assert(rows[i].chunk_id != row.chunk_id);
    }
}

/// Indexing the same batch once more changes nothing.
pub proof fn indexing_again_changes_nothing<E>(table: Set<Row<E>>, files: Seq<PreparedFile<E>>)
    requires
        files.len() > 0,
        one_corpus(files),
    ensures
        after_batch(after_batch(table, files), files) == after_batch(table, files),
{
    let once = after_batch(table, files);
    let twice = after_batch(once, files);
    assert forall|row: Row<E>| twice.contains(row) <==> once.contains(row) by {}
    assert(twice =~= once);
}

/// A row takes the place of another with its corpus and its identifier: of what
/// the table held, no row is left that has the key of a row of the batch and is
/// not that row.
pub proof fn rows_take_the_place_of_their_key<E>(
    table: Set<Row<E>>,
    files: Seq<PreparedFile<E>>,
    row: Row<E>,
    i: int,
)
    requires
        files.len() > 0,
        0 <= i < rows_of(files).len(),
        rows_of(files)[i].corpus == row.corpus,
        rows_of(files)[i].chunk_id == row.chunk_id,
    ensures
        after_batch(table, files).contains(row) ==> rows_of(files).contains(row),
        after_batch(table, files).contains(rows_of(files)[i]),
{
    assert(has_key_of(rows_of(files), row));
    assert(rows_of(files).contains(rows_of(files)[i]));
}

} // verus!
