//! How well a corpus is indexed.

use vstd::prelude::*;

use crate::daemon::ipc::CorpusStatsResult;
use crate::text::{owned, same, views};

verus! {

/// A row of the store, as far as it says what is indexed.
#[derive(Debug)]
pub struct IndexedRow {
    /// The file that the chunk is of.
    pub file_ref: String,
    /// When it was indexed, in milliseconds.
    pub indexed_at_ms: i64,
}

/// The files that the rows are of.
pub open spec fn row_files(rows: Seq<IndexedRow>) -> Seq<Seq<char>> {
    Seq::new(rows.len(), |i: int| rows[i].file_ref@)
}

/// When the newest of the rows was indexed; none where there are none.
pub open spec fn newest(rows: Seq<IndexedRow>) -> Option<i64>
    decreases rows.len(),
{
    if rows.len() == 0 {
        None
    } else {
        match newest(rows.drop_last()) {
            Some(before) => if before >= rows.last().indexed_at_ms {
                Some(before)
            } else {
                Some(rows.last().indexed_at_ms)
            },
            None => Some(rows.last().indexed_at_ms),
        }
    }
}

/// How many of the files are not among those that are indexed.
pub open spec fn count_missing(files: Seq<Seq<char>>, indexed: Seq<Seq<char>>) -> nat
    decreases files.len(),
{
    if files.len() == 0 {
        0
    } else if indexed.contains(files.last()) {
        count_missing(files.drop_last(), indexed)
    } else {
        count_missing(files.drop_last(), indexed) + 1
    }
}

fn lists(list: &Vec<String>, text: &str) -> (out: bool)
    ensures
        out == views(list@).contains(text@),
{
    for i in 0..list.len()
        invariant
            forall|j: int| 0 <= j < i ==> views(list@)[j] != text@,
    {
        if same(list[i].as_str(), text) {
            proof {
                assert(views(list@)[i as int] == text@);
            }
            return true;
        }
    }
    false
}

/// How well a corpus is indexed, from its rows in the store and the files that
/// it has on disk.
pub fn corpus_stats(corpus: &str, rows: &Vec<IndexedRow>, files: &Vec<String>) -> (out:
    CorpusStatsResult)
    ensures
        out.corpus@ == corpus@,
        out.indexed_files == row_files(rows@).to_set().len(),
        out.total_chunks == rows@.len(),
        out.last_indexed_ms == newest(rows@),
        out.unindexed_files == count_missing(views(files@), row_files(rows@)),
{
    let ghost all = row_files(rows@);
    let mut indexed: Vec<String> = Vec::new();
    let mut last: Option<i64> = None;
    proof {
        assert(rows@.take(0) =~= Seq::<IndexedRow>::empty());
    }
    for i in 0..rows.len()
        invariant
            all == row_files(rows@),
            views(indexed@).no_duplicates(),
            indexed@.len() <= i,
            views(indexed@).to_set() == all.take(i as int).to_set(),
            last == newest(rows@.take(i as int)),
    {
        let ghost before = views(indexed@);
        let ghost now = all.take(i as int);
        let ghost next = all.take(i + 1);
        let row = &rows[i];
        proof {
            assert(rows@.take(i + 1).drop_last() =~= rows@.take(i as int));
            assert(rows@.take(i + 1).last() == *row);
            assert(next =~= now.push(row.file_ref@));
        }
        if !lists(&indexed, row.file_ref.as_str()) {
            indexed.push(row.file_ref.clone());
            proof {
                assert(views(indexed@) =~= before.push(row.file_ref@));
                before.lemma_push_to_set_commute(row.file_ref@);
            }
        } else {
            proof {
                assert(before.to_set().contains(row.file_ref@));
                assert(before.to_set().insert(row.file_ref@) =~= before.to_set());
            }
        }
        proof {
            now.lemma_push_to_set_commute(row.file_ref@);
        }
        last = match last {
            Some(before) => if before >= row.indexed_at_ms {
                Some(before)
            } else {
                Some(row.indexed_at_ms)
            },
            None => Some(row.indexed_at_ms),
        };
    }
    proof {
        assert(all.take(all.len() as int) =~= all);
        assert(rows@.take(rows@.len() as int) =~= rows@);
        views(indexed@).unique_seq_to_set();
        assert(views(files@).take(0) =~= Seq::<Seq<char>>::empty());
    }
    let mut missing: u64 = 0;
    for i in 0..files.len()
        invariant
            all == row_files(rows@),
            views(indexed@).to_set() == all.to_set(),
            missing <= i,
            missing == count_missing(views(files@).take(i as int), all),
    {
        proof {
            let next = views(files@).take(i + 1);
            assert(next.drop_last() =~= views(files@).take(i as int));
            assert(next.last() == files@[i as int]@);
            assert(all.to_set().contains(next.last()) <==> views(indexed@).to_set().contains(
                next.last(),
            ));
        }
        if !lists(&indexed, files[i].as_str()) {
            missing = missing + 1;
        }
    }
    proof {
        assert(views(files@).take(files@.len() as int) =~= views(files@));
    }
    CorpusStatsResult {
        corpus: owned(corpus),
        indexed_files: indexed.len() as u64,
        total_chunks: rows.len() as u64,
        last_indexed_ms: last,
        unindexed_files: missing,
    }
}

/// A corpus was never indexed exactly where it has no rows.
pub proof fn only_empty_stores_have_no_time(rows: Seq<IndexedRow>)
    ensures
        newest(rows) is None <==> rows.len() == 0,
        forall|i: int|
            0 <= i < rows.len() ==> (#[trigger] rows[i]).indexed_at_ms <= newest(rows)->0,
    decreases rows.len(),
{
    if rows.len() > 0 {
        let front = rows.drop_last();
        only_empty_stores_have_no_time(front);
        assert forall|i: int| 0 <= i < rows.len() implies (#[trigger] rows[i]).indexed_at_ms
            <= newest(rows)->0 by {
            if i < front.len() {
                assert(rows[i] == front[i]);
                assert(front[i].indexed_at_ms <= newest(front)->0);
            }
        }
    }
}

/// The time of a corpus is that of one of its rows, and no row is newer.
pub proof fn newest_time_is_of_a_row(rows: Seq<IndexedRow>) -> (at: int)
    requires
        rows.len() > 0,
    ensures
        0 <= at < rows.len(),
        newest(rows) == Some(rows[at].indexed_at_ms),
        forall|i: int|
            0 <= i < rows.len() ==> (#[trigger] rows[i]).indexed_at_ms <= rows[at].indexed_at_ms,
    decreases rows.len(),
{
    only_empty_stores_have_no_time(rows);
    let front = rows.drop_last();
    if front.len() == 0 {
        0
    } else {
        let before = newest_time_is_of_a_row(front);
        if front[before].indexed_at_ms >= rows.last().indexed_at_ms {
            before
        } else {
            rows.len() - 1
        }
    }
}

/// The files that are not indexed are counted one by one: those that no row is
/// of, and no others.
pub proof fn missing_files_are_those_without_rows(files: Seq<Seq<char>>, indexed: Seq<Seq<char>>)
    ensures
        count_missing(files, indexed) == files.filter(
            |file: Seq<char>| !indexed.contains(file),
        ).len(),
    decreases files.len(),
{
    reveal(Seq::filter);
    if files.len() > 0 {
        missing_files_are_those_without_rows(files.drop_last(), indexed);
    }
}

/// The files that are indexed are those that rows are of.
pub proof fn indexed_files_are_those_of_the_rows(rows: Seq<IndexedRow>, file: Seq<char>)
    ensures
        row_files(rows).len() == rows.len(),
        row_files(rows).to_set().contains(file) <==> exists|i: int|
            0 <= i < rows.len() && (#[trigger] rows[i]).file_ref@ == file,
{
    let files = row_files(rows);
    if files.to_set().contains(file) {
        let i = choose|i: int| 0 <= i < files.len() && files[i] == file;
        assert(rows[i].file_ref@ == file);
    }
    if exists|i: int| 0 <= i < rows.len() && (#[trigger] rows[i]).file_ref@ == file {
        let i = choose|i: int| 0 <= i < rows.len() && (#[trigger] rows[i]).file_ref@ == file;
        assert(files[i] == file);
    }
}

} // verus!
