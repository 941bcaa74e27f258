//! Indexing one file anew.

use vstd::prelude::*;

use crate::index::ApplyStats;
use crate::store::rows::{blake3_digest, content_hash_of, hex, FileSnapshot};
use crate::text::{cat2, same};

verus! {

/// The time at which a file was changed, in milliseconds, as the store keeps
/// it; an error where the store cannot keep it.
pub fn mtime_ms_from_duration(millis: u128, file: &str) -> (out: Result<i64, String>)
    ensures
        millis <= i64::MAX ==> (out matches Ok(ms) && ms == millis),
        millis > i64::MAX ==> (out matches Err(message) && message@ == "mtime overflows i64 on "@
            + file@),
{
    if millis <= i64::MAX as u128 {
        Ok(millis as i64)
    } else {
        Err(cat2("mtime overflows i64 on ", file))
    }
}

/// The time at which a file was changed, where the clock of the file system
/// may stand before the epoch.
pub fn mtime_ms_of(since_epoch: Option<u128>, file: &str) -> (out: Result<i64, String>)
    ensures
        match since_epoch {
            None => out matches Err(message) && message@ == "pre-epoch mtime on "@ + file@,
            Some(millis) => if millis <= i64::MAX {
                out matches Ok(ms) && ms == millis
            } else {
                out matches Err(message) && message@ == "mtime overflows i64 on "@ + file@
            },
        },
{
    match since_epoch {
        None => Err(cat2("pre-epoch mtime on ", file)),
        Some(millis) => mtime_ms_from_duration(millis, file),
    }
}

/// Whether the content of the file has to be hashed: only where the time of the
/// last change does not tell whether it has changed.
pub fn needs_hash(snapshot: Option<&FileSnapshot>, mtime_ms: i64) -> (out: bool)
    ensures
        out == (snapshot matches Some(snap) && snap.mtime_ms == mtime_ms),
{
    match snapshot {
        Some(snap) => snap.mtime_ms == mtime_ms,
        None => false,
    }
}

/// Whether the file was changed though the time of its last change was not.
pub open spec fn changed_unnoticed(
    snapshot: FileSnapshot,
    mtime_ms: i64,
    content_hash: Option<Seq<char>>,
) -> bool {
    &&& snapshot.mtime_ms == mtime_ms
    &&& content_hash is Some
    &&& snapshot.content_hash@ != content_hash->0
}

/// What the planner is told that the store knows of the file.  A file that was
/// changed though the time of its last change was not is taken for one that the
/// store does not know, so that it is indexed anew.  `content_hash` is needed
/// where `needs_hash` says so.
pub fn known_snapshot(
    snapshot: Option<FileSnapshot>,
    mtime_ms: i64,
    content_hash: Option<&str>,
) -> (out: Option<FileSnapshot>)
    ensures
        match snapshot {
            None => out is None,
            Some(snap) => if changed_unnoticed(
                snap,
                mtime_ms,
                crate::text::opt_str_view(content_hash),
            ) {
                out is None
            } else {
                out == Some(snap)
            },
        },
{
    match snapshot {
        None => None,
        Some(snap) => {
            if snap.mtime_ms == mtime_ms {
                match content_hash {
                    Some(hash) => {
                        if !same(snap.content_hash.as_str(), hash) {
                            return None;
                        }
                    },
                    None => {},
                }
            }
            Some(snap)
        },
    }
}

/// What the planner is told that the store knows of a file whose content is at
/// hand: where the content is not the one that the store knows, though the time
/// of the last change is, the file is taken for one that it does not know.
pub fn known_of_content(
    snapshot: Option<FileSnapshot>,
    mtime_ms: i64,
    content: &[u8],
) -> (out: Option<FileSnapshot>)
    ensures
        match snapshot {
            None => out is None,
            Some(snap) => if snap.mtime_ms == mtime_ms && snap.content_hash@ != hex(
                blake3_digest(content@),
            ) {
                out is None
            } else {
                out == Some(snap)
            },
        },
{
    if needs_hash(snapshot.as_ref(), mtime_ms) {
        let hash = content_hash_of(content);
        known_snapshot(snapshot, mtime_ms, Some(hash.as_str()))
    } else {
        known_snapshot(snapshot, mtime_ms, None)
    }
}

/// What came of indexing one file.
#[derive(Debug, Clone, Copy, PartialEq, Eq, Structural)]
pub struct SingleFileOutcome {
    pub stats: ApplyStats,
    /// Whether the rows that the store has of the file must go.
    pub prune: bool,
}

/// What came of indexing one file: where it had rows and there is nothing left
/// in it to index, the rows go and count as one file deleted.
pub fn finish_single_file(stats: ApplyStats, had_snapshot: bool) -> (out: SingleFileOutcome)
    requires
        stats.files_deleted < usize::MAX,
    ensures
        out == if stats.files_skipped_empty > 0 && had_snapshot {
            SingleFileOutcome {
                stats: ApplyStats { files_deleted: (stats.files_deleted + 1) as usize, ..stats },
                prune: true,
            }
        } else {
            SingleFileOutcome { stats, prune: false }
        },
{
    if stats.files_skipped_empty > 0 && had_snapshot {
        SingleFileOutcome {
            stats: ApplyStats { files_deleted: stats.files_deleted + 1, ..stats },
            prune: true,
        }
    } else {
        SingleFileOutcome { stats, prune: false }
    }
}

/// A file is taken for one that the store does not know exactly where the time
/// of its last change stayed and its content did not.
pub proof fn silent_changes_are_noticed(
    snapshot: FileSnapshot,
    mtime_ms: i64,
    content: Seq<char>,
)
    ensures
        changed_unnoticed(snapshot, mtime_ms, Some(content)) <==> snapshot.mtime_ms == mtime_ms
            && snapshot.content_hash@ != content,
        !changed_unnoticed(snapshot, mtime_ms, None),
{
}

} // verus!
