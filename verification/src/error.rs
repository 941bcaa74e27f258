//! What can go wrong.

use vstd::prelude::*;

use crate::text::{cat3, decimal, decimal_text};
use vstd::string::StringExecFns;

verus! {

/// A failure of the library or of what it stands on.
#[derive(Debug, PartialEq, Eq)]
pub enum HallouminateError {
    /// The configuration cannot be used.
    Config(String),
    /// The embedding model or the reranker cannot be used.
    Embed(String),
    /// The rows of the index are not as they should be.
    Indexer(String),
    /// The store reported a failure.
    Db(String),
    /// The file system reported a failure.
    Io(String),
    /// The store was written with an older layout.
    StoreSchemaStale { found: u32, expected: u32, ground_dir: String },
}

/// The message of a store that was written with an older layout.
pub open spec fn stale_message(found: u32, expected: u32, ground_dir: Seq<char>) -> Seq<char> {
    "stale store schema: found version "@ + decimal(found as nat) + ", expected "@ + decimal(
        expected as nat,
    ) + " at "@ + ground_dir
}

impl HallouminateError {
    /// The message that the error is shown with.
    pub open spec fn shown(&self) -> Seq<char> {
        match self {
            HallouminateError::Config(m) => m@,
            HallouminateError::Embed(m) => m@,
            HallouminateError::Indexer(m) => m@,
            HallouminateError::Db(m) => m@,
            HallouminateError::Io(m) => m@,
            HallouminateError::StoreSchemaStale { found, expected, ground_dir } => stale_message(
                *found,
                *expected,
                ground_dir@,
            ),
        }
    }

    /// The message that the error is shown with.
    pub fn message(&self) -> (out: String)
        ensures
            out@ == self.shown(),
    {
        match self {
            HallouminateError::Config(m) => m.clone(),
            HallouminateError::Embed(m) => m.clone(),
            HallouminateError::Indexer(m) => m.clone(),
            HallouminateError::Db(m) => m.clone(),
            HallouminateError::Io(m) => m.clone(),
            HallouminateError::StoreSchemaStale { found, expected, ground_dir } => {
                let have = decimal_text(*found as u64);
                let want = decimal_text(*expected as u64);
                let mut out = cat3(
                    "stale store schema: found version ",
                    have.as_str(),
                    ", expected ",
                );
                out.append(want.as_str());
                out.append(" at ");
                out.append(ground_dir.as_str());
                out
            },
        }
    }
}

/// A result of the library.
pub type Outcome<T> = Result<T, HallouminateError>;

/// Whether the result is the configuration error with the given message.
pub open spec fn is_config_error<T>(out: Outcome<T>, message: Seq<char>) -> bool {
    out matches Err(HallouminateError::Config(m)) && m@ == message
}

/// An error is shown with its message, whatever went wrong; that a store is of an
/// older layout is said with both layouts and the place of the store.
pub proof fn errors_are_shown_with_their_message(
    m: String,
    found: u32,
    expected: u32,
    ground_dir: String,
)
    ensures
        HallouminateError::Config(m).shown() == m@,
        HallouminateError::Embed(m).shown() == m@,
        HallouminateError::Indexer(m).shown() == m@,
        HallouminateError::Db(m).shown() == m@,
        HallouminateError::Io(m).shown() == m@,
        (HallouminateError::StoreSchemaStale { found, expected, ground_dir }).shown()
            == "stale store schema: found version "@ + decimal(found as nat) + ", expected "@
            + decimal(expected as nat) + " at "@ + ground_dir@,
{
}

} // verus!
