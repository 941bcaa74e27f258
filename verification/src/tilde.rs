//! The home directory in paths.

use vstd::prelude::*;

verus! {

/// What becomes of a path when the leading `~` stands for the home directory:
/// a path that does not start with `~` alone stays as it is, another one has
/// some home directory in its place, or stays where there is none.
pub open spec fn expands_to(raw: Seq<char>, out: Seq<char>) -> bool {
    if names_home(raw) {
        out == raw || exists|home: Seq<char>| out == #[trigger] home_joined(home, raw)
    } else {
        out == raw
    }
}

/// Whether the path starts with a `~` that stands for the home directory.
pub open spec fn names_home(raw: Seq<char>) -> bool {
    &&& raw.len() > 0
    &&& raw[0] == '~'
    &&& raw.len() == 1 || raw[1] == '/' || raw[1] == '\\'
}

/// The path with `home` in place of its first character.
pub open spec fn home_joined(home: Seq<char>, raw: Seq<char>) -> Seq<char> {
    home + raw.skip(1)
}

/// `shellexpand::tilde`: puts the user's home directory in the place of a
/// leading `~`.  A path that does not start with `~`, or where something other
/// than a separator follows it, comes back unchanged; so does every path where
/// no home directory is known.  Which directory is put in is up to the
/// environment, so the contract only says that there is one.
#[verifier::external_body]
pub fn expand_tilde(path: &str) -> (out: String)
    ensures
        expands_to(path@, out@),
{
    shellexpand::tilde(path).into_owned()
}

} // verus!
