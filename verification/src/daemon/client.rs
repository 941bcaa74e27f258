//! The client's side of the connection.

use vstd::prelude::*;

use crate::daemon::ipc::{DaemonResponse, ErrorKind};
use crate::text::{cat2, cat3, chars_of, is_space, is_space_char, owned, text_between, trim_back};

verus! {

/// A client: it remembers where the daemon listens.
#[derive(Debug, Clone)]
pub struct DaemonClient {
    pub socket: String,
}

impl DaemonClient {
    /// A client of the daemon that listens there.
    pub fn at(socket: &str) -> (out: DaemonClient)
        ensures
            out.socket@ == socket@,
    {
        DaemonClient { socket: owned(socket) }
    }

    /// Where the daemon listens.
    pub fn socket_path(&self) -> (out: &str)
        ensures
            out@ == self.socket@,
    {
        self.socket.as_str()
    }
}

/// The message where no daemon can be reached.
pub open spec fn unavailable_message(reason: Seq<char>) -> Seq<char> {
    "daemon unavailable: "@ + reason + " (start it with `hallouminate daemon`)"@
}

/// The reason given where the platform has no daemon.
pub const UNSUPPORTED_REASON: &'static str =
    "the local daemon is unsupported on this platform (the Windows named-pipes transport is tracked in #48 stage 2)";

/// The message where no daemon can be reached, for the given reason.
pub fn daemon_client_unavailable(reason: &str) -> (out: String)
    ensures
        out@ == unavailable_message(reason@),
{
    cat3("daemon unavailable: ", reason, " (start it with `hallouminate daemon`)")
}

/// The message where the daemon at `socket` does not answer.
pub fn cannot_connect(socket: &str) -> (out: String)
    ensures
        out@ == unavailable_message("cannot connect to "@ + socket@),
{
    daemon_client_unavailable(cat2("cannot connect to ", socket).as_str())
}

/// The message where the platform has no daemon.
pub fn daemon_unsupported() -> (out: String)
    ensures
        out@ == unavailable_message(UNSUPPORTED_REASON@),
{
    daemon_client_unavailable(UNSUPPORTED_REASON)
}

/// An error that the daemon answered with.
#[derive(Debug)]
pub struct DaemonRpcError {
    pub kind: ErrorKind,
    pub message: String,
}

impl DaemonRpcError {
    /// The error of a caller.
    pub fn invalid_params(msg: &str) -> (out: DaemonRpcError)
        ensures
            out.kind == ErrorKind::InvalidParams,
            out.message@ == msg@,
    {
        DaemonRpcError { kind: ErrorKind::InvalidParams, message: owned(msg) }
    }

    /// The failure of the daemon.
    pub fn internal(msg: &str) -> (out: DaemonRpcError)
        ensures
            out.kind == ErrorKind::Internal,
            out.message@ == msg@,
    {
        DaemonRpcError { kind: ErrorKind::Internal, message: owned(msg) }
    }

    /// The message that the error is shown with.
    pub fn text(&self) -> (out: String)
        ensures
            out@ == self.message@,
    {
        self.message.clone()
    }
}

/// The result that an answer carries, or its error with kind and message kept.
pub fn result_of(response: DaemonResponse) -> (out: Result<serde_json::Value, DaemonRpcError>)
    ensures
        match response {
            DaemonResponse::Success { result } => out matches Ok(value) && value == result,
            DaemonResponse::Failure { kind, message } => out matches Err(e) && e.kind == kind
                && e.message@ == message@,
        },
{
    match response {
        DaemonResponse::Success { result } => Ok(result),
        DaemonResponse::Failure { kind, message } => match kind {
            ErrorKind::InvalidParams => Err(DaemonRpcError::invalid_params(message.as_str())),
            ErrorKind::Internal => Err(DaemonRpcError::internal(message.as_str())),
        },
    }
}

/// A message on the wire: one line.
pub fn frame(body: &str) -> (out: String)
    ensures
        out@ == body@.push('\n'),
{
    let mut out = owned(body);
    out.push('\n');
    out
}

/// The message that a line carries.
pub fn unframe(line: &str) -> (out: String)
    ensures
        out@ == trim_back(line@),
{
    let text = chars_of(line);
    let mut to: usize = text.len();
    proof {
        assert(text@.take(to as int) =~= line@);
    }
    while to > 0 && is_space_char(text[to - 1])
        invariant
            to <= text.len(),
            text@ == line@,
            trim_back(text@.take(to as int)) == trim_back(line@),
        decreases to,
    {
        proof {
            assert(text@.take(to as int).drop_last() =~= text@.take(to - 1));
            assert(text@.take(to as int).last() == text@[to - 1]);
        }
        to = to - 1;
    }
    proof {
        assert(text@.take(to as int) =~= text@.subrange(0, to as int));
        assert(to > 0 ==> text@.take(to as int).last() == text@[to - 1]);
    }
    text_between(&text, 0, to)
}

/// A message that does not end in white space is read as it was written.
pub proof fn framing_is_undone(body: Seq<char>)
    requires
        body.len() == 0 || !is_space(body.last()),
    ensures
        trim_back(body.push('\n')) == body,
{
    assert(body.push('\n').drop_last() =~= body);
    assert(trim_back(body) == body);
}

/// Where no daemon can be reached, the reason is said, and how to start one.
pub proof fn unreachable_daemons_are_told_of(reason: Seq<char>)
    ensures
        unavailable_message(reason) == "daemon unavailable: "@ + reason
            + " (start it with `hallouminate daemon`)"@,
{
}

} // verus!
