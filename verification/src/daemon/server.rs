//! The daemon's side of the connection.

use vstd::prelude::*;

use crate::daemon::client::unframe;
use crate::daemon::ipc::{is_error, DaemonResponse, ErrorKind};
use crate::path::{parent, parent_of};
use crate::text::{cat2, cat5, opt_view, trim_back};

verus! {

/// How long a client may take to send its request, in seconds.
pub const IDLE_READ_TIMEOUT_SECS: u64 = 30;

/// How the daemon was started.
#[derive(Debug, Default, Clone)]
pub struct DaemonArgs {
    pub config: Option<String>,
}

/// Whether a daemon runs.
#[derive(Debug, Clone, Copy, PartialEq, Eq, Structural)]
pub enum DaemonStatus {
    Running,
    NotRunning,
}

/// What happens while the daemon waits for clients.
#[derive(Debug, Clone, Copy, PartialEq, Eq, Structural)]
pub enum AcceptEvent {
    /// It has been asked to stop.
    Shutdown,
    /// A client has connected.
    Accepted,
    /// A client failed to connect.
    Failed,
}

/// What the daemon does about it.
#[derive(Debug, Clone, Copy, PartialEq, Eq, Structural)]
pub enum AcceptStep {
    /// It takes no more clients; those that it has are served to the end.
    Stop,
    /// It serves the client, and waits for the next.
    Serve,
    /// It waits for the next.
    Continue,
}

/// What the daemon does while it waits for clients.
pub fn accept_next(event: AcceptEvent) -> (out: AcceptStep)
    ensures
        event is Shutdown <==> out is Stop,
        event is Accepted <==> out is Serve,
        event is Failed <==> out is Continue,
{
    match event {
        AcceptEvent::Shutdown => AcceptStep::Stop,
        AcceptEvent::Accepted => AcceptStep::Serve,
        AcceptEvent::Failed => AcceptStep::Continue,
    }
}

/// What came of waiting for a request.
#[derive(Debug)]
pub enum LineRead {
    /// The client took too long.
    TimedOut,
    /// The client has gone.
    Closed,
    /// It sent this line.
    Line(String),
}

/// The request that a client sent, as it is to be decoded; none where the
/// connection is closed without an answer.
pub fn request_body(read: &LineRead) -> (out: Option<String>)
    ensures
        match *read {
            LineRead::Line(line) => opt_view(out) == Some(trim_back(line@)),
            _ => out is None,
        },
{
    match read {
        LineRead::TimedOut => None,
        LineRead::Closed => None,
        LineRead::Line(line) => Some(unframe(line.as_str())),
    }
}

/// The answer to a request that cannot be decoded.
pub fn undecodable(detail: &str) -> (out: DaemonResponse)
    ensures
        is_error(out, ErrorKind::InvalidParams, "invalid request: "@ + detail@),
{
    DaemonResponse::invalid_params(cat2("invalid request: ", detail).as_str())
}

/// The directory that has to be made, and kept to its owner, before the socket
/// is; none where the socket is in the directory of the process.
pub fn socket_dir(socket_path: &str) -> (out: Option<String>)
    ensures
        match parent(socket_path@) {
            Some(dir) => if dir.len() > 0 {
                opt_view(out) == Some(dir)
            } else {
                out is None
            },
            None => out is None,
        },
{
    match parent_of(socket_path) {
        Some(dir) => if dir.as_str().is_empty() {
            None
        } else {
            Some(dir)
        },
        None => None,
    }
}

/// What a daemon does from its start to its end.
#[derive(Debug, Clone, Copy, PartialEq, Eq, Structural)]
pub enum ServeStep {
    /// Make the directory of the socket.
    PrepareDir,
    /// Take the lock of the socket.
    Lock,
    /// Open the store.
    Open,
    /// Remove the socket that a daemon before left behind.
    RemoveStale,
    /// Serve clients until it is asked to stop.
    Serve,
    /// Remove the socket.
    RemoveSocket,
    /// Give the lock back.
    Unlock,
    /// Nothing more.
    Finished,
}

/// Whether the daemon holds the lock of its socket while it does this.
pub open spec fn under_lock(step: ServeStep) -> bool {
    step is Open || step is RemoveStale || step is Serve || step is RemoveSocket || step is Unlock
}

/// Whether the daemon may use the store while it does this.
pub open spec fn uses_store(step: ServeStep) -> bool {
    step is Open || step is Serve
}

/// The step that follows; `done` says whether this one succeeded.  A daemon
/// that does not come up gives the lock back and leaves the socket alone; one
/// that has served removes its socket first.
pub open spec fn serve_after(step: ServeStep, done: bool) -> ServeStep {
    match step {
        ServeStep::PrepareDir => if done {
            ServeStep::Lock
        } else {
            ServeStep::Finished
        },
        ServeStep::Lock => if done {
            ServeStep::Open
        } else {
            ServeStep::Finished
        },
        ServeStep::Open => if done {
            ServeStep::RemoveStale
        } else {
            ServeStep::Unlock
        },
        ServeStep::RemoveStale => ServeStep::Serve,
        ServeStep::Serve => ServeStep::RemoveSocket,
        ServeStep::RemoveSocket => ServeStep::Unlock,
        ServeStep::Unlock => ServeStep::Finished,
        ServeStep::Finished => ServeStep::Finished,
    }
}

/// The step that follows; `done` says whether this one succeeded.
pub fn serve_next(step: ServeStep, done: bool) -> (out: ServeStep)
    ensures
        out == serve_after(step, done),
{
    match step {
        ServeStep::PrepareDir => if done {
            ServeStep::Lock
        } else {
            ServeStep::Finished
        },
        ServeStep::Lock => if done {
            ServeStep::Open
        } else {
            ServeStep::Finished
        },
        ServeStep::Open => if done {
            ServeStep::RemoveStale
        } else {
            ServeStep::Unlock
        },
        ServeStep::RemoveStale => ServeStep::Serve,
        ServeStep::Serve => ServeStep::RemoveSocket,
        ServeStep::RemoveSocket => ServeStep::Unlock,
        ServeStep::Unlock => ServeStep::Finished,
        ServeStep::Finished => ServeStep::Finished,
    }
}

/// The store is used only under the lock, which is taken before and given back
/// after: whoever gets past the lock has it, a daemon that does not get it
/// touches nothing, and the socket is gone before another daemon can have the
/// lock.
pub proof fn store_is_used_under_lock(step: ServeStep, done: bool)
    ensures
        uses_store(step) ==> under_lock(step),
        under_lock(serve_after(step, done)) && !under_lock(step) ==> step is Lock && done,
        under_lock(step) && !under_lock(serve_after(step, done)) ==> step is Unlock,
        step is Lock && !done ==> serve_after(step, done) is Finished,
        serve_after(step, done) is Unlock ==> step is RemoveSocket || (step is Open && !done),
{
}

/// The message where another daemon holds the lock of the socket.
pub fn already_running(lock_path: &str, detail: &str) -> (out: String)
    ensures
        out@ == "another hallouminate daemon already holds "@ + lock_path@ + " ("@ + detail@ + ")"@,
{
    cat5("another hallouminate daemon already holds ", lock_path, " (", detail, ")")
}

/// A daemon that comes up takes the lock, opens its store, clears the socket away
/// that was left behind, serves, removes its own socket and gives the lock back,
/// in this order.
pub proof fn daemons_serve_from_lock_to_unlock()
    ensures
        ({
            let locked = serve_after(ServeStep::PrepareDir, true);
            let opened = serve_after(locked, true);
            let cleared = serve_after(opened, true);
            let served = serve_after(cleared, true);
            &&& locked is Lock
            &&& opened is Open
            &&& cleared is RemoveStale
            &&& served is Serve
            &&& forall|done: bool| #[trigger] serve_after(served, done) is RemoveSocket
        }),
        forall|done: bool| #[trigger] serve_after(ServeStep::RemoveSocket, done) is Unlock,
        forall|done: bool| #[trigger] serve_after(ServeStep::Unlock, done) is Finished,
        serve_after(ServeStep::PrepareDir, false) is Finished,
        serve_after(ServeStep::Open, false) is Unlock,
{
}

} // verus!
