//! Making sure that a daemon of this version runs.

use vstd::prelude::*;

use crate::daemon::ipc::{pong_reports_our_version, reports_version, DaemonResponse, VERSION};
use crate::text::{cat3, cat4, decimal, decimal_text, opt_str_view};
use crate::xdg::is_set;

verus! {

/// How long a daemon may take to come up, in seconds.
pub const SPAWN_TIMEOUT_SECS: u64 = 10;

/// How long to wait before looking again, in milliseconds.
pub const POLL_INTERVAL_MS: u64 = 200;

/// Whether the caller said where the daemon listens, and so looks after it.
pub fn has_explicit_socket_override(env_value: Option<&str>) -> (out: bool)
    ensures
        out == is_set(opt_str_view(env_value)),
{
    match env_value {
        Some(v) => !v.is_empty(),
        None => false,
    }
}

/// Whether the running daemon is of this version, from what it answered to a
/// ping; one that did not answer is not.
pub fn running_daemon_version_matches(answer: Option<&DaemonResponse>) -> (out: bool)
    ensures
        match answer {
            Some(response) => out == reports_version(*response, VERSION@),
            None => !out,
        },
{
    match answer {
        Some(response) => pong_reports_our_version(response),
        None => false,
    }
}

/// What is done next.
#[derive(Debug, Clone, Copy, PartialEq, Eq, Structural)]
pub enum BootstrapStep {
    /// Look whether a daemon listens.
    Connect,
    /// Ask it for its version.
    Probe,
    /// Stop it.
    Stop,
    /// Start one.
    Spawn,
    /// Look at the clock.
    Clock,
    /// Look whether the new one listens.
    Poll,
    /// Wait.
    Sleep,
    /// A daemon runs, or the caller looks after it.
    Finished,
}

/// What came of a step.
#[derive(Debug)]
pub enum BootstrapEvent {
    Connected(bool),
    /// Whether the daemon is of this version.
    Version(bool),
    Stopped(Result<(), String>),
    Spawned(Result<(), String>),
    /// How long ago the daemon was started, in milliseconds.
    Elapsed(u64),
    Slept,
}

/// The message for a daemon that does not come up.
pub open spec fn timeout_message(log_path: Seq<char>) -> Seq<char> {
    "daemon did not start within "@ + decimal(SPAWN_TIMEOUT_SECS as nat) + "s; see "@ + log_path
}

/// The first step.  Nothing is done where the caller said where the daemon
/// listens.
pub fn ensure_daemon_running(socket_env: Option<&str>) -> (out: BootstrapStep)
    ensures
        out == if is_set(opt_str_view(socket_env)) {
            BootstrapStep::Finished
        } else {
            BootstrapStep::Connect
        },
{
    if has_explicit_socket_override(socket_env) {
        BootstrapStep::Finished
    } else {
        BootstrapStep::Connect
    }
}

/// Whether the result is the given step.
pub open spec fn goes_to(out: Result<BootstrapStep, String>, step: BootstrapStep) -> bool {
    out == Ok::<BootstrapStep, String>(step)
}

/// Whether `out` is what follows.  What does not answer the step changes
/// nothing.
pub open spec fn bootstrap_follows(
    step: BootstrapStep,
    event: BootstrapEvent,
    log_path: Seq<char>,
    out: Result<BootstrapStep, String>,
) -> bool {
    match (step, event) {
        (BootstrapStep::Connect, BootstrapEvent::Connected(listens)) => goes_to(
            out,
            if listens {
                BootstrapStep::Probe
            } else {
                BootstrapStep::Spawn
            },
        ),
        (BootstrapStep::Probe, BootstrapEvent::Version(matches)) => goes_to(
            out,
            if matches {
                BootstrapStep::Finished
            } else {
                BootstrapStep::Stop
            },
        ),
        (BootstrapStep::Stop, BootstrapEvent::Stopped(Ok(_))) => goes_to(
            out,
            BootstrapStep::Spawn,
        ),
        (BootstrapStep::Stop, BootstrapEvent::Stopped(Err(detail))) => out matches Err(m) && m@
            == detail@,
        (BootstrapStep::Spawn, BootstrapEvent::Spawned(Ok(_))) => goes_to(
            out,
            BootstrapStep::Clock,
        ),
        (BootstrapStep::Spawn, BootstrapEvent::Spawned(Err(detail))) => out matches Err(m) && m@
            == detail@,
        (BootstrapStep::Clock, BootstrapEvent::Elapsed(ms)) => if ms < SPAWN_TIMEOUT_SECS * 1000 {
            goes_to(out, BootstrapStep::Poll)
        } else {
            out matches Err(m) && m@ == timeout_message(log_path)
        },
        (BootstrapStep::Poll, BootstrapEvent::Connected(listens)) => goes_to(
            out,
            if listens {
                BootstrapStep::Finished
            } else {
                BootstrapStep::Sleep
            },
        ),
        (BootstrapStep::Sleep, BootstrapEvent::Slept) => goes_to(out, BootstrapStep::Clock),
        _ => goes_to(out, step),
    }
}

/// What follows when a step is done.  A daemon of this version is kept; another
/// one is stopped and a new one started, which has so many seconds to come up.
pub fn bootstrap_next(step: BootstrapStep, event: BootstrapEvent, log_path: &str) -> (out: Result<
    BootstrapStep,
    String,
>)
    ensures
        bootstrap_follows(step, event, log_path@, out),
{
    match (step, event) {
        (BootstrapStep::Connect, BootstrapEvent::Connected(listens)) => if listens {
            Ok(BootstrapStep::Probe)
        } else {
            Ok(BootstrapStep::Spawn)
        },
        (BootstrapStep::Probe, BootstrapEvent::Version(same)) => if same {
            Ok(BootstrapStep::Finished)
        } else {
            Ok(BootstrapStep::Stop)
        },
        (BootstrapStep::Stop, BootstrapEvent::Stopped(got)) => match got {
            Ok(_) => Ok(BootstrapStep::Spawn),
            Err(detail) => Err(detail),
        },
        (BootstrapStep::Spawn, BootstrapEvent::Spawned(got)) => match got {
            Ok(_) => Ok(BootstrapStep::Clock),
            Err(detail) => Err(detail),
        },
        (BootstrapStep::Clock, BootstrapEvent::Elapsed(ms)) => if ms < SPAWN_TIMEOUT_SECS * 1000 {
            Ok(BootstrapStep::Poll)
        } else {
            Err(
                cat4(
                    "daemon did not start within ",
                    decimal_text(SPAWN_TIMEOUT_SECS).as_str(),
                    "s; see ",
                    log_path,
                ),
            )
        },
        (BootstrapStep::Poll, BootstrapEvent::Connected(listens)) => if listens {
            Ok(BootstrapStep::Finished)
        } else {
            Ok(BootstrapStep::Sleep)
        },
        (BootstrapStep::Sleep, BootstrapEvent::Slept) => Ok(BootstrapStep::Clock),
        _ => Ok(step),
    }
}

/// A daemon is stopped only where it is of another version, and one is started
/// only where none runs: none listened, or the one that did was stopped.
pub proof fn daemons_are_not_started_twice(
    step: BootstrapStep,
    event: BootstrapEvent,
    log_path: Seq<char>,
    next: BootstrapStep,
)
    requires
        bootstrap_follows(step, event, log_path, Ok(next)),
        next != step,
    ensures
        next is Stop ==> step is Probe && (event matches BootstrapEvent::Version(same) && !same),
        next is Spawn ==> (step is Connect && (event matches BootstrapEvent::Connected(listens)
            && !listens)) || (step is Stop && (event matches BootstrapEvent::Stopped(Ok(_)))),
        step is Finished ==> false,
{
}

/// What is done next to stop a daemon.
#[derive(Debug, Clone, Copy, PartialEq, Eq, Structural)]
pub enum StopStep {
    /// Ask it to stop.
    Ask,
    /// Look at the clock.
    Clock,
    /// Look whether it still listens.
    Poll,
    /// Wait.
    Sleep,
    /// None listens.
    Finished,
}

/// What came of a step.
#[derive(Debug, Clone, Copy, PartialEq, Eq, Structural)]
pub enum StopEvent {
    /// Whether there was a daemon that could be asked.
    Asked(bool),
    /// How long ago it was asked, in milliseconds.
    Elapsed(u64),
    Connected(bool),
    Slept,
}

/// The message for a daemon that does not stop.
pub open spec fn still_there_message() -> Seq<char> {
    "daemon did not stop within "@ + decimal(SPAWN_TIMEOUT_SECS as nat) + "s"@
}

/// What follows; none where the daemon had its time.  What does not answer the
/// step changes nothing.
pub open spec fn stop_after(step: StopStep, event: StopEvent) -> Option<StopStep> {
    match (step, event) {
        (StopStep::Ask, StopEvent::Asked(there)) => if there {
            Some(StopStep::Clock)
        } else {
            Some(StopStep::Finished)
        },
        (StopStep::Clock, StopEvent::Elapsed(ms)) => if ms < SPAWN_TIMEOUT_SECS * 1000 {
            Some(StopStep::Poll)
        } else {
            None
        },
        (StopStep::Poll, StopEvent::Connected(listens)) => if listens {
            Some(StopStep::Sleep)
        } else {
            Some(StopStep::Finished)
        },
        (StopStep::Sleep, StopEvent::Slept) => Some(StopStep::Clock),
        _ => Some(step),
    }
}

/// What follows when a step is done.  A daemon that is asked to stop has so many
/// seconds to do so; where there is none, nothing is left to do.
pub fn stop_next(step: StopStep, event: StopEvent) -> (out: Result<StopStep, String>)
    ensures
        match stop_after(step, event) {
            Some(next) => out == Ok::<StopStep, String>(next),
            None => out matches Err(m) && m@ == still_there_message(),
        },
{
    match (step, event) {
        (StopStep::Ask, StopEvent::Asked(there)) => if there {
            Ok(StopStep::Clock)
        } else {
            Ok(StopStep::Finished)
        },
        (StopStep::Clock, StopEvent::Elapsed(ms)) => if ms < SPAWN_TIMEOUT_SECS * 1000 {
            Ok(StopStep::Poll)
        } else {
            Err(
                cat3("daemon did not stop within ", decimal_text(SPAWN_TIMEOUT_SECS).as_str(), "s"),
            )
        },
        (StopStep::Poll, StopEvent::Connected(listens)) => if listens {
            Ok(StopStep::Sleep)
        } else {
            Ok(StopStep::Finished)
        },
        (StopStep::Sleep, StopEvent::Slept) => Ok(StopStep::Clock),
        _ => Ok(step),
    }
}

/// A daemon counts as stopped only when it was found not to listen: there was
/// none to ask, or it no longer answers.
pub proof fn stopped_daemons_do_not_listen(step: StopStep, event: StopEvent)
    requires
        stop_after(step, event) == Some(StopStep::Finished),
        !(step is Finished),
    ensures
        (step is Ask && event == StopEvent::Asked(false)) || (step is Poll && event
            == StopEvent::Connected(false)),
{
}

/// A daemon of this version that listens is used as it is; another one is
/// stopped, and where none listens one is started.
pub proof fn running_daemons_are_used(
    listens: bool,
    same: bool,
    log_path: Seq<char>,
    found: Result<BootstrapStep, String>,
    asked: Result<BootstrapStep, String>,
)
    requires
        bootstrap_follows(
            BootstrapStep::Connect,
            BootstrapEvent::Connected(listens),
            log_path,
            found,
        ),
        bootstrap_follows(BootstrapStep::Probe, BootstrapEvent::Version(same), log_path, asked),
    ensures
        listens ==> found == Ok::<BootstrapStep, String>(BootstrapStep::Probe),
        !listens ==> found == Ok::<BootstrapStep, String>(BootstrapStep::Spawn),
        same ==> asked == Ok::<BootstrapStep, String>(BootstrapStep::Finished),
        !same ==> asked == Ok::<BootstrapStep, String>(BootstrapStep::Stop),
{
}

/// A daemon that was started is waited for until it listens, and for ten seconds
/// at most.
pub proof fn new_daemons_are_waited_for(
    ms: u64,
    listens: bool,
    log_path: Seq<char>,
    clock: Result<BootstrapStep, String>,
    poll: Result<BootstrapStep, String>,
    slept: Result<BootstrapStep, String>,
)
    requires
        bootstrap_follows(BootstrapStep::Clock, BootstrapEvent::Elapsed(ms), log_path, clock),
        bootstrap_follows(BootstrapStep::Poll, BootstrapEvent::Connected(listens), log_path, poll),
        bootstrap_follows(BootstrapStep::Sleep, BootstrapEvent::Slept, log_path, slept),
    ensures
        ms < 10_000 ==> clock == Ok::<BootstrapStep, String>(BootstrapStep::Poll),
        ms >= 10_000 ==> (clock matches Err(message) && message@ == "daemon did not start within "@
            + decimal(10) + "s; see "@ + log_path),
        listens ==> poll == Ok::<BootstrapStep, String>(BootstrapStep::Finished),
        !listens ==> poll == Ok::<BootstrapStep, String>(BootstrapStep::Sleep),
        slept == Ok::<BootstrapStep, String>(BootstrapStep::Clock),
{
}

/// A daemon that is asked to stop is waited for until it no longer listens, and
/// for ten seconds at most.
pub proof fn stopping_daemons_are_waited_for(ms: u64, there: bool, listens: bool)
    ensures
        stop_after(StopStep::Ask, StopEvent::Asked(there)) == Some(
            if there {
                StopStep::Clock
            } else {
                StopStep::Finished
            },
        ),
        ms < 10_000 ==> stop_after(StopStep::Clock, StopEvent::Elapsed(ms)) == Some(StopStep::Poll),
        ms >= 10_000 ==> stop_after(StopStep::Clock, StopEvent::Elapsed(ms)) is None,
        stop_after(StopStep::Poll, StopEvent::Connected(listens)) == Some(
            if listens {
                StopStep::Sleep
            } else {
                StopStep::Finished
            },
        ),
        stop_after(StopStep::Sleep, StopEvent::Slept) == Some(StopStep::Clock),
{
}

} // verus!
