//! When the daemon exits because nobody uses it.

use vstd::prelude::*;

verus! {

/// How busy the daemon is.
#[derive(Debug, Clone, Copy, PartialEq, Eq, Structural)]
pub struct Activity {
    /// When something was last done, in seconds.
    pub last_activity_secs: u64,
    /// How many connections are being served.
    pub active_connections: usize,
}

/// A connection that is being served.
#[derive(Debug)]
pub struct ConnectionGuard {
    /// How many connections were being served when this one was opened.
    pub before: usize,
}

/// The seconds from `since` to `now`; none where the clock went back.
pub open spec fn elapsed(since: u64, now: u64) -> nat {
    if now > since {
        (now - since) as nat
    } else {
        0
    }
}

/// The seconds that are left until the daemon counts as idle.
pub open spec fn left_until_idle(activity: Activity, idle_secs: u64, now: u64) -> nat {
    let gone = elapsed(activity.last_activity_secs, now);
    if gone >= idle_secs {
        0
    } else {
        (idle_secs - gone) as nat
    }
}

/// Whether the daemon exits: idle exit is on, no connection is open, and
/// nothing was done for long enough.
pub open spec fn exits(activity: Activity, idle_secs: u64, now: u64) -> bool {
    &&& idle_secs > 0
    &&& activity.active_connections == 0
    &&& elapsed(activity.last_activity_secs, now) >= idle_secs
}

/// Whether nothing was done for `idle_secs` seconds.
pub fn is_idle(last_use_secs: u64, now_secs: u64, idle_secs: u64) -> (out: bool)
    ensures
        out == (elapsed(last_use_secs, now_secs) >= idle_secs),
{
    let gone: u64 = if now_secs > last_use_secs {
        now_secs - last_use_secs
    } else {
        0
    };
    gone >= idle_secs
}

impl Activity {
    /// A daemon that was started at `now`.
    pub fn started(now: u64) -> (out: Activity)
        ensures
            out == (Activity { last_activity_secs: now, active_connections: 0 }),
    {
        Activity { last_activity_secs: now, active_connections: 0 }
    }

    /// Something was done at `now`.
    pub fn touch_activity(&mut self, now: u64)
        ensures
            *final(self) == (Activity { last_activity_secs: now, ..*old(self) }),
    {
        self.last_activity_secs = now;
    }

    /// A connection was opened.
    pub fn enter_connection(&mut self) -> (out: ConnectionGuard)
        requires
            old(self).active_connections < usize::MAX,
        ensures
            *final(self) == (Activity {
                active_connections: (old(self).active_connections + 1) as usize,
                ..*old(self)
            }),
            out.before == old(self).active_connections,
    {
        let before: usize = self.active_connections;
        self.active_connections = before + 1;
        ConnectionGuard { before }
    }

    /// A connection was closed.
    pub fn leave_connection(&mut self, guard: ConnectionGuard)
        requires
            old(self).active_connections > 0,
        ensures
            *final(self) == (Activity {
                active_connections: (old(self).active_connections - 1) as usize,
                ..*old(self)
            }),
    {
        self.active_connections = self.active_connections - 1;
    }

    /// Whether the daemon exits at `now_secs`.  Zero seconds switch this off.
    pub fn should_idle_exit_at(&self, idle_secs: u64, now_secs: u64) -> (out: bool)
        ensures
            out == exits(*self, idle_secs, now_secs),
    {
        if idle_secs == 0 {
            return false;
        }
        if self.active_connections != 0 {
            return false;
        }
        is_idle(self.last_activity_secs, now_secs, idle_secs)
    }

    /// The seconds that are left at `now_secs` until the daemon counts as idle.
    pub fn secs_until_idle_at(&self, idle_exit_secs: u64, now_secs: u64) -> (out: u64)
        ensures
            out == left_until_idle(*self, idle_exit_secs, now_secs),
    {
        let gone: u64 = if now_secs > self.last_activity_secs {
            now_secs - self.last_activity_secs
        } else {
            0
        };
        if gone >= idle_exit_secs {
            0
        } else {
            idle_exit_secs - gone
        }
    }
}

/// What the watcher of the daemon does next.
#[derive(Debug, Clone, Copy, PartialEq, Eq, Structural)]
pub enum IdleStep {
    /// It ends: idle exit is off.
    Off,
    /// It looks again after so many seconds.
    Sleep(u64),
    /// It stops the daemon.
    Exit,
}

/// How long the watcher sleeps: until the daemon may be idle, and at least a
/// second, so that it does not spin while a connection is open.
pub open spec fn sleep_secs(activity: Activity, idle_secs: u64, now: u64) -> u64 {
    let left = left_until_idle(activity, idle_secs, now);
    if left < 1 {
        1
    } else {
        left as u64
    }
}

/// What the watcher does when it starts.
pub fn idle_watch_start(activity: &Activity, idle_exit_secs: u64, now_secs: u64) -> (out: IdleStep)
    ensures
        out == if idle_exit_secs == 0 {
            IdleStep::Off
        } else {
            IdleStep::Sleep(sleep_secs(*activity, idle_exit_secs, now_secs))
        },
{
    if idle_exit_secs == 0 {
        return IdleStep::Off;
    }
    let left: u64 = activity.secs_until_idle_at(idle_exit_secs, now_secs);
    IdleStep::Sleep(
        if left < 1 {
            1
        } else {
            left
        },
    )
}

/// What the watcher does when it has slept.
pub fn idle_watch_next(activity: &Activity, idle_exit_secs: u64, now_secs: u64) -> (out: IdleStep)
    ensures
        out == if exits(*activity, idle_exit_secs, now_secs) {
            IdleStep::Exit
        } else if idle_exit_secs == 0 {
            IdleStep::Off
        } else {
            IdleStep::Sleep(sleep_secs(*activity, idle_exit_secs, now_secs))
        },
{
    if activity.should_idle_exit_at(idle_exit_secs, now_secs) {
        return IdleStep::Exit;
    }
    idle_watch_start(activity, idle_exit_secs, now_secs)
}

/// The daemon exits exactly when idle exit is on, no connection is open, and no
/// seconds are left.
pub proof fn exit_is_when_nothing_is_left(activity: Activity, idle_secs: u64, now: u64)
    ensures
        exits(activity, idle_secs, now) <==> (idle_secs > 0 && activity.active_connections == 0
            && left_until_idle(activity, idle_secs, now) == 0),
{
}

/// Once the daemon may exit it may exit at every later time, unless something
/// is done.
pub proof fn idleness_lasts(activity: Activity, idle_secs: u64, now: u64, later: u64)
    requires
        now <= later,
        exits(activity, idle_secs, now),
    ensures
        exits(activity, idle_secs, later),
{
}

/// After something is done the daemon stays for the whole time again.
pub proof fn activity_resets_the_clock(activity: Activity, idle_secs: u64, now: u64, later: u64)
    requires
        now <= later < now + idle_secs,
    ensures
        !exits(Activity { last_activity_secs: now, ..activity }, idle_secs, later),
        left_until_idle(Activity { last_activity_secs: now, ..activity }, idle_secs, now)
            == idle_secs,
{
}

/// A daemon that nobody uses while the watcher sleeps exits when it wakes.
pub proof fn watcher_wakes_in_time(activity: Activity, idle_secs: u64, now: u64)
    requires
        idle_secs > 0,
        activity.active_connections == 0,
        now + sleep_secs(activity, idle_secs, now) <= u64::MAX,
        activity.last_activity_secs <= now,
    ensures
        exits(activity, idle_secs, (now + sleep_secs(activity, idle_secs, now)) as u64),
{
}

/// The daemon exits when as many seconds have passed since something was done as
/// it was told, with no connection open; it never does where it was told none.
pub proof fn daemons_exit_when_their_time_is_up(activity: Activity, idle_secs: u64, now: u64)
    ensures
        exits(activity, idle_secs, now) <==> {
            &&& idle_secs > 0
            &&& activity.active_connections == 0
            &&& now >= activity.last_activity_secs + idle_secs
        },
        activity.last_activity_secs <= now ==> left_until_idle(activity, idle_secs, now) == (
        if activity.last_activity_secs + idle_secs <= now {
            0
        } else {
            activity.last_activity_secs + idle_secs - now
        }),
{
}

} // verus!
