//! Decisions of the hotplug detector.
//!
//! One instance per session holds an advisory lock and watches the device
//! subsystem; the others poll the lock file's modification time and react
//! when the active watcher touched it recently. The active watcher coalesces
//! bursts of events, keeps re-enumerations at least 1.5 s apart and lets the
//! hardware settle before it signals.

use vstd::prelude::*;

verus! {

/// Least time between two re-enumeration triggers, in milliseconds.
pub const RATE_LIMIT_MS: u64 = 1500;

/// Pause for the hardware to settle before triggering, in milliseconds.
pub const STABILIZE_MS: u64 = 1000;

/// How often a passive instance looks at the lock file, in milliseconds.
pub const PASSIVE_POLL_MS: u64 = 2000;

/// A lock file touched less than this long ago means a hotplug happened.
pub const PASSIVE_RECENT_MS: u64 = 10000;

/// Pause of a passive instance after it signalled, in milliseconds.
pub const PASSIVE_COOLDOWN_MS: u64 = 10000;

/// Outcome of trying to take the watcher's lock without blocking.
#[derive(Debug, Clone, Copy, PartialEq, Eq, Structural)]
pub enum LockOutcome {
    /// The lock is ours.
    Acquired,
    /// Another instance holds it.
    HeldElsewhere,
    /// Taking it failed for another reason.
    Failed,
}

/// What an instance does about hotplug.
#[derive(Debug, Clone, Copy, PartialEq, Eq, Structural)]
pub enum HotplugRole {
    /// Watch the device subsystem and touch the lock file on each trigger.
    Active,
    /// Poll the lock file's modification time.
    Passive,
    /// Do nothing.
    Idle,
}

/// Kind of a device-subsystem event.
#[derive(Debug, Clone, Copy, PartialEq, Eq, Structural)]
pub enum DeviceEventKind {
    Add,
    Remove,
    Change,
    Bind,
    Unbind,
    Other,
}

/// The role that follows from the lock outcome.
pub fn role_for_lock(outcome: LockOutcome) -> (r: HotplugRole)
    ensures
        outcome == LockOutcome::Acquired ==> r == HotplugRole::Active,
        outcome == LockOutcome::HeldElsewhere ==> r == HotplugRole::Passive,
        outcome == LockOutcome::Failed ==> r == HotplugRole::Idle,
{
    match outcome {
        LockOutcome::Acquired => HotplugRole::Active,
        LockOutcome::HeldElsewhere => HotplugRole::Passive,
        LockOutcome::Failed => HotplugRole::Idle,
    }
}

/// Whether a device event may mean a display came or went.
pub fn is_display_event(kind: DeviceEventKind) -> (r: bool)
    ensures
        r == (kind == DeviceEventKind::Add || kind == DeviceEventKind::Remove || kind
            == DeviceEventKind::Change),
{
    match kind {
        DeviceEventKind::Add | DeviceEventKind::Remove | DeviceEventKind::Change => true,
        _ => false,
    }
}

/// What a passive instance does after one look at the lock file.
#[derive(Debug, Clone, Copy, PartialEq, Eq, Structural)]
pub enum PassiveStep {
    /// Signal a hotplug, then pause this many milliseconds.
    Notify(u64),
    /// Look again after this many milliseconds.
    Poll(u64),
}

/// Decides on the age of the lock file's last modification (`None` when it
/// could not be read).
pub fn passive_step(modified_age_ms: Option<u64>) -> (r: PassiveStep)
    ensures
        r == match modified_age_ms {
            Some(age) => if age < PASSIVE_RECENT_MS {
                PassiveStep::Notify(PASSIVE_COOLDOWN_MS)
            } else {
                PassiveStep::Poll(PASSIVE_POLL_MS)
            },
            None => PassiveStep::Poll(PASSIVE_POLL_MS),
        },
{
    match modified_age_ms {
        Some(age) => {
            if age < PASSIVE_RECENT_MS {
                PassiveStep::Notify(PASSIVE_COOLDOWN_MS)
            } else {
                PassiveStep::Poll(PASSIVE_POLL_MS)
            }
        },
        None => PassiveStep::Poll(PASSIVE_POLL_MS),
    }
}

/// Extra wait that keeps triggers `RATE_LIMIT_MS` apart, given the time since
/// the last one.
pub open spec fn spec_rate_limit_wait(elapsed_ms: u64) -> u64 {
    if elapsed_ms < RATE_LIMIT_MS {
        (RATE_LIMIT_MS - elapsed_ms) as u64
    } else {
        0
    }
}

/// Rate limiter of the active watcher. Times are milliseconds on one
/// monotonic clock.
pub struct HotplugDebouncer {
    last_trigger_ms: u64,
}

impl HotplugDebouncer {
    pub closed spec fn spec_last_trigger(&self) -> u64 {
        self.last_trigger_ms
    }

    /// A debouncer started at `now_ms` (which counts as the last trigger).
    pub fn new(now_ms: u64) -> (r: Self)
        ensures
            r.spec_last_trigger() == now_ms,
    {
        HotplugDebouncer { last_trigger_ms: now_ms }
    }

    /// How long to wait, after a burst of events seen at `now_ms` has been
    /// drained, before triggering: the rest of the rate-limit window, then
    /// the settle pause.
    pub fn wait_before_trigger(&self, now_ms: u64) -> (r: u64)
        ensures
            now_ms >= self.spec_last_trigger() ==> r == spec_rate_limit_wait(
                (now_ms - self.spec_last_trigger()) as u64,
            ) + STABILIZE_MS,
            now_ms < self.spec_last_trigger() ==> r == RATE_LIMIT_MS + STABILIZE_MS,
            now_ms >= self.spec_last_trigger() ==> now_ms + r >= self.spec_last_trigger()
                + RATE_LIMIT_MS + STABILIZE_MS,
    {
        let elapsed: u64 = if now_ms >= self.last_trigger_ms {
            now_ms - self.last_trigger_ms
        } else {
            0
        };
        let extra: u64 = if elapsed < RATE_LIMIT_MS {
            RATE_LIMIT_MS - elapsed
        } else {
            0
        };
        extra + STABILIZE_MS
    }

    /// Records a trigger made at `now_ms`.
    pub fn record_trigger(&mut self, now_ms: u64)
        ensures
            final(self).spec_last_trigger() == now_ms,
    {
        self.last_trigger_ms = now_ms;
    }
}

} // verus!
