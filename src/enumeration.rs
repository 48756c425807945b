//! Decisions of the enumeration pipeline: which attached devices to probe, and
//! the probe of one device as a state machine. The caller performs the
//! device I/O and the waits that the machine asks for and reports back.
//!
//! A probe first wakes the device: it reads the brightness and writes the same
//! value back (clamped to 100), or writes a safe default when the read fails. It then lets the
//! bus settle and makes up to five reads, with a growing pause between them.

use vstd::prelude::*;

use crate::manager::{names, names_id};

verus! {

/// Brightness written to wake a device whose first read failed.
pub const WAKE_DEFAULT_BRIGHTNESS: u16 = 50;

/// Pause after the wake-up write, in milliseconds.
pub const SETTLE_DELAY_MS: u64 = 100;

/// Reads attempted after the wake-up before a device counts as non-functional.
pub const MAX_READ_ATTEMPTS: u32 = 5;

/// Where a probe stands.
#[derive(Debug, Clone, Copy, PartialEq, Eq, Structural)]
pub enum ProbeStage {
    /// Not started.
    Start,
    /// The wake-up read is in flight.
    WakeRead,
    /// The wake-up write is in flight.
    WakeWrite,
    /// Waiting for the bus to settle.
    Settling,
    /// Read attempt `n` (counted from 1) is in flight.
    Reading(u32),
    /// Pausing after failed read attempt `n`.
    BackingOff(u32),
    /// Finished.
    Done,
}

/// What the caller reports to a probe.
#[derive(Debug, Clone, Copy, PartialEq, Eq, Structural)]
pub enum ProbeEvent {
    /// Begin the probe.
    Begin,
    /// A brightness read returned this value.
    ReadOk(u16),
    /// A brightness read failed.
    ReadFailed,
    /// The requested write was made (whether or not the device took it).
    Written,
    /// The requested pause is over.
    Slept,
}

/// What a probe asks the caller to do next.
#[derive(Debug, Clone, Copy, PartialEq, Eq, Structural)]
pub enum ProbeAction {
    /// Read the brightness.
    Read,
    /// Write this brightness.
    Write(u16),
    /// Pause for this many milliseconds.
    Sleep(u64),
    /// The device works; this is its brightness.
    Succeeded(u16),
    /// The device did not answer any read attempt (or the probe was misused).
    Failed,
}

/// Pause after failed read attempt `n`: 100, 150, 200, 250 ms.
pub open spec fn backoff_ms(n: u32) -> u64 {
    (50 + 50 * n) as u64
}

/// The probe's transition table.
pub open spec fn spec_probe_step(stage: ProbeStage, event: ProbeEvent) -> (ProbeStage, ProbeAction) {
    match (stage, event) {
        (ProbeStage::Start, ProbeEvent::Begin) => (ProbeStage::WakeRead, ProbeAction::Read),
        (ProbeStage::WakeRead, ProbeEvent::ReadOk(v)) => (
            ProbeStage::WakeWrite,
            ProbeAction::Write(if v > 100 { 100 } else { v }),
        ),
        (ProbeStage::WakeRead, ProbeEvent::ReadFailed) => (
            ProbeStage::WakeWrite,
            ProbeAction::Write(WAKE_DEFAULT_BRIGHTNESS),
        ),
        (ProbeStage::WakeWrite, ProbeEvent::Written) => (
            ProbeStage::Settling,
            ProbeAction::Sleep(SETTLE_DELAY_MS),
        ),
        (ProbeStage::Settling, ProbeEvent::Slept) => (ProbeStage::Reading(1), ProbeAction::Read),
        (ProbeStage::Reading(_), ProbeEvent::ReadOk(v)) => (
            ProbeStage::Done,
            ProbeAction::Succeeded(if v > 100 { 100 } else { v }),
        ),
        (ProbeStage::Reading(n), ProbeEvent::ReadFailed) => if 1 <= n < MAX_READ_ATTEMPTS {
            (ProbeStage::BackingOff(n), ProbeAction::Sleep(backoff_ms(n)))
        } else {
            (ProbeStage::Done, ProbeAction::Failed)
        },
        (ProbeStage::BackingOff(n), ProbeEvent::Slept) => if n < MAX_READ_ATTEMPTS {
            (ProbeStage::Reading((n + 1) as u32), ProbeAction::Read)
        } else {
            (ProbeStage::Done, ProbeAction::Failed)
        },
        _ => (ProbeStage::Done, ProbeAction::Failed),
    }
}

/// Advances a probe by one event.
pub fn probe_step(stage: ProbeStage, event: ProbeEvent) -> (r: (ProbeStage, ProbeAction))
    ensures
        r == spec_probe_step(stage, event),
{
    match (stage, event) {
        (ProbeStage::Start, ProbeEvent::Begin) => (ProbeStage::WakeRead, ProbeAction::Read),
        (ProbeStage::WakeRead, ProbeEvent::ReadOk(v)) => {
            let b: u16 = if v > 100 {
                100
            } else {
                v
            };
            (ProbeStage::WakeWrite, ProbeAction::Write(b))
        },
        (ProbeStage::WakeRead, ProbeEvent::ReadFailed) => (
            ProbeStage::WakeWrite,
            ProbeAction::Write(WAKE_DEFAULT_BRIGHTNESS),
        ),
        (ProbeStage::WakeWrite, ProbeEvent::Written) => (
            ProbeStage::Settling,
            ProbeAction::Sleep(SETTLE_DELAY_MS),
        ),
        (ProbeStage::Settling, ProbeEvent::Slept) => (ProbeStage::Reading(1), ProbeAction::Read),
        (ProbeStage::Reading(_), ProbeEvent::ReadOk(v)) => {
            let b: u16 = if v > 100 {
                100
            } else {
                v
            };
            (ProbeStage::Done, ProbeAction::Succeeded(b))
        },
        (ProbeStage::Reading(n), ProbeEvent::ReadFailed) => {
            if 1 <= n && n < MAX_READ_ATTEMPTS {
                (ProbeStage::BackingOff(n), ProbeAction::Sleep(50 + 50 * (n as u64)))
            } else {
                (ProbeStage::Done, ProbeAction::Failed)
            }
        },
        (ProbeStage::BackingOff(n), ProbeEvent::Slept) => {
            if n < MAX_READ_ATTEMPTS {
                (ProbeStage::Reading(n + 1), ProbeAction::Read)
            } else {
                (ProbeStage::Done, ProbeAction::Failed)
            }
        },
        _ => (ProbeStage::Done, ProbeAction::Failed),
    }
}

/// Whether a probe has finished.
pub fn probe_finished(stage: ProbeStage) -> (r: bool)
    ensures
        r == (stage == ProbeStage::Done),
{
    match stage {
        ProbeStage::Done => true,
        _ => false,
    }
}

/// A probe that only ever sees failed reads and completed writes and pauses
/// fails after exactly five read attempts, and never asks for a sixth.
pub proof fn lemma_probe_gives_up_after_five_reads(n: u32)
    requires
        1 <= n <= MAX_READ_ATTEMPTS,
    ensures
        n < MAX_READ_ATTEMPTS ==> spec_probe_step(
            spec_probe_step(ProbeStage::Reading(n), ProbeEvent::ReadFailed).0,
            ProbeEvent::Slept,
        ) == (ProbeStage::Reading((n + 1) as u32), ProbeAction::Read),
        n == MAX_READ_ATTEMPTS ==> spec_probe_step(ProbeStage::Reading(n), ProbeEvent::ReadFailed)
            == (ProbeStage::Done, ProbeAction::Failed),
{
}

/// A probe only ever writes percentages (at most 100) and reports a
/// brightness of at most 100.
pub proof fn lemma_probe_stays_in_range(stage: ProbeStage, event: ProbeEvent)
    ensures
        spec_probe_step(stage, event).1 matches ProbeAction::Write(v) ==> v <= 100,
        spec_probe_step(stage, event).1 matches ProbeAction::Succeeded(v) ==> v <= 100,
{
}

/// Which of the attached devices to probe: the indices, in order, of those
/// whose identity the skip set does not name.
pub fn plan_probes(attached: &Vec<String>, skip: &Vec<String>) -> (r: Vec<usize>)
    ensures
        forall|j: int| 0 <= j < r@.len() ==> (#[trigger] r@[j]) < attached@.len(),
        forall|j: int, l: int| 0 <= j < l < r@.len() ==> r@[j] < r@[l],
        forall|i: int|
            0 <= i < attached@.len() ==> (r@.contains(i as usize) <==> !names(
                skip@,
                (#[trigger] attached@[i])@,
            )),
{
    let mut r: Vec<usize> = Vec::new();
    let mut i: usize = 0;
    while i < attached.len()
        invariant
            i <= attached@.len(),
            forall|j: int| 0 <= j < r@.len() ==> (#[trigger] r@[j]) < i,
            forall|j: int, l: int| 0 <= j < l < r@.len() ==> r@[j] < r@[l],
            forall|x: int|
                0 <= x < i ==> (r@.contains(x as usize) <==> !names(
                    skip@,
                    (#[trigger] attached@[x])@,
                )),
        decreases attached.len() - i,
    {
        let skipped = names_id(skip, attached[i].as_str());
        let ghost before = r@;
        if !skipped {
            r.push(i);
            proof {
                assert(r@[before.len() as int] == i);
            }
        }
        proof {
            assert forall|x: int| 0 <= x <= i implies (r@.contains(x as usize) <==> !names(
                skip@,
                (#[trigger] attached@[x])@,
            )) by {
                if x < i {
                    if r@.contains(x as usize) {
                        let j = choose|j: int| 0 <= j < r@.len() && r@[j] == x as usize;
                        if j < before.len() {
                            assert(before[j] == x as usize);
                        }
                    }
                    if before.contains(x as usize) {
                        let j = choose|j: int| 0 <= j < before.len() && before[j] == x as usize;
                        assert(r@[j] == x as usize);
                    }
                } else {
                    if r@.contains(x as usize) {
                        let j = choose|j: int| 0 <= j < r@.len() && r@[j] == x as usize;
                        if j < before.len() {
                            assert(before[j] < i);
                        }
                    }
                }
            }
        }
        i = i + 1;
    }
    r
}

} // verus!
