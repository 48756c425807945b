//! The control state machine.
//!
//! It has three phases. In `Fetching` the caller runs the enumeration
//! pipeline and hands the outcome to [`Controller::finish_fetch`], which merges
//! it into the registry and decides between a retry (`Waiting`) and `Ready`.
//! In `Ready` each command becomes a list of device operations, or a return
//! to `Fetching`. The caller performs the operations and the waits.

use vstd::prelude::*;

use crate::manager::{handle_in, lists, merged, names, unique_keys, DisplayManager};
use crate::monitor::{DeviceOp, DisplayId, EventToSub, MonitorInfo};
use crate::protocols::clamp_to_100;

verus! {

/// Enumeration cycles that may fail in a row before settling for no display.
pub const MAX_FAILED_ATTEMPTS: u32 = 3;

/// Pause before a retry after a failed enumeration, in milliseconds.
pub const RETRY_DELAY_MS: u64 = 100;

/// Pause after every brightness write (DDC/CI wants 40 ms between commands).
pub const WRITE_SPACING_MS: u64 = 40;

/// Phase of the control loop.
#[derive(Debug, Clone, Copy, PartialEq, Eq, Structural)]
pub enum Phase {
    /// Pausing before another enumeration.
    Waiting,
    /// An enumeration is due or in flight.
    Fetching,
    /// Serving commands.
    Ready,
}

/// A device that probed successfully.
pub struct Probed<H> {
    pub id: DisplayId,
    pub info: MonitorInfo,
    pub handle: H,
}

/// How the controller reacts to a command.
#[derive(Debug)]
pub enum Reaction {
    /// Perform these operations, in order.
    Run(Vec<DeviceOp>),
    /// Enumerate again (the controller is now fetching).
    Enumerate,
    /// Nothing to do: the command came while no command is served.
    Ignored,
}

/// What the controller decides after an enumeration.
#[derive(Debug)]
pub enum FetchDecision {
    /// Emit these snapshots; the controller is ready for commands.
    Ready(Vec<(DisplayId, MonitorInfo)>),
    /// Wait this many milliseconds, then report it and enumerate again.
    Retry(u64),
    /// No enumeration was due.
    Ignored,
}

/// Operations for writing `v` to `id`: the clamped write and the pause after
/// it, or nothing when the registry does not hold `id`.
pub open spec fn spec_set_ops<H>(registry: DisplayManager<H>, id: String, v: u16) -> Seq<DeviceOp> {
    if registry.holds(id@) {
        seq![DeviceOp::Write(id, clamp_to_100(v)), DeviceOp::Pause(WRITE_SPACING_MS as u64)]
    } else {
        Seq::empty()
    }
}

/// Operations for a batch: those of each write, in list order.
pub open spec fn spec_batch_ops<H>(registry: DisplayManager<H>, pairs: Seq<(String, u16)>) -> Seq<
    DeviceOp,
>
    decreases pairs.len(),
{
    if pairs.len() == 0 {
        Seq::empty()
    } else {
        spec_batch_ops(registry, pairs.drop_last()) + spec_set_ops(
            registry,
            pairs.last().0,
            pairs.last().1,
        )
    }
}

/// Operations for a refresh: one read per registered display, in order.
pub open spec fn spec_refresh_ops<H>(registry: DisplayManager<H>) -> Seq<DeviceOp> {
    registry@.map_values(|e: (String, H)| DeviceOp::Read(e.0))
}

/// The (identity, handle) pairs of probed devices.
pub open spec fn handles_of<H>(probed: Seq<Probed<H>>) -> Seq<(String, H)> {
    probed.map_values(|p: Probed<H>| (p.id, p.handle))
}

/// The (identity, snapshot) pairs of probed devices.
pub open spec fn infos_of<H>(probed: Seq<Probed<H>>) -> Seq<(String, MonitorInfo)> {
    probed.map_values(|p: Probed<H>| (p.id, p.info))
}

/// The identities of a list of snapshots.
pub open spec fn ids_of(items: Seq<(String, MonitorInfo)>) -> Seq<String> {
    items.map_values(|e: (String, MonitorInfo)| e.0)
}

/// The snapshot map emitted after an enumeration: one entry per identity
/// held by the registry, from the new probe where there is one, else from the
/// re-read of the cached display.
pub open spec fn snapshot_of<H>(
    snapshot: Seq<(String, MonitorInfo)>,
    registry: DisplayManager<H>,
    probed: Seq<(String, MonitorInfo)>,
    cached: Seq<(String, MonitorInfo)>,
) -> bool {
    &&& unique_keys(snapshot)
    &&& forall|k: Seq<char>| #[trigger] lists(snapshot, k) <==> registry.holds(k)
    &&& forall|k: Seq<char>|
        lists(probed, k) ==> #[trigger] handle_in(snapshot, k) == handle_in(probed, k)
    &&& forall|k: Seq<char>|
        !lists(probed, k) && lists(snapshot, k) ==> #[trigger] handle_in(snapshot, k) == handle_in(
            cached,
            k,
        )
}

/// The control loop's state.
pub struct Controller {
    phase: Phase,
    failed_attempts: u32,
}

impl Controller {
    pub closed spec fn spec_phase(&self) -> Phase {
        self.phase
    }

    pub closed spec fn spec_failed_attempts(&self) -> u32 {
        self.failed_attempts
    }

    /// Fewer failed cycles in a row than the budget.
    pub open spec fn wf(&self) -> bool {
        self.spec_failed_attempts() < MAX_FAILED_ATTEMPTS
    }

    /// A controller about to run its first enumeration.
    pub fn new() -> (r: Self)
        ensures
            r.spec_phase() == Phase::Fetching,
            r.spec_failed_attempts() == 0,
            r.wf(),
    {
        Controller { phase: Phase::Fetching, failed_attempts: 0 }
    }

    /// The current phase.
    pub fn phase(&self) -> (r: Phase)
        ensures
            r == self.spec_phase(),
    {
        self.phase
    }

    /// Failed enumeration cycles since the last time the loop was ready.
    pub fn failed_attempts(&self) -> (r: u32)
        ensures
            r == self.spec_failed_attempts(),
    {
        self.failed_attempts
    }

    /// The identities to leave out of the next enumeration: every display the
    /// registry holds (it is known to work).
    pub fn skip_set<H>(&self, registry: &DisplayManager<H>) -> (r: Vec<DisplayId>)
        ensures
            r@.len() == registry@.len(),
            forall|i: int| 0 <= i < r@.len() ==> r@[i] == (#[trigger] registry@[i]).0,
    {
        registry.get_all_ids()
    }

    /// Reacts to a command. Commands are served only when ready; any other
    /// time they are dropped, re-enumeration requests included, so that two
    /// enumerations never overlap.
    ///
    /// A refresh reads every registered display. A write is clamped to 100
    /// and followed by the protocol's pause; a write to a display the
    /// registry does not hold is dropped. A batch is written in list order.
    /// A re-enumeration keeps the registry as the set of known-good displays;
    /// a full one empties it first.
    pub fn on_command<H>(&mut self, registry: &mut DisplayManager<H>, cmd: &EventToSub) -> (r:
        Reaction)
        requires
            old(self).wf(),
            old(registry).wf(),
        ensures
            final(self).wf(),
            final(registry).wf(),
            final(self).spec_failed_attempts() == old(self).spec_failed_attempts(),
            old(self).spec_phase() != Phase::Ready ==> {
                &&& r is Ignored
                &&& final(self).spec_phase() == old(self).spec_phase()
                &&& final(registry)@ == old(registry)@
            },
            old(self).spec_phase() == Phase::Ready ==> match cmd {
                EventToSub::Refresh => {
                    &&& r matches Reaction::Run(ops) && ops@ == spec_refresh_ops(*old(registry))
                    &&& final(self).spec_phase() == Phase::Ready
                    &&& final(registry)@ == old(registry)@
                },
                EventToSub::SetBrightness(id, v) => {
                    &&& r matches Reaction::Run(ops) && ops@ == spec_set_ops(*old(registry), *id, *v)
                    &&& final(self).spec_phase() == Phase::Ready
                    &&& final(registry)@ == old(registry)@
                },
                EventToSub::SetBatch(pairs) => {
                    &&& r matches Reaction::Run(ops) && ops@ == spec_batch_ops(*old(registry), pairs@)
                    &&& final(self).spec_phase() == Phase::Ready
                    &&& final(registry)@ == old(registry)@
                },
                EventToSub::ReEnumerate => {
                    &&& r is Enumerate
                    &&& final(self).spec_phase() == Phase::Fetching
                    &&& final(registry)@ == old(registry)@
                },
                EventToSub::ReEnumerateFull => {
                    &&& r is Enumerate
                    &&& final(self).spec_phase() == Phase::Fetching
                    &&& final(registry)@.len() == 0
                },
            },
    {
        if self.phase != Phase::Ready {
            return Reaction::Ignored;
        }
        match cmd {
            EventToSub::Refresh => {
                let ids = registry.get_all_ids();
                let mut ops: Vec<DeviceOp> = Vec::new();
                let mut i: usize = 0;
                while i < ids.len()
                    invariant
                        i <= ids@.len(),
                        ids@.len() == registry@.len(),
                        forall|j: int| 0 <= j < ids@.len() ==> ids@[j] == (#[trigger] registry@[j]).0,
                        ops@ == spec_refresh_ops(*registry).take(i as int),
                    decreases ids.len() - i,
                {
                    ops.push(DeviceOp::Read(ids[i].clone()));
                    proof {
                        assert(ops@ =~= spec_refresh_ops(*registry).take(i as int + 1));
                    }
                    i = i + 1;
                }
                proof {
                    assert(ops@ =~= spec_refresh_ops(*registry));
                }
                Reaction::Run(ops)
            },
            EventToSub::SetBrightness(id, v) => {
                let mut ops: Vec<DeviceOp> = Vec::new();
                push_set_ops(registry, &mut ops, id, *v);
                proof {
                    assert(ops@ =~= spec_set_ops(*registry, *id, *v));
                }
                Reaction::Run(ops)
            },
            EventToSub::SetBatch(pairs) => {
                let mut ops: Vec<DeviceOp> = Vec::new();
                let mut i: usize = 0;
                while i < pairs.len()
                    invariant
                        i <= pairs@.len(),
                        ops@ == spec_batch_ops(*registry, pairs@.take(i as int)),
                    decreases pairs.len() - i,
                {
                    push_set_ops(registry, &mut ops, &pairs[i].0, pairs[i].1);
                    proof {
                        assert(pairs@.take(i as int + 1).drop_last() =~= pairs@.take(i as int));
                    }
                    i = i + 1;
                }
                proof {
                    assert(pairs@.take(i as int) =~= pairs@);
                }
                Reaction::Run(ops)
            },
            EventToSub::ReEnumerate => {
                self.phase = Phase::Fetching;
                Reaction::Enumerate
            },
            EventToSub::ReEnumerateFull => {
                registry.clear();
                self.phase = Phase::Fetching;
                Reaction::Enumerate
            },
        }
    }

    /// The retry pause is over: enumerate again.
    pub fn retry_elapsed(&mut self)
        ensures
            old(self).spec_phase() == Phase::Waiting ==> final(self).spec_phase() == Phase::Fetching,
            old(self).spec_phase() != Phase::Waiting ==> final(self).spec_phase() == old(self).spec_phase(),
            final(self).spec_failed_attempts() == old(self).spec_failed_attempts(),
    {
        if self.phase == Phase::Waiting {
            self.phase = Phase::Fetching;
        }
    }

    /// Takes the outcome of an enumeration: the devices newly probed, the
    /// cached devices that still answered (with fresh snapshots), and whether
    /// any probe failed.
    ///
    /// The registry keeps the cached devices that answered, gains the newly
    /// probed ones, and drops the rest. When no display is held, a probe
    /// failed and fewer than three cycles have failed in a row, the
    /// controller waits and retries; otherwise it is ready and the snapshots
    /// of every held display are emitted.
    pub fn finish_fetch<H>(
        &mut self,
        registry: &mut DisplayManager<H>,
        probed: Vec<Probed<H>>,
        cached: Vec<(DisplayId, MonitorInfo)>,
        some_failed: bool,
    ) -> (r: FetchDecision)
        requires
            old(self).wf(),
            old(registry).wf(),
        ensures
            final(self).wf(),
            final(registry).wf(),
            old(self).spec_phase() != Phase::Fetching ==> {
                &&& r is Ignored
                &&& *final(self) == *old(self)
                &&& final(registry)@ == old(registry)@
            },
            old(self).spec_phase() == Phase::Fetching ==> {
                let failed = old(self).spec_failed_attempts() + if some_failed {
                    1int
                } else {
                    0
                };
                &&& merged(*old(registry), *final(registry), handles_of(probed@), ids_of(cached@))
                &&& if final(registry)@.len() == 0 && some_failed && failed < MAX_FAILED_ATTEMPTS {
                    &&& r == FetchDecision::Retry(RETRY_DELAY_MS)
                    &&& final(self).spec_phase() == Phase::Waiting
                    &&& final(self).spec_failed_attempts() == failed
                } else {
                    &&& r matches FetchDecision::Ready(snapshot) && snapshot_of(
                        snapshot@,
                        *final(registry),
                        infos_of(probed@),
                        cached@,
                    )
                    &&& final(self).spec_phase() == Phase::Ready
                    &&& final(self).spec_failed_attempts() == 0
                }
            },
    {
        if self.phase != Phase::Fetching {
            return FetchDecision::Ignored;
        }
        // Split the probed devices into handles and snapshots.
        let ghost pv = probed@;
        let mut handles: Vec<(DisplayId, H)> = Vec::new();
        let mut infos: Vec<(DisplayId, MonitorInfo)> = Vec::new();
        let mut pending = probed;
        let ghost mut m: int = 0;
        while pending.len() > 0
            invariant
                0 <= m <= pv.len(),
                pending@ == pv.skip(m),
                handles@.len() == m,
                infos@.len() == m,
                forall|j: int| 0 <= j < m ==> #[trigger] handles@[j] == (pv[j].id, pv[j].handle),
                forall|j: int| 0 <= j < m ==> #[trigger] infos@[j] == (pv[j].id, pv[j].info),
            decreases pending.len(),
        {
            let p = pending.remove(0);
            proof {
                assert(pv[m] == p);
            }
            let id2 = p.id.clone();
            handles.push((p.id, p.handle));
            infos.push((id2, p.info));
            proof {
                m = m + 1;
                assert(pending@ =~= pv.skip(m));
            }
        }
        proof {
            assert(handles@ =~= handles_of(pv));
            assert(infos@ =~= infos_of(pv));
        }
        // The cached displays that answered stay.
        let mut keep: Vec<DisplayId> = Vec::new();
        let mut i: usize = 0;
        while i < cached.len()
            invariant
                i <= cached@.len(),
                keep@.len() == i,
                forall|j: int| 0 <= j < i ==> #[trigger] keep@[j] == cached@[j].0,
            decreases cached.len() - i,
        {
            keep.push(cached[i].0.clone());
            i = i + 1;
        }
        proof {
            assert(keep@ =~= ids_of(cached@));
        }
        registry.merge(handles, &keep);
        // Snapshots of every held display: probed first, then cached.
        let mut snapshot: Vec<(DisplayId, MonitorInfo)> = Vec::new();
        let ghost cv = cached@;
        let ghost iv = infos@;
        registry.select_held(&mut snapshot, infos);
        let ghost mid = snapshot@;
        registry.select_held(&mut snapshot, cached);
        proof {
            assert forall|k: Seq<char>| #[trigger] lists(snapshot@, k) <==> registry.holds(k) by {
                lemma_probed_ids(pv, k);
                if registry.holds(k) && !lists(iv, k) {
                    assert(names(ids_of(cv), k));
                    let j = choose|j: int| 0 <= j < ids_of(cv).len() && (#[trigger] ids_of(cv)[j])@ == k;
                    assert(cv[j].0@ == k);
                }
            }
            assert forall|k: Seq<char>| lists(iv, k) implies #[trigger] handle_in(snapshot@, k) == handle_in(iv, k) by {
                lemma_probed_ids(pv, k);
                assert(handle_in(mid, k) == handle_in(iv, k));
            }
            assert forall|k: Seq<char>| !lists(iv, k) && lists(snapshot@, k) implies #[trigger] handle_in(snapshot@, k) == handle_in(cv, k) by {
                assert(!lists(mid, k));
            }
            assert(snapshot_of(snapshot@, *registry, iv, cv));
        }
        let failed: u32 = if some_failed {
            self.failed_attempts + 1
        } else {
            self.failed_attempts
        };
        if registry.count() == 0 && some_failed && failed < MAX_FAILED_ATTEMPTS {
            self.phase = Phase::Waiting;
            self.failed_attempts = failed;
            FetchDecision::Retry(RETRY_DELAY_MS)
        } else {
            self.phase = Phase::Ready;
            self.failed_attempts = 0;
            FetchDecision::Ready(snapshot)
        }
    }
}

/// Appends the operations for writing `v` to `id`.
fn push_set_ops<H>(registry: &DisplayManager<H>, ops: &mut Vec<DeviceOp>, id: &DisplayId, v: u16)
    ensures
        final(ops)@ == old(ops)@ + spec_set_ops(*registry, *id, v),
{
    if registry.contains(id.as_str()) {
        let b: u16 = if v > 100 {
            100
        } else {
            v
        };
        ops.push(DeviceOp::Write(id.clone(), b));
        ops.push(DeviceOp::Pause(WRITE_SPACING_MS));
        proof {
            assert(ops@ =~= old(ops)@ + spec_set_ops(*registry, *id, v));
        }
    } else {
        proof {
            assert(ops@ =~= old(ops)@ + spec_set_ops(*registry, *id, v));
        }
    }
}

/// Brightness of each display after performing `ops` on displays whose
/// brightness was `values`: each write sets its display's value.
pub open spec fn spec_apply(values: Map<Seq<char>, u16>, ops: Seq<DeviceOp>) -> Map<Seq<char>, u16>
    decreases ops.len(),
{
    if ops.len() == 0 {
        values
    } else {
        let before = spec_apply(values, ops.drop_last());
        match ops.last() {
            DeviceOp::Write(id, b) => before.insert(id@, b),
            _ => before,
        }
    }
}

/// The last value that a list of writes gives to identity `k`.
pub open spec fn spec_last_write(pairs: Seq<(String, u16)>, k: Seq<char>) -> Option<u16>
    decreases pairs.len(),
{
    if pairs.len() == 0 {
        None
    } else if pairs.last().0@ == k {
        Some(pairs.last().1)
    } else {
        spec_last_write(pairs.drop_last(), k)
    }
}

proof fn lemma_apply_concat(values: Map<Seq<char>, u16>, a: Seq<DeviceOp>, b: Seq<DeviceOp>)
    ensures
        spec_apply(values, a + b) == spec_apply(spec_apply(values, a), b),
    decreases b.len(),
{
    if b.len() == 0 {
        assert(a + b =~= a);
    } else {
        assert((a + b).drop_last() =~= a + b.drop_last());
        assert((a + b).last() == b.last());
        lemma_apply_concat(values, a, b.drop_last());
    }
}

/// Within a batch, writes take effect in list order: a registered display
/// ends at (the clamp of) the last value the batch gives it, and a display
/// the batch does not name keeps its value.
pub proof fn lemma_batch_last_write_wins<H>(
    registry: DisplayManager<H>,
    pairs: Seq<(String, u16)>,
    values: Map<Seq<char>, u16>,
    k: Seq<char>,
)
    requires
        registry.holds(k),
    ensures
        match spec_last_write(pairs, k) {
            Some(v) => spec_apply(values, spec_batch_ops(registry, pairs)).contains_key(k) && spec_apply(
                values,
                spec_batch_ops(registry, pairs),
            )[k] == clamp_to_100(v),
            None => spec_apply(values, spec_batch_ops(registry, pairs)).contains_key(k)
                == values.contains_key(k) && (values.contains_key(k) ==> spec_apply(
                values,
                spec_batch_ops(registry, pairs),
            )[k] == values[k]),
        },
    decreases pairs.len(),
{
    if pairs.len() > 0 {
        let init = pairs.drop_last();
        let (id, v) = pairs.last();
        lemma_apply_concat(values, spec_batch_ops(registry, init), spec_set_ops(registry, id, v));
        lemma_batch_last_write_wins(registry, init, values, k);
        let mid = spec_apply(values, spec_batch_ops(registry, init));
        lemma_apply_set_ops(registry, mid, id, v);
    }
}

/// Performing the operations of one write.
proof fn lemma_apply_set_ops<H>(
    registry: DisplayManager<H>,
    values: Map<Seq<char>, u16>,
    id: String,
    v: u16,
)
    ensures
        spec_apply(values, spec_set_ops(registry, id, v)) == if registry.holds(id@) {
            values.insert(id@, clamp_to_100(v))
        } else {
            values
        },
{
    let ops = spec_set_ops(registry, id, v);
    if registry.holds(id@) {
        let w = ops.drop_last();
        assert(w =~= seq![DeviceOp::Write(id, clamp_to_100(v))]);
        assert(w.drop_last() =~= Seq::<DeviceOp>::empty());
        assert(spec_apply(values, w.drop_last()) == values);
        assert(spec_apply(values, w) == values.insert(id@, clamp_to_100(v)));
    } else {
        assert(ops =~= Seq::<DeviceOp>::empty());
    }
}

/// Every write that a batch of commands produces carries a percentage of at
/// most 100, whatever values the batch asks for.
pub proof fn lemma_batch_writes_are_percentages<H>(registry: DisplayManager<H>, pairs: Seq<(String, u16)>)
    ensures
        forall|i: int|
            0 <= i < spec_batch_ops(registry, pairs).len() ==> (#[trigger] spec_batch_ops(
                registry,
                pairs,
            )[i] matches DeviceOp::Write(_, v) ==> v <= 100),
    decreases pairs.len(),
{
    if pairs.len() > 0 {
        lemma_batch_writes_are_percentages(registry, pairs.drop_last());
        let a = spec_batch_ops(registry, pairs.drop_last());
        let b = spec_set_ops(registry, pairs.last().0, pairs.last().1);
        assert forall|i: int| 0 <= i < (a + b).len() implies (#[trigger] (a + b)[i] matches DeviceOp::Write(_, v)
            ==> v <= 100) by {
            if i >= a.len() {
                assert((a + b)[i] == b[i - a.len()]);
            } else {
                assert((a + b)[i] == a[i]);
            }
        }
    }
}

/// Writing the same percentage to a display twice in a row leaves every
/// display as writing it once does, so a read-back gives the same value.
pub proof fn lemma_write_twice<H>(
    registry: DisplayManager<H>,
    id: String,
    v: u16,
    values: Map<Seq<char>, u16>,
)
    ensures
        spec_apply(values, spec_batch_ops(registry, seq![(id, v), (id, v)])) == spec_apply(
            values,
            spec_batch_ops(registry, seq![(id, v)]),
        ),
{
    let once = seq![(id, v)];
    let twice = seq![(id, v), (id, v)];
    assert(twice.drop_last() =~= once);
    assert(once.drop_last() =~= Seq::<(String, u16)>::empty());
    let ops = spec_set_ops(registry, id, v);
    assert(spec_batch_ops(registry, once.drop_last()) == Seq::<DeviceOp>::empty());
    assert(spec_batch_ops(registry, once) =~= ops);
    assert(spec_batch_ops(registry, twice) =~= ops + ops);
    lemma_apply_concat(values, ops, ops);
    let m1 = spec_apply(values, ops);
    lemma_apply_set_ops(registry, values, id, v);
    lemma_apply_set_ops(registry, m1, id, v);
    if registry.holds(id@) {
        assert(m1.insert(id@, clamp_to_100(v)) =~= m1);
    }
}

/// Probed devices list the same identities as handles and as snapshots.
proof fn lemma_probed_ids<H>(pv: Seq<Probed<H>>, k: Seq<char>)
    ensures
        lists(handles_of(pv), k) == lists(infos_of(pv), k),
{
    if lists(handles_of(pv), k) {
        let j = choose|j: int| 0 <= j < handles_of(pv).len() && (#[trigger] handles_of(pv)[j]).0@ == k;
        assert(infos_of(pv)[j].0@ == k);
    }
    if lists(infos_of(pv), k) {
        let j = choose|j: int| 0 <= j < infos_of(pv).len() && (#[trigger] infos_of(pv)[j]).0@ == k;
        assert(handles_of(pv)[j].0@ == k);
    }
}

} // verus!
