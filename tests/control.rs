use std::collections::HashMap;

use monitor_brightness::controller::{Controller, FetchDecision, Phase, Probed, Reaction};
use monitor_brightness::enumeration::{plan_probes, probe_finished, probe_step, ProbeAction, ProbeEvent, ProbeStage};
use monitor_brightness::manager::DisplayManager;
use monitor_brightness::monitor::{DeviceOp, EventToSub, MonitorInfo};

/// A simulated display.
struct FakeDisplay {
    id: String,
    brightness: u16,
    /// Reads that fail before reads start to work.
    failing_reads: u32,
    reads: u32,
    writes: Vec<u16>,
}

impl FakeDisplay {
    fn new(id: &str, brightness: u16, failing_reads: u32) -> Self {
        FakeDisplay { id: id.to_string(), brightness, failing_reads, reads: 0, writes: Vec::new() }
    }

    fn read(&mut self) -> Option<u16> {
        self.reads += 1;
        if self.failing_reads > 0 {
            self.failing_reads -= 1;
            None
        } else {
            Some(self.brightness)
        }
    }

    fn write(&mut self, v: u16) {
        self.writes.push(v);
        self.brightness = v;
    }
}

/// Runs a probe against a simulated display; pauses are skipped.
fn run_probe(d: &mut FakeDisplay) -> (Option<u16>, Vec<u64>) {
    let mut stage = ProbeStage::Start;
    let mut event = ProbeEvent::Begin;
    let mut sleeps = Vec::new();
    loop {
        let (next, action) = probe_step(stage, event);
        stage = next;
        event = match action {
            ProbeAction::Read => match d.read() {
                Some(v) => ProbeEvent::ReadOk(v),
                None => ProbeEvent::ReadFailed,
            },
            ProbeAction::Write(v) => {
                d.write(v);
                ProbeEvent::Written
            }
            ProbeAction::Sleep(ms) => {
                sleeps.push(ms);
                ProbeEvent::Slept
            }
            ProbeAction::Succeeded(b) => {
                assert!(probe_finished(stage));
                return (Some(b), sleeps);
            }
            ProbeAction::Failed => {
                assert!(probe_finished(stage));
                return (None, sleeps);
            }
        };
    }
}

/// One enumeration: probes the attached displays the skip set leaves,
/// re-reads the cached ones, and hands the outcome to the controller.
fn enumerate(
    c: &mut Controller,
    reg: &mut DisplayManager<usize>,
    displays: &mut Vec<FakeDisplay>,
    attached: &[usize],
) -> FetchDecision {
    let skip = c.skip_set(reg);
    let ids: Vec<String> = attached.iter().map(|&i| displays[i].id.clone()).collect();
    let plan = plan_probes(&ids, &skip);
    let mut probed = Vec::new();
    let mut some_failed = false;
    for k in plan {
        let idx = attached[k];
        match run_probe(&mut displays[idx]).0 {
            Some(b) => probed.push(Probed {
                id: displays[idx].id.clone(),
                info: MonitorInfo { name: format!("Display {idx}"), brightness: b, connector_name: None, edid_serial: None },
                handle: idx,
            }),
            None => some_failed = true,
        }
    }
    let mut cached = Vec::new();
    for id in reg.get_all_ids() {
        let handle = *reg.get(&id).unwrap();
        if attached.contains(&handle) {
            if let Some(b) = displays[handle].read() {
                cached.push((id.clone(), MonitorInfo { name: format!("Display {handle}"), brightness: b, connector_name: None, edid_serial: None }));
            }
        }
    }
    c.finish_fetch(reg, probed, cached, some_failed)
}

/// Performs device operations on the simulated displays.
fn perform(reg: &DisplayManager<usize>, displays: &mut Vec<FakeDisplay>, ops: &[DeviceOp]) -> Vec<(String, u16)> {
    let mut updates = Vec::new();
    for op in ops {
        match op {
            DeviceOp::Read(id) => {
                let h = *reg.get(id).unwrap();
                if let Some(v) = displays[h].read() {
                    updates.push((id.clone(), v));
                }
            }
            DeviceOp::Write(id, v) => {
                let h = *reg.get(id).unwrap();
                displays[h].write(*v);
            }
            DeviceOp::Pause(ms) => assert_eq!(*ms, 40),
        }
    }
    updates
}

fn ready_snapshot(d: FetchDecision) -> HashMap<String, u16> {
    match d {
        FetchDecision::Ready(s) => s.into_iter().map(|(id, info)| (id, info.brightness)).collect(),
        other => panic!("expected Ready, got {other:?}"),
    }
}

#[test]
fn probe_wakes_settles_and_reads() {
    let mut d = FakeDisplay::new("ddc-A", 45, 0);
    let (r, sleeps) = run_probe(&mut d);
    assert_eq!(r, Some(45));
    assert_eq!(d.writes, vec![45]);
    assert_eq!(sleeps, vec![100]);
}

#[test]
fn probe_writes_default_when_first_read_fails() {
    let mut d = FakeDisplay::new("ddc-A", 45, 1);
    let (r, _) = run_probe(&mut d);
    assert_eq!(d.writes, vec![50]);
    assert_eq!(r, Some(50));
}

#[test]
fn probe_backs_off_then_gives_up_after_five_reads() {
    let mut d = FakeDisplay::new("ddc-A", 45, 100);
    let (r, sleeps) = run_probe(&mut d);
    assert_eq!(r, None);
    assert_eq!(d.reads, 6);
    assert_eq!(sleeps, vec![100, 100, 150, 200, 250]);
}

#[test]
fn probe_succeeds_on_a_late_attempt() {
    let mut d = FakeDisplay::new("ddc-A", 30, 4);
    assert_eq!(run_probe(&mut d).0, Some(50));
    assert_eq!(d.reads, 5);
}

#[test]
fn probe_clamps_reading_to_100() {
    let mut d = FakeDisplay::new("ddc-A", 250, 0);
    assert_eq!(run_probe(&mut d).0, Some(100));
}

#[test]
fn probe_fails_on_unexpected_event() {
    assert_eq!(probe_step(ProbeStage::Start, ProbeEvent::Slept), (ProbeStage::Done, ProbeAction::Failed));
}

#[test]
fn skipped_identities_are_never_probed() {
    let attached = vec!["ddc-A".to_string(), "ddc-B".to_string(), "ddc-C".to_string()];
    let skip = vec!["ddc-B".to_string()];
    assert_eq!(plan_probes(&attached, &skip), vec![0, 2]);
    assert_eq!(plan_probes(&attached, &vec![]), vec![0, 1, 2]);
    assert!(plan_probes(&attached, &attached).is_empty());
}

#[test]
fn registry_merge_keeps_live_handles() {
    let mut reg: DisplayManager<u32> = DisplayManager::new();
    reg.update_displays(vec![("A".to_string(), 1), ("B".to_string(), 2), ("C".to_string(), 3)]);
    assert_eq!(reg.count(), 3);
    reg.merge(vec![("B".to_string(), 20), ("D".to_string(), 4), ("D".to_string(), 40)], &vec!["C".to_string()]);
    let mut ids = reg.get_all_ids();
    ids.sort();
    assert_eq!(ids, vec!["B", "C", "D"]);
    assert_eq!(reg.get("A"), None);
    assert_eq!(reg.get("B"), Some(&2));
    assert_eq!(reg.get("C"), Some(&3));
    assert_eq!(reg.get("D"), Some(&4));
    assert!(reg.contains("D"));
    reg.update_displays(vec![("D".to_string(), 5)]);
    assert_eq!(reg.get_all_ids(), vec!["D"]);
    assert_eq!(reg.get("D"), Some(&4));
    reg.clear();
    assert_eq!(reg.count(), 0);
}

#[test]
fn two_ddc_displays_give_one_ready_event() {
    let mut displays = vec![FakeDisplay::new("ddc-A", 45, 0), FakeDisplay::new("ddc-B", 80, 0)];
    let mut reg = DisplayManager::new();
    let mut c = Controller::new();
    let snapshot = ready_snapshot(enumerate(&mut c, &mut reg, &mut displays, &[0, 1]));
    assert_eq!(snapshot.len(), 2);
    assert_eq!(snapshot["ddc-A"], 45);
    assert_eq!(snapshot["ddc-B"], 80);
    assert_eq!(c.phase(), Phase::Ready);
    assert_eq!(reg.count(), 2);
}

#[test]
fn set_is_clamped_before_writing() {
    let mut displays = vec![FakeDisplay::new("ddc-0x112E647C", 45, 0)];
    let mut reg = DisplayManager::new();
    let mut c = Controller::new();
    ready_snapshot(enumerate(&mut c, &mut reg, &mut displays, &[0]));
    let ops = match c.on_command(&mut reg, &EventToSub::SetBrightness("ddc-0x112E647C".to_string(), 200)) {
        Reaction::Run(ops) => ops,
        other => panic!("unexpected {other:?}"),
    };
    assert_eq!(ops.len(), 2);
    assert!(matches!(&ops[0], DeviceOp::Write(id, 100) if id == "ddc-0x112E647C"));
    assert!(matches!(&ops[1], DeviceOp::Pause(40)));
    perform(&reg, &mut displays, &ops);
    let read = match c.on_command(&mut reg, &EventToSub::Refresh) {
        Reaction::Run(ops) => perform(&reg, &mut displays, &ops),
        other => panic!("unexpected {other:?}"),
    };
    assert_eq!(read, vec![("ddc-0x112E647C".to_string(), 100)]);
}

#[test]
fn set_for_unknown_display_does_nothing() {
    let mut displays = vec![FakeDisplay::new("ddc-A", 45, 0)];
    let mut reg = DisplayManager::new();
    let mut c = Controller::new();
    ready_snapshot(enumerate(&mut c, &mut reg, &mut displays, &[0]));
    match c.on_command(&mut reg, &EventToSub::SetBrightness("ddc-Z".to_string(), 10)) {
        Reaction::Run(ops) => assert!(ops.is_empty()),
        other => panic!("unexpected {other:?}"),
    }
}

#[test]
fn batch_writes_apply_in_order() {
    let mut displays = vec![FakeDisplay::new("A", 0, 0), FakeDisplay::new("B", 0, 0)];
    let mut reg = DisplayManager::new();
    let mut c = Controller::new();
    ready_snapshot(enumerate(&mut c, &mut reg, &mut displays, &[0, 1]));
    let batch = vec![("A".to_string(), 10), ("B".to_string(), 90), ("A".to_string(), 50)];
    let ops = match c.on_command(&mut reg, &EventToSub::SetBatch(batch)) {
        Reaction::Run(ops) => ops,
        other => panic!("unexpected {other:?}"),
    };
    assert_eq!(ops.len(), 6);
    perform(&reg, &mut displays, &ops);
    assert_eq!(displays[0].brightness, 50);
    assert_eq!(displays[1].brightness, 90);
    assert_eq!(displays[0].writes, vec![0, 10, 50]);
}

#[test]
fn reenumerate_drops_unplugged_and_keeps_present_handles() {
    let mut displays = vec![FakeDisplay::new("ddc-A", 45, 0), FakeDisplay::new("ddc-B", 80, 0)];
    let mut reg = DisplayManager::new();
    let mut c = Controller::new();
    ready_snapshot(enumerate(&mut c, &mut reg, &mut displays, &[0, 1]));
    let handle_b = *reg.get("ddc-B").unwrap();
    let writes_b = displays[1].writes.len();
    assert!(matches!(c.on_command(&mut reg, &EventToSub::ReEnumerate), Reaction::Enumerate));
    assert_eq!(c.phase(), Phase::Fetching);
    // ddc-A is unplugged.
    let snapshot = ready_snapshot(enumerate(&mut c, &mut reg, &mut displays, &[1]));
    assert_eq!(snapshot.len(), 1);
    assert!(snapshot.contains_key("ddc-B"));
    assert_eq!(reg.get("ddc-A"), None);
    assert_eq!(reg.get("ddc-B"), Some(&handle_b));
    // No probe touched ddc-B: no wake-up write.
    assert_eq!(displays[1].writes.len(), writes_b);
}

#[test]
fn full_reenumerate_probes_everything_again() {
    let mut displays = vec![FakeDisplay::new("ddc-A", 45, 0)];
    let mut reg = DisplayManager::new();
    let mut c = Controller::new();
    ready_snapshot(enumerate(&mut c, &mut reg, &mut displays, &[0]));
    assert!(matches!(c.on_command(&mut reg, &EventToSub::ReEnumerateFull), Reaction::Enumerate));
    assert_eq!(reg.count(), 0);
    let writes = displays[0].writes.len();
    ready_snapshot(enumerate(&mut c, &mut reg, &mut displays, &[0]));
    assert_eq!(displays[0].writes.len(), writes + 1);
}

#[test]
fn commands_outside_ready_are_dropped() {
    let mut reg: DisplayManager<usize> = DisplayManager::new();
    let mut c = Controller::new();
    assert!(matches!(c.on_command(&mut reg, &EventToSub::ReEnumerate), Reaction::Ignored));
    assert!(matches!(c.on_command(&mut reg, &EventToSub::Refresh), Reaction::Ignored));
    assert_eq!(c.phase(), Phase::Fetching);
}

#[test]
fn total_failure_then_success_gives_one_ready_event() {
    // Fails all six reads of the first probe, then answers.
    let mut displays = vec![FakeDisplay::new("ddc-A", 33, 6)];
    let mut reg = DisplayManager::new();
    let mut c = Controller::new();
    let mut ready_events = 0;
    for _ in 0..10 {
        match enumerate(&mut c, &mut reg, &mut displays, &[0]) {
            FetchDecision::Retry(ms) => {
                assert_eq!(ms, 100);
                assert_eq!(c.phase(), Phase::Waiting);
                c.retry_elapsed();
            }
            FetchDecision::Ready(s) => {
                ready_events += 1;
                assert_eq!(s.len(), 1);
                break;
            }
            FetchDecision::Ignored => panic!("not fetching"),
        }
    }
    assert_eq!(ready_events, 1);
    assert_eq!(c.failed_attempts(), 0);
}

#[test]
fn three_failed_cycles_settle_for_no_display() {
    let mut displays = vec![FakeDisplay::new("ddc-A", 33, 1000)];
    let mut reg = DisplayManager::new();
    let mut c = Controller::new();
    let mut retries = 0;
    loop {
        match enumerate(&mut c, &mut reg, &mut displays, &[0]) {
            FetchDecision::Retry(_) => {
                retries += 1;
                c.retry_elapsed();
            }
            FetchDecision::Ready(s) => {
                assert!(s.is_empty());
                break;
            }
            FetchDecision::Ignored => panic!("not fetching"),
        }
    }
    assert_eq!(retries, 2);
}

#[test]
fn no_hardware_is_ready_at_once() {
    let mut displays: Vec<FakeDisplay> = Vec::new();
    let mut reg = DisplayManager::new();
    let mut c = Controller::new();
    assert!(ready_snapshot(enumerate(&mut c, &mut reg, &mut displays, &[])).is_empty());
}
