//! What the control loop exchanges with its caller: display snapshots,
//! commands, and the device operations a command turns into.

use vstd::prelude::*;

verus! {

/// Stable identity of a display (`ddc-<serial>`, `apple-hid-<serial>`, or a
/// bus-derived fallback).
pub type DisplayId = String;

/// A brightness percentage.
pub type ScreenBrightness = u16;

/// One display as of its last successful read.
#[derive(Debug, Clone)]
pub struct MonitorInfo {
    /// Display name.
    pub name: String,
    /// Last brightness read, in percent.
    pub brightness: u16,
    /// Compositor connector the display was matched to, if any.
    pub connector_name: Option<String>,
    /// EDID serial number of the matched output, if any.
    pub edid_serial: Option<String>,
}

/// A command from the caller.
#[derive(Debug, Clone)]
pub enum EventToSub {
    /// Read back every registered display.
    Refresh,
    /// Write one display.
    SetBrightness(DisplayId, ScreenBrightness),
    /// Write several displays, in order.
    SetBatch(Vec<(DisplayId, ScreenBrightness)>),
    /// Probe again, keeping the displays that still work.
    ReEnumerate,
    /// Drop every display and probe from scratch.
    ReEnumerateFull,
}

/// One operation on a device, performed by the caller in list order.
#[derive(Debug, Clone)]
pub enum DeviceOp {
    /// Read the brightness of a display and report it.
    Read(DisplayId),
    /// Write a brightness (already clamped to 100) to a display.
    Write(DisplayId, ScreenBrightness),
    /// Wait this many milliseconds before the next operation.
    Pause(u64),
}

} // verus!
