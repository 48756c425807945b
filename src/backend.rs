//! One handle type over both drivers.

use vstd::prelude::*;

use crate::error::AppError;
use crate::hid_display::AppleHidDisplay;
use crate::protocols::{clamp_to_100, DisplayProtocol};

verus! {

/// An open display of either protocol. `D` is the DDC/CI driver.
pub enum DisplayBackend<D> {
    /// DDC/CI over the video cable's I2C bus.
    DdcCi(D),
    /// Apple HID vendor protocol over USB.
    AppleHid(AppleHidDisplay),
}

impl<D: DisplayProtocol> DisplayProtocol for DisplayBackend<D> {
    open spec fn modelled(&self) -> bool {
        match self {
            DisplayBackend::DdcCi(d) => d.modelled(),
            DisplayBackend::AppleHid(d) => d.modelled(),
        }
    }

    open spec fn spec_id(&self) -> Seq<char> {
        match self {
            DisplayBackend::DdcCi(d) => d.spec_id(),
            DisplayBackend::AppleHid(d) => d.spec_id(),
        }
    }

    open spec fn last_written(&self) -> Option<u16> {
        match self {
            DisplayBackend::DdcCi(d) => d.last_written(),
            DisplayBackend::AppleHid(d) => d.last_written(),
        }
    }

    open spec fn last_report(&self) -> Option<Seq<u8>> {
        match self {
            DisplayBackend::DdcCi(d) => d.last_report(),
            DisplayBackend::AppleHid(d) => d.last_report(),
        }
    }

    /// The driver gets the value clamped to 100.
    open spec fn wire_report(&self, value: u16) -> Seq<u8> {
        match self {
            DisplayBackend::DdcCi(d) => d.wire_report(clamp_to_100(value)),
            DisplayBackend::AppleHid(d) => d.wire_report(clamp_to_100(value)),
        }
    }

    open spec fn read_explains(&self, v: u16) -> bool {
        match self {
            DisplayBackend::DdcCi(d) => d.read_explains(v),
            DisplayBackend::AppleHid(d) => d.read_explains(v),
        }
    }

    fn id(&self) -> (r: String) {
        match self {
            DisplayBackend::DdcCi(d) => d.id(),
            DisplayBackend::AppleHid(d) => d.id(),
        }
    }

    fn name(&self) -> String {
        match self {
            DisplayBackend::DdcCi(d) => d.name(),
            DisplayBackend::AppleHid(d) => d.name(),
        }
    }

    fn get_brightness(&mut self) -> (r: Result<u16, AppError>) {
        match self {
            DisplayBackend::DdcCi(d) => d.get_brightness(),
            DisplayBackend::AppleHid(d) => d.get_brightness(),
        }
    }

    /// Clamps the value to 100 before either driver sees it.
    fn set_brightness(&mut self, value: u16) -> (r: Result<(), AppError>) {
        let clamped = clamp_percentage(value);
        match self {
            DisplayBackend::DdcCi(d) => d.set_brightness(clamped),
            DisplayBackend::AppleHid(d) => d.set_brightness(clamped),
        }
    }
}

/// A percentage clamped to 100.
pub fn clamp_percentage(value: u16) -> (r: u16)
    ensures
        r == clamp_to_100(value),
{
    if value > 100 {
        100
    } else {
        value
    }
}

} // verus!
