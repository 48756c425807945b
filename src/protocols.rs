//! The capability every display driver offers, and how drivers name and
//! identify their displays.

use vstd::prelude::*;
use vstd::string::{StrSliceExecFns, StringExecFns};

use crate::error::AppError;

verus! {

/// VCP feature code of brightness under DDC/CI.
pub const BRIGHTNESS_CODE: u8 = 0x10;

/// A percentage clamped to 100.
pub open spec fn clamp_to_100(v: u16) -> u16 {
    if v > 100 {
        100
    } else {
        v
    }
}

/// Uniform surface of a display driver.
///
/// The spec functions describe a driver's identity and its traffic with the
/// device. A driver of this crate defines them and sets `modelled`; a driver
/// written outside verified code keeps the defaults, and then the contracts
/// below claim nothing of it beyond the range of a reading.
pub trait DisplayProtocol {
    /// Whether the spec functions below describe this driver.
    open spec fn modelled(&self) -> bool {
        false
    }

    /// Stable identity of the display.
    open spec fn spec_id(&self) -> Seq<char> {
        Seq::empty()
    }

    /// The percentage that the last successful write handed to the device,
    /// if any.
    open spec fn last_written(&self) -> Option<u16> {
        None
    }

    /// The bytes that the last successful write put on the wire, if any.
    open spec fn last_report(&self) -> Option<Seq<u8>> {
        None
    }

    /// The bytes that writing `value` puts on the wire.
    open spec fn wire_report(&self, value: u16) -> Seq<u8> {
        Seq::empty()
    }

    /// Whether the last successful read explains the reading `v`: the
    /// request sent and the answer received give `v`.
    open spec fn read_explains(&self, v: u16) -> bool {
        true
    }

    /// Stable identity of the display.
    fn id(&self) -> (r: String)
        ensures
            self.modelled() ==> r@ == self.spec_id(),
    ;

    /// Human-readable name of the display.
    fn name(&self) -> String;

    /// Current brightness, in percent.
    fn get_brightness(&mut self) -> (r: Result<u16, AppError>)
        ensures
            r matches Ok(v) ==> v <= 100,
            old(self).modelled() ==> {
                &&& final(self).modelled()
                &&& final(self).spec_id() == old(self).spec_id()
                &&& final(self).last_written() == old(self).last_written()
                &&& final(self).last_report() == old(self).last_report()
                &&& forall|x: u16| #[trigger] final(self).wire_report(x) == old(self).wire_report(x)
                &&& r matches Ok(v) ==> final(self).read_explains(v)
            },
    ;

    /// Sets the brightness: a value above 100 is taken as 100. On success
    /// the device got that clamped value, as the bytes `wire_report(value)`.
    fn set_brightness(&mut self, value: u16) -> (r: Result<(), AppError>)
        ensures
            old(self).modelled() ==> {
                &&& final(self).modelled()
                &&& final(self).spec_id() == old(self).spec_id()
                &&& forall|x: u16| #[trigger] final(self).wire_report(x) == old(self).wire_report(x)
                &&& r is Ok ==> final(self).last_written() == Some(clamp_to_100(value))
                    && final(self).last_report() == Some(old(self).wire_report(value))
                &&& r is Err ==> final(self).last_written() == old(self).last_written()
                    && final(self).last_report() == old(self).last_report()
            },
    ;
}

/// Identity of a DDC/CI display: `ddc-<serial>` when the EDID serial is
/// known, else the bus-derived id (which does not survive a replug).
pub open spec fn spec_ddc_display_id(edid_serial: Option<Seq<char>>, bus_id: Seq<char>) -> Seq<char> {
    match edid_serial {
        Some(s) => "ddc-"@ + s,
        None => bus_id,
    }
}

/// Identity of an Apple HID display.
pub open spec fn spec_hid_display_id(serial: Seq<char>) -> Seq<char> {
    "apple-hid-"@ + serial
}

/// Name of an Apple HID display: manufacturer and product, space-separated.
pub open spec fn spec_hid_display_name(manufacturer: Seq<char>, product: Seq<char>) -> Seq<char> {
    manufacturer + " "@ + product
}

/// Builds the identity of a DDC/CI display.
pub fn ddc_display_id(edid_serial: &Option<String>, bus_id: &str) -> (r: String)
    ensures
        r@ == spec_ddc_display_id(
            match edid_serial {
                Some(s) => Some(s@),
                None => None,
            },
            bus_id@,
        ),
{
    match edid_serial {
        Some(serial) => {
            let mut r = String::from_str("ddc-");
            r.append(serial.as_str());
            r
        },
        None => String::from_str(bus_id),
    }
}

/// Name of a DDC/CI display: its model name, or empty.
pub fn ddc_display_name(model_name: &Option<String>) -> (r: String)
    ensures
        r@ == match model_name {
            Some(m) => m@,
            None => Seq::<char>::empty(),
        },
{
    match model_name {
        Some(m) => m.clone(),
        None => String::new(),
    }
}

/// Builds the identity of an Apple HID display.
pub fn hid_display_id(serial: &str) -> (r: String)
    ensures
        r@ == spec_hid_display_id(serial@),
{
    let mut r = String::from_str("apple-hid-");
    r.append(serial);
    r
}

/// Builds the name of an Apple HID display.
pub fn hid_display_name(manufacturer: &str, product: &str) -> (r: String)
    ensures
        r@ == spec_hid_display_name(manufacturer@, product@),
{
    let mut r = String::from_str(manufacturer);
    r.append(" ");
    r.append(product);
    r
}

/// Whether `s` starts with `prefix`.
pub fn starts_with(s: &str, prefix: &str) -> (r: bool)
    ensures
        r == (prefix@.len() <= s@.len() && s@.subrange(0, prefix@.len() as int) == prefix@),
{
    let n = prefix.unicode_len();
    if n > s.unicode_len() {
        return false;
    }
    let mut i: usize = 0;
    while i < n
        invariant
            n == prefix@.len(),
            n <= s@.len(),
            i <= n,
            forall|j: int| 0 <= j < i ==> s@[j] == prefix@[j],
        decreases n - i,
    {
        if s.get_char(i) != prefix.get_char(i) {
            assert(s@.subrange(0, n as int)[i as int] != prefix@[i as int]);
            return false;
        }
        i = i + 1;
    }
    assert(s@.subrange(0, n as int) =~= prefix@);
    true
}

/// Default gamma exponent for a display, in tenths: 1.8 for Apple HID
/// displays (identities starting with `apple-hid-`), 1.0 for the rest.
pub fn default_gamma_tenths(id: &str) -> (r: u16)
    ensures
        r == if "apple-hid-"@.len() <= id@.len() && id@.subrange(0, "apple-hid-"@.len() as int)
            == "apple-hid-"@ {
            18u16
        } else {
            10u16
        },
{
    if starts_with(id, "apple-hid-") {
        18
    } else {
        10
    }
}

} // verus!
