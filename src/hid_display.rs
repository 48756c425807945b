//! Driver for displays that take brightness over the Apple HID vendor
//! protocol, on top of the hidapi crate.

use vstd::prelude::*;
use vstd::string::StringExecFns;

use crate::apple_hid::{
    brightness_report, brightness_request, report_value, spec_le_u32, spec_native_to_percentage,
    spec_percentage_to_native, spec_report_for, spec_request_bytes, REPORT_ID, REPORT_SIZE,
};
use crate::devices::{
    get_device_spec, is_brightness_interface, lemma_device_table_wf, spec_device_table,
    spec_is_brightness_interface, DeviceSpec,
};
use crate::error::AppError;
use crate::protocols::{
    clamp_to_100, hid_display_id, hid_display_name, spec_hid_display_id, spec_hid_display_name,
    DisplayProtocol,
};

verus! {

#[verifier::external_type_specification]
#[verifier::external_body]
pub struct ExHidApi(hidapi::HidApi);

#[verifier::external_type_specification]
#[verifier::external_body]
pub struct ExHidDevice(hidapi::HidDevice);

#[verifier::external_type_specification]
#[verifier::external_body]
pub struct ExHidError(hidapi::HidError);

/// What enumeration needs to know of one attached HID interface.
#[derive(Debug, Clone)]
pub struct HidInterfaceInfo {
    pub vendor_id: u16,
    pub product_id: u16,
    pub interface_number: i32,
    pub serial_number: Option<String>,
    pub manufacturer: Option<String>,
    pub product: Option<String>,
}

/// Relies on `hidapi::HidApi::new`: opens a hidapi context, which lists the
/// attached HID devices.
#[verifier::external_body]
fn hid_api_new() -> Result<hidapi::HidApi, hidapi::HidError> {
    hidapi::HidApi::new()
}

/// Relies on `hidapi::HidApi::device_list` and the `DeviceInfo` getters:
/// the attached interfaces, in the context's order.
#[verifier::external_body]
fn hid_interfaces(api: &hidapi::HidApi) -> Vec<HidInterfaceInfo> {
    api.device_list().map(|d| HidInterfaceInfo {
        vendor_id: d.vendor_id(),
        product_id: d.product_id(),
        interface_number: d.interface_number(),
        serial_number: d.serial_number().map(|s| s.to_string()),
        manufacturer: d.manufacturer_string().map(|s| s.to_string()),
        product: d.product_string().map(|s| s.to_string()),
    }).collect()
}

/// Relies on `hidapi::DeviceInfo::open_device`: opens the interface at
/// `index` of the context's list (`None` past its end).
#[verifier::external_body]
fn hid_open_nth(api: &hidapi::HidApi, index: usize) -> Option<Result<hidapi::HidDevice, hidapi::HidError>> {
    api.device_list().nth(index).map(|d| d.open_device(api))
}

/// Relies on `hidapi::HidDevice::get_feature_report`: reads the feature
/// report whose id is in `buf[0]` into `buf`.
#[verifier::external_body]
fn hid_get_feature_report(device: &hidapi::HidDevice, buf: &mut [u8; 7]) -> Result<usize, hidapi::HidError> {
    device.get_feature_report(buf)
}

/// Relies on `hidapi::HidDevice::send_feature_report`: sends `data` as a
/// feature report.
#[verifier::external_body]
fn hid_send_feature_report(device: &hidapi::HidDevice, data: &[u8; 7]) -> Result<(), hidapi::HidError> {
    device.send_feature_report(data)
}

/// Relies on hidapi's `Display` for `HidError`: its message.
#[verifier::external_body]
fn hid_error_text(e: &hidapi::HidError) -> String {
    e.to_string()
}

/// The brightness a display reports for a native value read from it.
pub open spec fn read_back(spec: DeviceSpec, v: int) -> int {
    spec_native_to_percentage(spec.min_brightness_value as int, spec.max_brightness_value as int, v)
}

/// The text of an optional string, or `default` where there is none.
pub open spec fn text_or_default(s: Option<String>, default: Seq<char>) -> Seq<char> {
    match s {
        Some(t) => t@,
        None => default,
    }
}

/// Whether an interface is the brightness interface of a supported display.
pub open spec fn is_planned(info: HidInterfaceInfo) -> bool {
    spec_is_brightness_interface(info.vendor_id, info.product_id, info.interface_number)
}

/// A supported display found in the interface list, before it is opened.
#[derive(Debug)]
pub struct HidPlanEntry {
    /// Position of the interface in the list.
    pub index: usize,
    /// The model, from the device table.
    pub spec: DeviceSpec,
    /// Serial number, or `Unknown`.
    pub serial: String,
    /// Manufacturer, or `Apple`.
    pub manufacturer: String,
    /// Product name, or `HID Display`.
    pub product: String,
}

/// `e` is the plan entry for interface `i` of `infos`.
pub open spec fn entry_for(infos: Seq<HidInterfaceInfo>, i: int, e: HidPlanEntry) -> bool {
    &&& e.index == i
    &&& spec_device_table(infos[i].product_id) == Some(e.spec)
    &&& e.serial@ == text_or_default(infos[i].serial_number, "Unknown"@)
    &&& e.manufacturer@ == text_or_default(infos[i].manufacturer, "Apple"@)
    &&& e.product@ == text_or_default(infos[i].product, "HID Display"@)
}

/// `plan` lists, in list order, one entry for each brightness interface of
/// `infos`, and nothing else.
pub open spec fn plan_of(infos: Seq<HidInterfaceInfo>, plan: Seq<HidPlanEntry>) -> bool {
    &&& forall|k: int|
        0 <= k < plan.len() ==> {
            let i = (#[trigger] plan[k]).index as int;
            &&& i < infos.len()
            &&& is_planned(infos[i])
            &&& entry_for(infos, i, plan[k])
        }
    &&& forall|k: int, l: int| 0 <= k < l < plan.len() ==> plan[k].index < plan[l].index
    &&& forall|i: int|
        0 <= i < infos.len() && is_planned(#[trigger] infos[i]) ==> exists|k: int|
            0 <= k < plan.len() && plan[k].index == i
}

/// Display `d` was opened for plan entry `e` and has not been written yet.
pub open spec fn opened_as(d: AppleHidDisplay, e: HidPlanEntry) -> bool {
    &&& d.spec_serial() == e.serial@
    &&& d.spec_manufacturer() == e.manufacturer@
    &&& d.spec_product() == e.product@
    &&& d.spec_device() == e.spec
    &&& d.spec_sent() is None
    &&& d.spec_read() is None
}

/// `displays` are opened for entries of `plan`, one per entry at most, in
/// plan order (entries whose interface could not be opened are missing).
pub open spec fn selected_from(displays: Seq<AppleHidDisplay>, plan: Seq<HidPlanEntry>) -> bool {
    exists|sel: Seq<int>| #[trigger] selects(sel, displays, plan)
}

pub open spec fn selects(sel: Seq<int>, displays: Seq<AppleHidDisplay>, plan: Seq<HidPlanEntry>) -> bool {
    &&& sel.len() == displays.len()
    &&& forall|k: int| 0 <= k < sel.len() ==> 0 <= #[trigger] sel[k] < plan.len()
    &&& forall|k: int, l: int| 0 <= k < l < sel.len() ==> sel[k] < sel[l]
    &&& forall|k: int| 0 <= k < sel.len() ==> opened_as(#[trigger] displays[k], plan[sel[k]])
}

/// Picks the brightness interfaces of supported displays out of a list of
/// attached interfaces, in list order, with their model and names; a missing
/// serial number reads `Unknown`, a missing manufacturer `Apple`, a missing
/// product name `HID Display`.
pub fn plan_hid_displays(infos: &Vec<HidInterfaceInfo>) -> (r: Vec<HidPlanEntry>)
    ensures
        plan_of(infos@, r@),
{
    let mut r: Vec<HidPlanEntry> = Vec::new();
    let mut i: usize = 0;
    while i < infos.len()
        invariant
            i <= infos@.len(),
            forall|k: int|
                0 <= k < r@.len() ==> {
                    let j = (#[trigger] r@[k]).index as int;
                    &&& j < i
                    &&& is_planned(infos@[j])
                    &&& entry_for(infos@, j, r@[k])
                },
            forall|k: int, l: int| 0 <= k < l < r@.len() ==> r@[k].index < r@[l].index,
            forall|x: int|
                0 <= x < i && is_planned(#[trigger] infos@[x]) ==> exists|k: int|
                    0 <= k < r@.len() && r@[k].index == x,
        decreases infos.len() - i,
    {
        let info = &infos[i];
        if is_brightness_interface(info.vendor_id, info.product_id, info.interface_number) {
            if let Some(spec) = get_device_spec(info.product_id) {
                let ghost before = r@;
                r.push(
                    HidPlanEntry {
                        index: i,
                        spec,
                        serial: text_or(&info.serial_number, "Unknown"),
                        manufacturer: text_or(&info.manufacturer, "Apple"),
                        product: text_or(&info.product, "HID Display"),
                    },
                );
                proof {
                    assert forall|x: int|
                        0 <= x <= i && is_planned(#[trigger] infos@[x]) implies exists|k: int|
                            0 <= k < r@.len() && r@[k].index == x by {
                        if x < i {
                            let k = choose|k: int| 0 <= k < before.len() && before[k].index == x;
                            assert(r@[k] == before[k]);
                        } else {
                            assert(r@[before.len() as int].index == x);
                        }
                    }
                    assert forall|k: int|
                        0 <= k < r@.len() implies {
                            let j = (#[trigger] r@[k]).index as int;
                            &&& j < i + 1
                            &&& is_planned(infos@[j])
                            &&& entry_for(infos@, j, r@[k])
                        } by {
                        if k < before.len() {
                            assert(r@[k] == before[k]);
                        }
                    }
                }
            }
        }
        i = i + 1;
    }
    r
}

/// An open Apple HID display.
pub struct AppleHidDisplay {
    device: hidapi::HidDevice,
    serial: String,
    manufacturer: String,
    product: String,
    spec: DeviceSpec,
    /// The percentage and the report of the last successful write.
    sent: Ghost<Option<(u16, Seq<u8>)>>,
    /// The request and the answer of the last successful read.
    read: Ghost<Option<(Seq<u8>, Seq<u8>)>>,
}

impl AppleHidDisplay {
    pub closed spec fn spec_serial(&self) -> Seq<char> {
        self.serial@
    }

    pub closed spec fn spec_manufacturer(&self) -> Seq<char> {
        self.manufacturer@
    }

    pub closed spec fn spec_product(&self) -> Seq<char> {
        self.product@
    }

    pub closed spec fn spec_device(&self) -> DeviceSpec {
        self.spec
    }

    /// The clamped percentage and the feature report of the last successful
    /// write, if any.
    pub closed spec fn spec_sent(&self) -> Option<(u16, Seq<u8>)> {
        self.sent@
    }

    /// The request sent and the report received by the last successful read,
    /// if any.
    pub closed spec fn spec_read(&self) -> Option<(Seq<u8>, Seq<u8>)> {
        self.read@
    }

    /// The model's protocol range is non-empty.
    pub open spec fn wf(&self) -> bool {
        self.spec_device().wf()
    }

    /// The same display, apart from what was last written.
    pub open spec fn same_display(&self, other: &AppleHidDisplay) -> bool {
        &&& self.spec_serial() == other.spec_serial()
        &&& self.spec_manufacturer() == other.spec_manufacturer()
        &&& self.spec_product() == other.spec_product()
        &&& self.spec_device() == other.spec_device()
    }

    /// The last successful read sent the brightness request and got an
    /// answer whose native value reads back as `p`.
    pub open spec fn read_gives(&self, p: u16) -> bool {
        match self.spec_read() {
            Some((request, answer)) => {
                &&& request == spec_request_bytes()
                &&& answer.len() == REPORT_SIZE
                &&& p == read_back(
                    self.spec_device(),
                    spec_le_u32(answer[1], answer[2], answer[3], answer[4]),
                )
            },
            None => false,
        }
    }

    /// Wraps an open device of a model of the table.
    pub fn new(device: hidapi::HidDevice, serial: String, manufacturer: String, product: String, spec: DeviceSpec) -> (r: Self)
        ensures
            r.spec_serial() == serial@,
            r.spec_manufacturer() == manufacturer@,
            r.spec_product() == product@,
            r.spec_device() == spec,
            r.spec_sent() is None,
            r.spec_read() is None,
    {
        AppleHidDisplay { device, serial, manufacturer, product, spec, sent: Ghost(None), read: Ghost(None) }
    }

    /// The model's specification.
    pub fn device_spec(&self) -> (r: DeviceSpec)
        ensures
            r == self.spec_device(),
    {
        self.spec
    }

    /// Identity of the display: `apple-hid-<serial>`.
    pub fn display_id(&self) -> (r: String)
        ensures
            r@ == spec_hid_display_id(self.spec_serial()),
    {
        hid_display_id(self.serial.as_str())
    }

    /// Name of the display: manufacturer and product.
    pub fn display_name(&self) -> (r: String)
        ensures
            r@ == spec_hid_display_name(self.spec_manufacturer(), self.spec_product()),
    {
        hid_display_name(self.manufacturer.as_str(), self.product.as_str())
    }

    /// Opens the interfaces of a plan, in plan order; an interface that
    /// cannot be opened (often a permissions problem) is skipped.
    pub fn open_planned(api: &hidapi::HidApi, plan: &Vec<HidPlanEntry>) -> (r: Vec<AppleHidDisplay>)
        ensures
            selected_from(r@, plan@),
    {
        let mut opened: Vec<Option<hidapi::HidDevice>> = Vec::new();
        let mut k: usize = 0;
        while k < plan.len()
            invariant
                k <= plan@.len(),
                opened@.len() == k,
            decreases plan.len() - k,
        {
            let device = match hid_open_nth(api, plan[k].index) {
                Some(Ok(device)) => Some(device),
                _ => None,
            };
            opened.push(device);
            k = k + 1;
        }
        AppleHidDisplay::displays_from(plan, opened)
    }

    /// Turns the outcome of opening each plan entry (`None` where it failed)
    /// into displays: exactly one per opened entry, in plan order.
    pub fn displays_from(plan: &Vec<HidPlanEntry>, opened: Vec<Option<hidapi::HidDevice>>) -> (r: Vec<
        AppleHidDisplay,
    >)
        requires
            opened@.len() == plan@.len(),
        ensures
            exists|sel: Seq<int>|
                #[trigger] selects(sel, r@, plan@) && forall|k: int|
                    0 <= k < plan@.len() ==> ((#[trigger] opened@[k]) is Some <==> sel.contains(k)),
    {
        let ghost ov = opened@;
        let mut displays: Vec<AppleHidDisplay> = Vec::new();
        let ghost mut sel: Seq<int> = Seq::empty();
        let mut pending = opened;
        let mut k: usize = 0;
        while k < plan.len()
            invariant
                k <= plan@.len(),
                ov.len() == plan@.len(),
                pending@ == ov.skip(k as int),
                selects(sel, displays@, plan@),
                forall|j: int| 0 <= j < sel.len() ==> #[trigger] sel[j] < k,
                forall|x: int| 0 <= x < k ==> ((#[trigger] ov[x]) is Some <==> sel.contains(x)),
            decreases plan.len() - k,
        {
            let slot = pending.remove(0);
            proof {
                assert(ov[k as int] == slot);
                assert(pending@ =~= ov.skip(k as int + 1));
            }
            let ghost sel0 = sel;
            match slot {
                Some(device) => {
                    let e = &plan[k];
                    let d = AppleHidDisplay::new(device, e.serial.clone(), e.manufacturer.clone(), e.product.clone(), e.spec);
                    let ghost before = displays@;
                    displays.push(d);
                    proof {
                        sel = sel.push(k as int);
                        assert forall|j: int| 0 <= j < sel.len() implies opened_as(#[trigger] displays@[j], plan@[sel[j]]) by {
                            if j < sel0.len() {
                                assert(displays@[j] == before[j]);
                                assert(sel[j] == sel0[j]);
                            }
                        }
                        assert forall|a: int, b: int| 0 <= a < b < sel.len() implies sel[a] < sel[b] by {
                            assert(sel[a] == sel0[a]);
                            if b < sel0.len() {
                                assert(sel[b] == sel0[b]);
                            }
                        }
                        assert forall|j: int| 0 <= j < sel.len() implies 0 <= #[trigger] sel[j] < plan@.len()
                            && sel[j] < k + 1 by {
                            if j < sel0.len() {
                                assert(sel[j] == sel0[j]);
                            }
                        }
                        assert forall|x: int| 0 <= x < k + 1 implies ((#[trigger] ov[x]) is Some <==> sel.contains(x)) by {
                            if x < k {
                                if sel0.contains(x) {
                                    let j = choose|j: int| 0 <= j < sel0.len() && sel0[j] == x;
                                    assert(sel[j] == x);
                                }
                                if sel.contains(x) {
                                    let j = choose|j: int| 0 <= j < sel.len() && sel[j] == x;
                                    if j < sel0.len() {
                                        assert(sel0[j] == x);
                                    }
                                }
                            } else {
                                assert(sel[sel0.len() as int] == x);
                            }
                        }
                    }
                },
                None => {
                    proof {
                        assert forall|x: int| 0 <= x < k + 1 implies ((#[trigger] ov[x]) is Some <==> sel.contains(x)) by {
                            if x == k && sel.contains(x) {
                                let j = choose|j: int| 0 <= j < sel.len() && sel[j] == x;
                                assert(sel[j] < k);
                            }
                        }
                    }
                },
            }
            k = k + 1;
        }
        displays
    }

    /// Opens every attached interface that is the brightness interface of a
    /// supported display (see [`plan_hid_displays`] and
    /// [`AppleHidDisplay::open_planned`]).
    pub fn enumerate(api: &hidapi::HidApi) -> (r: Vec<AppleHidDisplay>)
        ensures
            exists|infos: Seq<HidInterfaceInfo>, plan: Seq<HidPlanEntry>|
                #[trigger] plan_of(infos, plan) && selected_from(r@, plan),
            forall|i: int| 0 <= i < r@.len() ==> (#[trigger] r@[i]).wf(),
    {
        let infos = hid_interfaces(api);
        let plan = plan_hid_displays(&infos);
        let r = AppleHidDisplay::open_planned(api, &plan);
        proof {
            assert(plan_of(infos@, plan@) && selected_from(r@, plan@));
            lemma_selected_wf(infos@, plan@, r@);
        }
        r
    }

    /// Opens a hidapi context and enumerates the supported displays; no
    /// display when the context cannot be opened.
    pub fn enumerate_all() -> (r: Vec<AppleHidDisplay>)
        ensures
            exists|infos: Seq<HidInterfaceInfo>, plan: Seq<HidPlanEntry>|
                #[trigger] plan_of(infos, plan) && selected_from(r@, plan),
            forall|i: int| 0 <= i < r@.len() ==> (#[trigger] r@[i]).wf(),
    {
        match hid_api_new() {
            Ok(api) => AppleHidDisplay::enumerate(&api),
            Err(_) => {
                let r: Vec<AppleHidDisplay> = Vec::new();
                proof {
                    let none = Seq::<HidInterfaceInfo>::empty();
                    let empty = Seq::<HidPlanEntry>::empty();
                    assert(selects(Seq::<int>::empty(), r@, empty));
                    assert(plan_of(none, empty) && selected_from(r@, empty));
                }
                r
            },
        }
    }

    /// Reads the brightness: sends a request carrying the report id, reads
    /// the native value from bytes 1 to 4 of the answer (little-endian) and
    /// converts it to a percentage of the model's range.
    pub fn read_brightness(&mut self) -> (r: Result<u16, AppError>)
        ensures
            final(self).same_display(old(self)),
            final(self).spec_sent() == old(self).spec_sent(),
            r matches Ok(p) ==> p <= 100 && final(self).read_gives(p),
            r is Err ==> final(self).spec_read() == old(self).spec_read(),
            r matches Err(e) ==> (e matches AppError::AppleHid { id, .. } && id@ == spec_hid_display_id(
                old(self).spec_serial(),
            )),
    {
        let mut buf = brightness_request();
        let ghost request = buf@;
        match hid_get_feature_report(&self.device, &mut buf) {
            Ok(_) => {
                let value = report_value(&buf);
                let p = self.spec.protocol_value_to_percentage(value);
                self.read = Ghost(Some((request, buf@)));
                Ok(p)
            },
            Err(e) => Err(self.error(&e)),
        }
    }

    /// Sets the brightness: the percentage, clamped to 100, is scaled to the
    /// model's range (rounding down) and sent as one feature report.
    pub fn set_brightness_direct(&mut self, percentage: u16) -> (r: Result<(), AppError>)
        ensures
            final(self).same_display(old(self)),
            final(self).spec_read() == old(self).spec_read(),
            r is Ok ==> final(self).spec_sent() == Some(
                (clamp_to_100(percentage), spec_report_for(old(self).spec_device(), percentage)),
            ),
            r is Err ==> final(self).spec_sent() == old(self).spec_sent(),
            r matches Err(e) ==> (e matches AppError::AppleHid { id, .. } && id@ == spec_hid_display_id(
                old(self).spec_serial(),
            )),
    {
        let report = brightness_report_for(&self.spec, percentage);
        match hid_send_feature_report(&self.device, &report) {
            Ok(()) => {
                let p: u16 = if percentage > 100 {
                    100
                } else {
                    percentage
                };
                self.sent = Ghost(Some((p, report@)));
                Ok(())
            },
            Err(e) => Err(self.error(&e)),
        }
    }

    fn error(&self, e: &hidapi::HidError) -> (r: AppError)
        ensures
            r matches AppError::AppleHid { id, .. } && id@ == spec_hid_display_id(self.spec_serial()),
    {
        AppError::AppleHid { id: hid_display_id(self.serial.as_str()), reason: hid_error_text(e) }
    }
}

/// Displays opened from a plan have a model of the table with a non-empty
/// range.
proof fn lemma_selected_wf(infos: Seq<HidInterfaceInfo>, plan: Seq<HidPlanEntry>, r: Seq<AppleHidDisplay>)
    requires
        plan_of(infos, plan),
        selected_from(r, plan),
    ensures
        forall|i: int| 0 <= i < r.len() ==> (#[trigger] r[i]).wf(),
{
    let sel = choose|sel: Seq<int>| #[trigger] selects(sel, r, plan);
    assert forall|i: int| 0 <= i < r.len() implies (#[trigger] r[i]).wf() by {
        let k = sel[i];
        assert(opened_as(r[i], plan[k]));
        let j = plan[k].index as int;
        lemma_device_table_wf(infos[j].product_id);
    }
}

/// The feature report that sets `percentage` on a display of model `spec`.
pub fn brightness_report_for(spec: &DeviceSpec, percentage: u16) -> (r: [u8; 7])
    ensures
        r@ == spec_report_for(*spec, percentage),
        r@[0] == REPORT_ID,
        spec_le_u32(r@[1], r@[2], r@[3], r@[4]) == spec_percentage_to_native(
            spec.min_brightness_value as int,
            spec.max_brightness_value as int,
            percentage as int,
        ),
        r@[5] == 0 && r@[6] == 0,
{
    brightness_report(spec.percentage_to_protocol_value(percentage))
}

/// The text of `s`, or `default` where there is none.
fn text_or(s: &Option<String>, default: &str) -> (r: String)
    ensures
        r@ == text_or_default(*s, default@),
{
    match s {
        Some(t) => t.clone(),
        None => String::from_str(default),
    }
}

impl DisplayProtocol for AppleHidDisplay {
    open spec fn modelled(&self) -> bool {
        true
    }

    open spec fn spec_id(&self) -> Seq<char> {
        spec_hid_display_id(self.spec_serial())
    }

    open spec fn last_written(&self) -> Option<u16> {
        match self.spec_sent() {
            Some(s) => Some(s.0),
            None => None,
        }
    }

    open spec fn last_report(&self) -> Option<Seq<u8>> {
        match self.spec_sent() {
            Some(s) => Some(s.1),
            None => None,
        }
    }

    /// The model's feature report for the value.
    open spec fn wire_report(&self, value: u16) -> Seq<u8> {
        spec_report_for(self.spec_device(), value)
    }

    open spec fn read_explains(&self, v: u16) -> bool {
        self.read_gives(v)
    }

    fn id(&self) -> (r: String) {
        self.display_id()
    }

    fn name(&self) -> String {
        self.display_name()
    }

    fn get_brightness(&mut self) -> (r: Result<u16, AppError>) {
        self.read_brightness()
    }

    fn set_brightness(&mut self, value: u16) -> (r: Result<(), AppError>) {
        self.set_brightness_direct(value)
    }
}

} // verus!
