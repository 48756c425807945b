//! Table of the USB displays that speak the Apple HID brightness protocol.

use vstd::prelude::*;

verus! {

/// USB vendor id of Apple.
pub const APPLE_VENDOR_ID: u16 = 0x05ac;

/// USB vendor id of LG.
pub const LG_VENDOR_ID: u16 = 0x043e;

/// USB product id of the Apple Studio Display.
pub const STUDIO_DISPLAY_PRODUCT_ID: u16 = 0x1114;

/// USB product id of the Apple Pro Display XDR.
pub const PRO_DISPLAY_XDR_PRODUCT_ID: u16 = 0x9243;

/// USB product id of the LG UltraFine 4K (23.7").
pub const ULTRAFINE_4K_PRODUCT_ID: u16 = 0x9a63;

/// USB product id of the LG UltraFine 5K.
pub const ULTRAFINE_5K_PRODUCT_ID: u16 = 0x9a70;

/// USB interface that carries the brightness feature report.
pub const HID_INTERFACE_NUMBER: i32 = 7;

/// Display communication protocol.
#[derive(Debug, Clone, Copy, PartialEq, Eq, Structural)]
pub enum Protocol {
    /// Apple HID vendor protocol (Apple displays and the LG UltraFine line).
    AppleHid,
    /// DDC/CI over the video cable's I2C bus.
    DdcCi,
}

/// What the library knows of one supported HID display model.
#[derive(Debug, Clone, Copy)]
pub struct DeviceSpec {
    pub product_id: u16,
    pub vendor_id: u16,
    pub protocol: Protocol,
    /// Human-readable model name.
    pub name: &'static str,
    /// Lowest brightness value of the protocol (raw units, not nits).
    pub min_brightness_value: u32,
    /// Highest brightness value of the protocol (raw units, not nits).
    pub max_brightness_value: u32,
    /// Peak brightness in nits, for information only.
    pub actual_brightness_nits: u16,
    /// Default gamma exponent of the model, in tenths (18 stands for 1.8).
    pub default_gamma_tenths: u16,
}

impl DeviceSpec {
    /// The protocol range is a non-empty interval.
    pub open spec fn wf(&self) -> bool {
        self.min_brightness_value < self.max_brightness_value
    }

    /// Width of the protocol range (max - min).
    pub fn brightness_range(&self) -> (r: u32)
        requires
            self.min_brightness_value <= self.max_brightness_value,
        ensures
            r == self.max_brightness_value - self.min_brightness_value,
    {
        self.max_brightness_value - self.min_brightness_value
    }
}

pub open spec fn studio_display_spec() -> DeviceSpec {
    DeviceSpec {
        product_id: STUDIO_DISPLAY_PRODUCT_ID,
        vendor_id: APPLE_VENDOR_ID,
        protocol: Protocol::AppleHid,
        name: "Apple Studio Display",
        min_brightness_value: 400,
        max_brightness_value: 60000,
        actual_brightness_nits: 600,
        default_gamma_tenths: 18,
    }
}

pub open spec fn pro_display_xdr_spec() -> DeviceSpec {
    DeviceSpec {
        product_id: PRO_DISPLAY_XDR_PRODUCT_ID,
        vendor_id: APPLE_VENDOR_ID,
        protocol: Protocol::AppleHid,
        name: "Apple Pro Display XDR",
        min_brightness_value: 400,
        max_brightness_value: 50000,
        actual_brightness_nits: 1600,
        default_gamma_tenths: 18,
    }
}

pub open spec fn ultrafine_4k_spec() -> DeviceSpec {
    DeviceSpec {
        product_id: ULTRAFINE_4K_PRODUCT_ID,
        vendor_id: LG_VENDOR_ID,
        protocol: Protocol::AppleHid,
        name: "LG UltraFine 4K Display",
        min_brightness_value: 400,
        max_brightness_value: 50000,
        actual_brightness_nits: 500,
        default_gamma_tenths: 18,
    }
}

pub open spec fn ultrafine_5k_spec() -> DeviceSpec {
    DeviceSpec {
        product_id: ULTRAFINE_5K_PRODUCT_ID,
        vendor_id: LG_VENDOR_ID,
        protocol: Protocol::AppleHid,
        name: "LG UltraFine 5K Display",
        min_brightness_value: 400,
        max_brightness_value: 50000,
        actual_brightness_nits: 500,
        default_gamma_tenths: 18,
    }
}

/// The device table, by USB product id.
pub open spec fn spec_device_table(product_id: u16) -> Option<DeviceSpec> {
    if product_id == STUDIO_DISPLAY_PRODUCT_ID {
        Some(studio_display_spec())
    } else if product_id == PRO_DISPLAY_XDR_PRODUCT_ID {
        Some(pro_display_xdr_spec())
    } else if product_id == ULTRAFINE_4K_PRODUCT_ID {
        Some(ultrafine_4k_spec())
    } else if product_id == ULTRAFINE_5K_PRODUCT_ID {
        Some(ultrafine_5k_spec())
    } else {
        None
    }
}

/// Every entry of the table has a non-empty protocol range and the product id
/// it is filed under.
pub proof fn lemma_device_table_wf(product_id: u16)
    ensures
        spec_device_table(product_id) matches Some(s) ==> s.wf() && s.product_id == product_id
            && s.protocol == Protocol::AppleHid,
{
}

/// Looks up the specification of a supported model by USB product id.
pub fn get_device_spec(product_id: u16) -> (r: Option<DeviceSpec>)
    ensures
        r == spec_device_table(product_id),
{
    if product_id == STUDIO_DISPLAY_PRODUCT_ID {
        Some(
            DeviceSpec {
                product_id: STUDIO_DISPLAY_PRODUCT_ID,
                vendor_id: APPLE_VENDOR_ID,
                protocol: Protocol::AppleHid,
                name: "Apple Studio Display",
                min_brightness_value: 400,
                max_brightness_value: 60000,
                actual_brightness_nits: 600,
                default_gamma_tenths: 18,
            },
        )
    } else if product_id == PRO_DISPLAY_XDR_PRODUCT_ID {
        Some(
            DeviceSpec {
                product_id: PRO_DISPLAY_XDR_PRODUCT_ID,
                vendor_id: APPLE_VENDOR_ID,
                protocol: Protocol::AppleHid,
                name: "Apple Pro Display XDR",
                min_brightness_value: 400,
                max_brightness_value: 50000,
                actual_brightness_nits: 1600,
                default_gamma_tenths: 18,
            },
        )
    } else if product_id == ULTRAFINE_4K_PRODUCT_ID {
        Some(
            DeviceSpec {
                product_id: ULTRAFINE_4K_PRODUCT_ID,
                vendor_id: LG_VENDOR_ID,
                protocol: Protocol::AppleHid,
                name: "LG UltraFine 4K Display",
                min_brightness_value: 400,
                max_brightness_value: 50000,
                actual_brightness_nits: 500,
                default_gamma_tenths: 18,
            },
        )
    } else if product_id == ULTRAFINE_5K_PRODUCT_ID {
        Some(
            DeviceSpec {
                product_id: ULTRAFINE_5K_PRODUCT_ID,
                vendor_id: LG_VENDOR_ID,
                protocol: Protocol::AppleHid,
                name: "LG UltraFine 5K Display",
                min_brightness_value: 400,
                max_brightness_value: 50000,
                actual_brightness_nits: 500,
                default_gamma_tenths: 18,
            },
        )
    } else {
        None
    }
}

/// The product ids of the table, in table order.
pub open spec fn spec_supported_product_ids() -> Seq<u16> {
    seq![
        STUDIO_DISPLAY_PRODUCT_ID,
        PRO_DISPLAY_XDR_PRODUCT_ID,
        ULTRAFINE_4K_PRODUCT_ID,
        ULTRAFINE_5K_PRODUCT_ID,
    ]
}

/// All supported USB product ids.
pub fn supported_product_ids() -> (r: Vec<u16>)
    ensures
        r@ == spec_supported_product_ids(),
        forall|p: u16| r@.contains(p) <==> spec_device_table(p).is_some(),
{
    let r = vec![
        STUDIO_DISPLAY_PRODUCT_ID,
        PRO_DISPLAY_XDR_PRODUCT_ID,
        ULTRAFINE_4K_PRODUCT_ID,
        ULTRAFINE_5K_PRODUCT_ID,
    ];
    assert forall|p: u16| r@.contains(p) <==> spec_device_table(p).is_some() by {
        if spec_device_table(p).is_some() {
            if p == STUDIO_DISPLAY_PRODUCT_ID {
                assert(r@[0] == p);
            } else if p == PRO_DISPLAY_XDR_PRODUCT_ID {
                assert(r@[1] == p);
            } else if p == ULTRAFINE_4K_PRODUCT_ID {
                assert(r@[2] == p);
            } else {
                assert(r@[3] == p);
            }
        }
    }
    r
}

/// Whether a USB HID interface is the brightness interface of a supported
/// display: Apple or LG vendor, a product of the table, interface 7.
pub open spec fn spec_is_brightness_interface(vendor_id: u16, product_id: u16, interface: i32) -> bool {
    (vendor_id == APPLE_VENDOR_ID || vendor_id == LG_VENDOR_ID)
        && spec_device_table(product_id).is_some()
        && interface == HID_INTERFACE_NUMBER
}

/// Decides whether an attached HID interface belongs to a supported display.
pub fn is_brightness_interface(vendor_id: u16, product_id: u16, interface: i32) -> (r: bool)
    ensures
        r == spec_is_brightness_interface(vendor_id, product_id, interface),
{
    let ids = supported_product_ids();
    let mut found = false;
    let mut i: usize = 0;
    while i < ids.len()
        invariant
            forall|p: u16| ids@.contains(p) <==> spec_device_table(p).is_some(),
            i <= ids.len(),
            found == exists|j: int| 0 <= j < i && ids@[j] == product_id,
        decreases ids.len() - i,
    {
        if ids[i] == product_id {
            found = true;
        }
        i = i + 1;
    }
    (vendor_id == APPLE_VENDOR_ID || vendor_id == LG_VENDOR_ID) && found
        && interface == HID_INTERFACE_NUMBER
}

} // verus!
