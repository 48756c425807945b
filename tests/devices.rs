use monitor_brightness::apple_hid::{brightness_report, brightness_request, report_value, REPORT_ID};
use monitor_brightness::devices::{
    get_device_spec, is_brightness_interface, supported_product_ids, DeviceSpec, Protocol, APPLE_VENDOR_ID,
    LG_VENDOR_ID, PRO_DISPLAY_XDR_PRODUCT_ID, STUDIO_DISPLAY_PRODUCT_ID,
};
use monitor_brightness::hid_display::{brightness_report_for, plan_hid_displays, AppleHidDisplay, HidInterfaceInfo};
use monitor_brightness::protocols::hid_display_id;

#[test]
fn test_studio_display_protocol_values() {
    let spec = get_device_spec(STUDIO_DISPLAY_PRODUCT_ID).unwrap();
    assert_eq!(spec.min_brightness_value, 400);
    assert_eq!(spec.max_brightness_value, 60000);
    assert_eq!(spec.brightness_range(), 59600);
}

#[test]
fn test_pro_display_xdr_protocol_values() {
    let spec = get_device_spec(PRO_DISPLAY_XDR_PRODUCT_ID).unwrap();
    assert_eq!(spec.min_brightness_value, 400);
    assert_eq!(spec.max_brightness_value, 50000);
    assert_eq!(spec.brightness_range(), 49600);
}

#[test]
fn test_device_spec_lookup() {
    let studio_spec = get_device_spec(0x1114).expect("Studio Display spec not found");
    assert_eq!(studio_spec.product_id, 0x1114);
    assert_eq!(studio_spec.vendor_id, 0x05ac);
    assert_eq!(studio_spec.protocol, Protocol::AppleHid);
    assert_eq!(studio_spec.name, "Apple Studio Display");
    assert_eq!(studio_spec.max_brightness_value, 60000);

    let xdr_spec = get_device_spec(0x9243).expect("Pro Display XDR spec not found");
    assert_eq!(xdr_spec.product_id, 0x9243);
    assert_eq!(xdr_spec.vendor_id, 0x05ac);
    assert_eq!(xdr_spec.protocol, Protocol::AppleHid);
    assert_eq!(xdr_spec.name, "Apple Pro Display XDR");
    assert_eq!(xdr_spec.max_brightness_value, 50000);

    let lg_4k_spec = get_device_spec(0x9a63).expect("LG UltraFine 4K spec not found");
    assert_eq!(lg_4k_spec.product_id, 0x9a63);
    assert_eq!(lg_4k_spec.vendor_id, 0x043e);
    assert_eq!(lg_4k_spec.protocol, Protocol::AppleHid);
    assert_eq!(lg_4k_spec.name, "LG UltraFine 4K Display");
    assert_eq!(lg_4k_spec.max_brightness_value, 50000);

    let lg_5k_spec = get_device_spec(0x9a70).expect("LG UltraFine 5K spec not found");
    assert_eq!(lg_5k_spec.product_id, 0x9a70);
    assert_eq!(lg_5k_spec.vendor_id, 0x043e);
    assert_eq!(lg_5k_spec.protocol, Protocol::AppleHid);
    assert_eq!(lg_5k_spec.name, "LG UltraFine 5K Display");
    assert_eq!(lg_5k_spec.max_brightness_value, 50000);

    assert!(get_device_spec(0xFFFF).is_none());
}

#[test]
fn test_supported_product_ids() {
    let ids = supported_product_ids();
    assert!(ids.contains(&0x1114));
    assert!(ids.contains(&0x9243));
    assert!(ids.contains(&0x9a63));
    assert!(ids.contains(&0x9a70));
    assert_eq!(ids.len(), 4);
}

#[test]
fn brightness_interface_needs_vendor_product_and_interface() {
    assert!(is_brightness_interface(APPLE_VENDOR_ID, 0x1114, 7));
    assert!(is_brightness_interface(LG_VENDOR_ID, 0x9a70, 7));
    assert!(!is_brightness_interface(APPLE_VENDOR_ID, 0x1114, 0));
    assert!(!is_brightness_interface(0x1234, 0x1114, 7));
    assert!(!is_brightness_interface(APPLE_VENDOR_ID, 0xFFFF, 7));
}

#[test]
fn percentage_to_native_on_studio_display() {
    let spec = get_device_spec(STUDIO_DISPLAY_PRODUCT_ID).unwrap();
    assert_eq!(spec.percentage_to_protocol_value(0), 400);
    assert_eq!(spec.percentage_to_protocol_value(50), 30200);
    assert_eq!(spec.percentage_to_protocol_value(100), 60000);
    // Above 100 is taken as 100.
    assert_eq!(spec.percentage_to_protocol_value(250), 60000);
}

#[test]
fn native_to_percentage_clamps_and_rounds_down() {
    let spec = get_device_spec(STUDIO_DISPLAY_PRODUCT_ID).unwrap();
    assert_eq!(spec.protocol_value_to_percentage(0), 0);
    assert_eq!(spec.protocol_value_to_percentage(400), 0);
    assert_eq!(spec.protocol_value_to_percentage(30200), 50);
    // 30600 * 100 / 59600 = 51.3...
    assert_eq!(spec.protocol_value_to_percentage(31000), 51);
    assert_eq!(spec.protocol_value_to_percentage(60000), 100);
    assert_eq!(spec.protocol_value_to_percentage(u32::MAX), 100);
}

#[test]
fn native_round_trip_stays_within_one_step() {
    for pid in supported_product_ids() {
        let spec = get_device_spec(pid).unwrap();
        let step = spec.brightness_range() / 100;
        let mut v = spec.min_brightness_value;
        while v <= spec.max_brightness_value {
            let back = spec.percentage_to_protocol_value(spec.protocol_value_to_percentage(v));
            assert!(back <= v);
            assert!(v - back <= step);
            v += 97;
        }
    }
}

#[test]
fn percentage_round_trip_is_exact_on_table_models() {
    for pid in supported_product_ids() {
        let spec = get_device_spec(pid).unwrap();
        for p in 0..=100u16 {
            assert_eq!(spec.protocol_value_to_percentage(spec.percentage_to_protocol_value(p)), p);
        }
    }
}

#[test]
fn writing_the_same_percentage_twice_reads_back_the_same() {
    let spec = get_device_spec(PRO_DISPLAY_XDR_PRODUCT_ID).unwrap();
    let first = brightness_report_for(&spec, 60);
    let second = brightness_report_for(&spec, 60);
    assert_eq!(first, second);
    let read_once = spec.protocol_value_to_percentage(report_value(&first));
    let read_twice = spec.protocol_value_to_percentage(report_value(&second));
    assert_eq!(read_once, 60);
    assert_eq!(read_once, read_twice);
}

#[test]
fn feature_report_layout() {
    // 30200 = 0x75F8, little-endian after the report id.
    assert_eq!(brightness_report(30200), [1, 0xF8, 0x75, 0, 0, 0, 0]);
    assert_eq!(report_value(&brightness_report(0x0102_0304)), 0x0102_0304);
    let request = brightness_request();
    assert_eq!(request[0], REPORT_ID);
    assert_eq!(report_value(&request), 0);
    let spec = get_device_spec(STUDIO_DISPLAY_PRODUCT_ID).unwrap();
    assert_eq!(brightness_report_for(&spec, 100), brightness_report(60000));
}

fn interface(vendor: u16, product: u16, number: i32, serial: Option<&str>) -> HidInterfaceInfo {
    HidInterfaceInfo {
        vendor_id: vendor,
        product_id: product,
        interface_number: number,
        serial_number: serial.map(|s| s.to_string()),
        manufacturer: None,
        product: Some("Studio Display".to_string()),
    }
}

#[test]
fn plan_keeps_supported_brightness_interfaces_in_order() {
    let infos = vec![
        interface(APPLE_VENDOR_ID, 0x1114, 0, Some("A")),
        interface(APPLE_VENDOR_ID, 0x1114, 7, Some("B")),
        interface(0x1234, 0x1114, 7, Some("C")),
        interface(LG_VENDOR_ID, 0x9a70, 7, None),
        interface(APPLE_VENDOR_ID, 0xFFFF, 7, Some("D")),
    ];
    let plan = plan_hid_displays(&infos);
    assert_eq!(plan.iter().map(|e| e.index).collect::<Vec<_>>(), vec![1, 3]);
    assert_eq!(plan[0].serial, "B");
    assert_eq!(plan[0].spec.name, "Apple Studio Display");
    assert_eq!(plan[0].manufacturer, "Apple");
    assert_eq!(plan[0].product, "Studio Display");
    assert_eq!(plan[1].serial, "Unknown");
    assert_eq!(plan[1].spec.name, "LG UltraFine 5K Display");
    assert_eq!(hid_display_id(&plan[1].serial), "apple-hid-Unknown");
    assert!(plan_hid_displays(&vec![]).is_empty());
}

#[test]
fn studio_display_write_reports() {
    let spec = get_device_spec(STUDIO_DISPLAY_PRODUCT_ID).unwrap();
    assert_eq!(brightness_report_for(&spec, 50), [0x01, 0xF8, 0x75, 0x00, 0x00, 0x00, 0x00]);
    assert_eq!(brightness_report_for(&spec, 200), [0x01, 0x60, 0xEA, 0x00, 0x00, 0x00, 0x00]);
}

#[test]
fn displays_only_for_opened_entries() {
    let infos = vec![interface(APPLE_VENDOR_ID, 0x1114, 7, Some("B")), interface(LG_VENDOR_ID, 0x9a63, 7, None)];
    let plan = plan_hid_displays(&infos);
    assert_eq!(plan.len(), 2);
    let displays = AppleHidDisplay::displays_from(&plan, vec![None, None]);
    assert!(displays.is_empty());
}

#[test]
fn percentage_round_trip_on_an_odd_range() {
    let spec = DeviceSpec {
        product_id: 0,
        vendor_id: 0,
        protocol: Protocol::AppleHid,
        name: "Odd",
        min_brightness_value: 10,
        max_brightness_value: 160,
        actual_brightness_nits: 0,
        default_gamma_tenths: 10,
    };
    for p in 0..=100u16 {
        let back = spec.protocol_value_to_percentage(spec.percentage_to_protocol_value(p));
        assert!(back <= p && back + 1 >= p);
    }
    assert_eq!(spec.percentage_to_protocol_value(100), 160);
    assert_eq!(spec.protocol_value_to_percentage(10), 0);
}
