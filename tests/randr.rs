use monitor_brightness::monitor::MonitorInfo;
use monitor_brightness::randr::{
    clean_model, enrich_snapshots, find_matching_output, find_matching_output_with_serial,
    find_output_by_make_model, format_display_name, maker_of, map_transform_to_randr, serial_for,
    DisplayMode, OutputInfo,
};

fn output(connector: &str, make: Option<&str>, model: &str, serial: Option<&str>, enabled: bool) -> OutputInfo {
    OutputInfo {
        connector_name: connector.to_string(),
        make: make.map(|m| m.to_string()),
        model: model.to_string(),
        serial_number: serial.map(|s| s.to_string()),
        enabled,
        physical_size: (600, 330),
        position: (0, 0),
        scale_hundredths: 200,
        transform: "normal".to_string(),
        current_mode: Some(DisplayMode { width: 5120, height: 2880, refresh_rate: 60000 }),
    }
}

fn create_test_outputs() -> Vec<OutputInfo> {
    vec![
        output("DP-2", Some("Apple Computer Inc"), "StudioDisplay", Some("0x112E647C"), false),
        output("DP-3", Some("Apple Computer Inc"), "StudioDisplay", Some("0x112E647D"), true),
    ]
}

#[test]
fn test_exact_model_match() {
    let outputs = create_test_outputs();
    let result = find_matching_output("StudioDisplay", &outputs);
    assert!(result.is_some());
}

#[test]
fn test_case_insensitive_match() {
    let outputs = create_test_outputs();
    let result = find_matching_output("studiodisplay", &outputs);
    assert!(result.is_some());
}

#[test]
fn test_partial_match() {
    let outputs = create_test_outputs();
    let result = find_matching_output("Studio", &outputs);
    assert!(result.is_some());
}

#[test]
fn test_make_model_match() {
    let outputs = create_test_outputs();
    let result = find_output_by_make_model(Some("Apple Computer Inc"), "StudioDisplay", &outputs);
    assert!(result.is_some());
}

#[test]
fn disabled_outputs_are_never_matched() {
    let outputs = vec![output("DP-2", Some("Dell Inc."), "U2720Q", Some("A1"), false)];
    assert!(find_matching_output("Dell U2720Q", &outputs).is_none());
}

#[test]
fn serial_match_beats_list_order() {
    let outputs = vec![
        output("DP-1", Some("Dell Inc."), "U2720Q", Some("AAA"), true),
        output("DP-2", Some("Dell Inc."), "U2720Q", Some("BBB"), true),
    ];
    let m = find_matching_output_with_serial("Dell U2720Q", Some("BBB"), &outputs).unwrap();
    assert_eq!(m.connector_name, "DP-2");
    let m = find_matching_output_with_serial("Dell U2720Q", None, &outputs).unwrap();
    assert_eq!(m.connector_name, "DP-1");
}

#[test]
fn exact_model_beats_substring() {
    let outputs = vec![
        output("DP-1", None, "StudioDisplayPro", None, true),
        output("DP-2", None, "Studio Display", None, true),
    ];
    let m = find_matching_output("Studio Display", &outputs).unwrap();
    assert_eq!(m.connector_name, "DP-2");
}

#[test]
fn substring_match_ignores_unicode_case() {
    // Only the lower-cased comparison finds this one.
    let outputs = vec![output("HDMI-1", None, "StudioDisplay", None, true)];
    let m = find_matching_output("STUDIO", &outputs).unwrap();
    assert_eq!(m.connector_name, "HDMI-1");
    let outputs = vec![output("HDMI-2", None, "ÉCRAN Grand", None, true)];
    assert!(find_matching_output("écran", &outputs).is_some());
}

#[test]
fn display_model_drops_company_words() {
    assert_eq!(clean_model("Apple Inc. Studio Display"), "Studio Display");
    assert_eq!(clean_model("  DELL   U2720Q "), "U2720Q");
    assert_eq!(clean_model(""), "");
    assert_eq!(maker_of("samsung Odyssey"), Some("samsung".to_string()));
    assert_eq!(maker_of("Odyssey Samsung"), None);
}

#[test]
fn make_model_falls_back_to_model() {
    let outputs = vec![output("DP-5", Some("LG Electronics"), "LG ULTRAFINE", None, true)];
    let m = find_output_by_make_model(Some("Goldstar"), "ULTRAFINE", &outputs).unwrap();
    assert_eq!(m.connector_name, "DP-5");
    assert!(find_output_by_make_model(None, "Nothing", &outputs).is_none());
}

#[test]
fn serial_for_a_ddc_display() {
    let outputs = create_test_outputs();
    assert_eq!(serial_for("StudioDisplay", &outputs), Some("0x112E647D".to_string()));
    assert_eq!(serial_for("Unknown Monitor", &outputs), None);
}

#[test]
fn enrichment_fills_only_missing_fields() {
    let outputs = create_test_outputs();
    let mut snapshot = vec![
        (
            "ddc-1".to_string(),
            MonitorInfo { name: "StudioDisplay".to_string(), brightness: 40, connector_name: None, edid_serial: None },
        ),
        (
            "ddc-2".to_string(),
            MonitorInfo {
                name: "StudioDisplay".to_string(),
                brightness: 70,
                connector_name: Some("HDMI-9".to_string()),
                edid_serial: None,
            },
        ),
        (
            "ddc-3".to_string(),
            MonitorInfo { name: "Other".to_string(), brightness: 10, connector_name: None, edid_serial: None },
        ),
    ];
    enrich_snapshots(&mut snapshot, &outputs);
    assert_eq!(snapshot[0].1.connector_name, Some("DP-3".to_string()));
    assert_eq!(snapshot[0].1.edid_serial, Some("0x112E647D".to_string()));
    assert_eq!(snapshot[1].1.connector_name, Some("HDMI-9".to_string()));
    assert_eq!(snapshot[1].1.edid_serial, Some("0x112E647D".to_string()));
    assert_eq!(snapshot[2].1.connector_name, None);
    assert_eq!(snapshot[1].1.brightness, 70);
}

#[test]
fn transform_names() {
    assert_eq!(map_transform_to_randr("normal"), "normal");
    assert_eq!(map_transform_to_randr("90"), "rotate90");
    assert_eq!(map_transform_to_randr("flipped-270"), "flipped270");
    assert_eq!(map_transform_to_randr("sideways"), "normal");
}

#[test]
fn display_labels() {
    assert_eq!(format_display_name("Dell U2720Q", &Some("DP-1".to_string())), "Dell U2720Q (DP-1)");
    assert_eq!(format_display_name("Dell U2720Q", &None), "Dell U2720Q");
}
