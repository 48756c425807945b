use monitor_brightness::backend::{clamp_percentage, DisplayBackend};
use monitor_brightness::config::{
    apply_min_brightness, default_min_brightness, default_sync_enabled, Config, MonitorConfig,
};
use monitor_brightness::error::AppError;
use monitor_brightness::hotplug::{
    is_display_event, passive_step, role_for_lock, DeviceEventKind, HotplugDebouncer, HotplugRole,
    LockOutcome, PassiveStep,
};
use monitor_brightness::permissions::{
    decimal, PermissionCheckResult, PermissionRequirement, RequirementStatus,
};
use monitor_brightness::protocols::{
    DisplayProtocol, ddc_display_id, ddc_display_name, default_gamma_tenths, hid_display_id, hid_display_name, starts_with,
};
use monitor_brightness::text::{contains_text, eq_ignore_ascii_case, lowercase, without_spaces, words};

fn req(name: &str, status: RequirementStatus) -> PermissionRequirement {
    PermissionRequirement { name: name.to_string(), description: String::new(), status }
}

#[test]
fn identities_and_names() {
    assert_eq!(ddc_display_id(&Some("0x112E647C".to_string()), "i2c-3"), "ddc-0x112E647C");
    assert_eq!(ddc_display_id(&None, "i2c-3"), "i2c-3");
    assert_eq!(ddc_display_name(&Some("U2720Q".to_string())), "U2720Q");
    assert_eq!(ddc_display_name(&None), "");
    assert_eq!(hid_display_id("C02XYZ"), "apple-hid-C02XYZ");
    assert_eq!(hid_display_name("Apple", "Studio Display"), "Apple Studio Display");
}

#[test]
fn gamma_defaults() {
    assert_eq!(default_gamma_tenths("apple-hid-C02XYZ"), 18);
    assert_eq!(default_gamma_tenths("ddc-1"), 10);
    assert_eq!(default_gamma_tenths("apple-hi"), 10);
    assert!(starts_with("apple-hid-", "apple"));
    assert!(!starts_with("app", "apple"));
}

#[test]
fn config_defaults_and_floor() {
    assert!(default_sync_enabled());
    assert_eq!(default_min_brightness(), 0);
    assert_eq!(apply_min_brightness(0, 10), 10);
    assert_eq!(apply_min_brightness(100, 10), 100);
}

#[test]
fn lock_roles() {
    assert_eq!(role_for_lock(LockOutcome::Acquired), HotplugRole::Active);
    assert_eq!(role_for_lock(LockOutcome::HeldElsewhere), HotplugRole::Passive);
    assert_eq!(role_for_lock(LockOutcome::Failed), HotplugRole::Idle);
}

#[test]
fn display_events() {
    assert!(is_display_event(DeviceEventKind::Add));
    assert!(is_display_event(DeviceEventKind::Remove));
    assert!(is_display_event(DeviceEventKind::Change));
    assert!(!is_display_event(DeviceEventKind::Bind));
    assert!(!is_display_event(DeviceEventKind::Other));
}

#[test]
fn passive_instances_follow_the_lock_file() {
    assert_eq!(passive_step(Some(3_000)), PassiveStep::Notify(10_000));
    assert_eq!(passive_step(Some(10_000)), PassiveStep::Poll(2_000));
    assert_eq!(passive_step(None), PassiveStep::Poll(2_000));
}

#[test]
fn hotplug_rate_limit() {
    let mut d = HotplugDebouncer::new(1_000);
    // 500 ms after the last trigger: 1000 ms more of the window, then 1 s to settle.
    assert_eq!(d.wait_before_trigger(1_500), 2_000);
    assert_eq!(d.wait_before_trigger(10_000), 1_000);
    d.record_trigger(20_000);
    assert_eq!(d.wait_before_trigger(20_000), 2_500);
    assert_eq!(d.wait_before_trigger(5_000), 2_500);
}

#[test]
fn permission_summary() {
    let ok = PermissionCheckResult {
        requirements: vec![req("a", RequirementStatus::Met), req("b", RequirementStatus::Met), req("c", RequirementStatus::NotApplicable)],
    };
    assert!(!ok.has_issues());
    assert_eq!(ok.summary(), "✓ All 2 requirements met");
    let bad = PermissionCheckResult {
        requirements: vec![req("a", RequirementStatus::NotMet), req("b", RequirementStatus::Partial)],
    };
    assert!(bad.has_issues());
    assert_eq!(bad.summary(), "1 requirement(s) not met");
    assert_eq!(PermissionCheckResult { requirements: vec![] }.summary(), "✓ All 0 requirements met");
}

#[test]
fn decimal_text() {
    assert_eq!(decimal(0), "0");
    assert_eq!(decimal(7), "7");
    assert_eq!(decimal(1234), "1234");
    assert_eq!(decimal(usize::MAX), usize::MAX.to_string());
}

#[test]
fn text_helpers() {
    assert_eq!(words(" a\tbb \u{3000}c "), vec!["a", "bb", "c"]);
    assert!(words("   ").is_empty());
    assert!(eq_ignore_ascii_case("StudioDisplay", "studiodisplay"));
    assert!(!eq_ignore_ascii_case("É", "é"));
    assert!(contains_text("studiodisplay", "display"));
    assert!(contains_text("abc", ""));
    assert!(!contains_text("ab", "abc"));
    assert_eq!(without_spaces("Studio Display 2"), "StudioDisplay2");
    assert_eq!(lowercase("ÉCRAN Ab"), "écran ab");
}

#[test]
fn error_messages() {
    let e = AppError::AppleHid { id: "apple-hid-1".to_string(), reason: "timeout".to_string() };
    assert_eq!(e.message(), "timeout");
    assert_eq!(AppError::DisplayNotFound("ddc-9".to_string()).message(), "ddc-9");
}

struct FakeDdc {
    value: u16,
}

impl DisplayProtocol for FakeDdc {
    fn id(&self) -> String {
        "ddc-FAKE".to_string()
    }

    fn name(&self) -> String {
        "Fake".to_string()
    }

    fn get_brightness(&mut self) -> Result<u16, AppError> {
        Ok(self.value)
    }

    fn set_brightness(&mut self, value: u16) -> Result<(), AppError> {
        self.value = value.min(100);
        Ok(())
    }
}

#[test]
fn backend_dispatches_to_its_driver() {
    let mut b: DisplayBackend<FakeDdc> = DisplayBackend::DdcCi(FakeDdc { value: 30 });
    assert_eq!(b.id(), "ddc-FAKE");
    assert_eq!(b.name(), "Fake");
    assert_eq!(b.get_brightness().unwrap(), 30);
    b.set_brightness(70).unwrap();
    assert_eq!(b.get_brightness().unwrap(), 70);
    b.set_brightness(250).unwrap();
    assert_eq!(b.get_brightness().unwrap(), 100);
    assert_eq!(clamp_percentage(250), 100);
    assert_eq!(clamp_percentage(42), 42);
}

#[test]
fn test_sync_enabled() {
    let config = Config {
        monitors: vec![
            (
                "enabled-display".to_string(),
                MonitorConfig { min_brightness: 0, gamma_tenths: 10, sync_with_brightness_keys: true },
            ),
            (
                "disabled-display".to_string(),
                MonitorConfig { min_brightness: 0, gamma_tenths: 10, sync_with_brightness_keys: false },
            ),
        ],
    };
    assert!(config.is_sync_enabled("enabled-display"));
    assert!(!config.is_sync_enabled("disabled-display"));
}

#[test]
fn settings_defaults_by_identity() {
    let config = Config {
        monitors: vec![(
            "test-display".to_string(),
            MonitorConfig { min_brightness: 10, gamma_tenths: 22, sync_with_brightness_keys: true },
        )],
    };
    assert_eq!(config.get_min_brightness("test-display"), 10);
    assert_eq!(config.get_min_brightness("other"), 0);
    assert_eq!(config.get_gamma_tenths("test-display"), 22);
    assert_eq!(config.get_gamma_tenths("apple-hid-XYZ"), 18);
    assert_eq!(config.get_gamma_tenths("ddc-XYZ"), 10);
    assert!(config.is_sync_enabled("unknown"));
    assert_eq!(MonitorConfig::new(), MonitorConfig::with_default_gamma(10));
}
