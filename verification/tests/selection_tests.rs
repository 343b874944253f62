use cmsisdap::model::{CmsisDapError, DebugProbeSelector, HidDeviceInfo, InterfaceInfo, ProbeCreationError, UsbDeviceInfo};
use cmsisdap::selection::{
    accept_hid_device, find_hid_entry, first_open_action, hid_entry_matches, hid_fallback_probe,
    next_open_action, open_steps, plan_selector_attempts, selector_matches, OpenAction, OpenStep, StepOutcome,
};

fn info(number: u8, class: u8, name: &str) -> InterfaceInfo {
    InterfaceInfo { interface_number: number, class, subclass: 0, interface_string: Some(name.to_string()) }
}

fn device(vendor_id: u16, product_id: u16, serial: Option<&str>, interfaces: Vec<InterfaceInfo>) -> UsbDeviceInfo {
    UsbDeviceInfo {
        vendor_id,
        product_id,
        device_version: 0x0100,
        product_string: Some("Probe CMSIS-DAP".to_string()),
        serial_number: serial.map(|s| s.to_string()),
        interfaces,
    }
}

fn selector(vendor_id: u16, product_id: u16, serial: Option<&str>, interface: Option<u8>) -> DebugProbeSelector {
    DebugProbeSelector { vendor_id, product_id, serial_number: serial.map(|s| s.to_string()), interface }
}

fn hid(vendor_id: u16, product_id: u16, interface_number: i32, serial: Option<&str>) -> HidDeviceInfo {
    HidDeviceInfo {
        vendor_id,
        product_id,
        release_number: 0x0100,
        interface_number,
        product_string: Some("CMSIS-DAP".to_string()),
        serial_number: serial.map(|s| s.to_string()),
        path: None,
    }
}

#[test]
fn selector_matches_ids_and_serial() {
    let d = device(1, 2, Some("S1"), vec![]);
    assert!(selector_matches(&selector(1, 2, None, None), &d));
    assert!(selector_matches(&selector(1, 2, Some("S1"), None), &d));
    assert!(!selector_matches(&selector(1, 2, Some("S2"), None), &d));
    assert!(!selector_matches(&selector(1, 3, None, None), &d));
}

#[test]
fn empty_serial_selects_device_without_serial() {
    let d = device(1, 2, None, vec![]);
    assert!(selector_matches(&selector(1, 2, Some(""), None), &d));
    assert!(!selector_matches(&selector(1, 2, Some("S1"), None), &d));
}

#[test]
fn attempts_follow_device_order_and_interface() {
    let devices = vec![
        device(1, 2, Some("A"), vec![info(0, 0x03, "CMSIS-DAP v1"), info(2, 0xff, "CMSIS-DAP v2")]),
        device(9, 9, Some("B"), vec![info(0, 0x03, "CMSIS-DAP")]),
        device(1, 2, Some("C"), vec![info(0, 0x03, "CMSIS-DAP v1")]),
    ];
    let attempts = plan_selector_attempts(&devices, &selector(1, 2, None, None));
    assert_eq!(attempts.len(), 2);
    assert_eq!((attempts[0].device_index, attempts[0].probe.interface, attempts[0].probe.is_hid_interface), (0, Some(2), false));
    assert_eq!((attempts[1].device_index, attempts[1].probe.interface, attempts[1].probe.is_hid_interface), (2, Some(0), true));

    let hid_only = plan_selector_attempts(&devices, &selector(1, 2, Some("A"), Some(0)));
    assert_eq!(hid_only.len(), 1);
    assert_eq!((hid_only[0].device_index, hid_only[0].probe.interface), (0, Some(0)));
    assert!(plan_selector_attempts(&devices, &selector(1, 2, None, Some(5))).is_empty());
}

#[test]
fn steps_try_v2_before_v1() {
    let devices = vec![
        device(1, 2, Some("A"), vec![info(2, 0xff, "CMSIS-DAP v2")]),
        device(1, 2, Some("C"), vec![info(0, 0x03, "CMSIS-DAP v1")]),
    ];
    let attempts = plan_selector_attempts(&devices, &selector(1, 2, None, None));
    let steps = open_steps(&attempts);
    assert_eq!(
        steps,
        vec![
            OpenStep::V2 { device_index: 0, interface: Some(2) },
            OpenStep::V2 { device_index: 1, interface: Some(0) },
            OpenStep::V1Direct { device_index: 1, interface: Some(0) },
        ]
    );
    let fallback = hid_fallback_probe(&attempts).unwrap();
    assert_eq!((fallback.interface, fallback.is_hid_interface), (Some(0), true));
    assert!(hid_fallback_probe(&Vec::new()).is_none());
}

#[test]
fn hid_entry_must_match_ids_and_serial() {
    let sel = selector(0x0d28, 0x0204, Some("S1"), None);
    assert!(hid_entry_matches(&hid(0x0d28, 0x0204, 0, Some("S1")), &sel, None));
    assert!(!hid_entry_matches(&hid(0x0d28, 0x0204, 0, Some("S2")), &sel, None));
    assert!(!hid_entry_matches(&hid(0x0d28, 0x0204, 0, None), &sel, None));
    assert!(!hid_entry_matches(&hid(0x0d28, 0x0205, 0, Some("S1")), &sel, None));
}

#[test]
fn hid_entry_must_be_on_known_hid_interface() {
    let devices = vec![device(0x0d28, 0x0204, None, vec![info(1, 0x03, "CMSIS-DAP v1")])];
    let sel = selector(0x0d28, 0x0204, None, None);
    let attempts = plan_selector_attempts(&devices, &sel);
    let known = hid_fallback_probe(&attempts);
    assert!(hid_entry_matches(&hid(0x0d28, 0x0204, 1, None), &sel, known));
    assert!(!hid_entry_matches(&hid(0x0d28, 0x0204, 0, None), &sel, known));
    assert!(!hid_entry_matches(&hid(0x0d28, 0x0204, -1, None), &sel, known));
}

#[test]
fn lpc_link2_secondary_interfaces_are_never_opened() {
    let sel = selector(0x1fc9, 0x0090, None, None);
    assert!(!hid_entry_matches(&hid(0x1fc9, 0x0090, 1, None), &sel, None));
    assert!(!hid_entry_matches(&hid(0x1fc9, 0x0132, 2, None), &selector(0x1fc9, 0x0132, None, None), None));
    assert!(hid_entry_matches(&hid(0x1fc9, 0x0090, 0, None), &sel, None));
}

#[test]
fn lpc_link2_unknown_interface_is_accepted() {
    let devices = vec![device(0x1fc9, 0x0132, None, vec![info(0, 0x03, "CMSIS-DAP")])];
    let sel = selector(0x1fc9, 0x0132, None, None);
    let attempts = plan_selector_attempts(&devices, &sel);
    assert!(hid_entry_matches(&hid(0x1fc9, 0x0132, -1, None), &sel, hid_fallback_probe(&attempts)));
}

#[test]
fn first_matching_hid_entry_is_chosen() {
    let sel = selector(0x1fc9, 0x0090, None, None);
    let entries = vec![hid(0x046d, 0xc52b, 0, None), hid(0x1fc9, 0x0090, 1, None), hid(0x1fc9, 0x0090, 0, None), hid(0x1fc9, 0x0090, -1, None)];
    assert_eq!(find_hid_entry(&entries, &sel, None), Some(2));
    let first_two = vec![hid(0x046d, 0xc52b, 0, None), hid(0x1fc9, 0x0090, 1, None)];
    assert_eq!(find_hid_entry(&first_two, &sel, None), None);
}

#[test]
fn opened_hid_device_needs_cmsis_dap_product_string() {
    let e = hid(0x0d28, 0x0204, 0, None);
    assert!(matches!(accept_hid_device(&e, Some("Generic HID".to_string())), Err(ProbeCreationError::NotFound)));
    assert!(matches!(accept_hid_device(&e, None), Err(ProbeCreationError::NotFound)));
    assert_eq!(accept_hid_device(&e, Some("DAPLink CMSIS-DAP".to_string())).unwrap(), 64);
}

#[test]
fn opened_edbg_gets_its_report_size() {
    let mut e = hid(0x03eb, 0x2111, 0, None);
    e.product_string = Some("EDBG CMSIS-DAP".to_string());
    assert_eq!(accept_hid_device(&e, Some("EDBG CMSIS-DAP".to_string())).unwrap(), 512);
}

#[test]
fn opened_old_rpi_debugprobe_is_refused() {
    let mut e = hid(0x2e8a, 0x000c, 0, None);
    e.release_number = 0x0201;
    match accept_hid_device(&e, Some("CMSIS-DAP".to_string())) {
        Err(ProbeCreationError::ProbeSpecific(CmsisDapError::ProbeFirmwareOutdated(v))) => assert_eq!(v, "2.2.0"),
        other => panic!("unexpected result {:?}", other),
    }
}

#[test]
fn opening_runs_steps_in_order_then_hid() {
    assert!(matches!(first_open_action(2), OpenAction::RunStep(0)));
    assert!(matches!(first_open_action(0), OpenAction::TryHid));
    assert!(matches!(next_open_action(2, 0, StepOutcome::NotOpened), OpenAction::RunStep(1)));
    assert!(matches!(next_open_action(2, 1, StepOutcome::NotOpened), OpenAction::TryHid));
}

#[test]
fn opened_device_or_error_ends_the_search() {
    assert!(matches!(next_open_action(3, 0, StepOutcome::Opened), OpenAction::UseOpened));
    let refused = StepOutcome::Failed(ProbeCreationError::ProbeSpecific(CmsisDapError::ProbeFirmwareOutdated("2.2.0")));
    assert!(matches!(
        next_open_action(3, 0, refused),
        OpenAction::Fail(ProbeCreationError::ProbeSpecific(CmsisDapError::ProbeFirmwareOutdated("2.2.0")))
    ));
}
