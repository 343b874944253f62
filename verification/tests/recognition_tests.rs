use cmsisdap::model::{CmsisDapError, HidDeviceInfo, ProbeCreationError, UsbDeviceInfo};
use cmsisdap::recognition::{hid_report_size, is_cmsis_dap, is_known_cmsis_dap_dev, reject_probe_by_version};

fn usb(vendor_id: u16, product_id: u16) -> UsbDeviceInfo {
    UsbDeviceInfo {
        vendor_id,
        product_id,
        device_version: 0x0100,
        product_string: Some("WCH-Link".to_string()),
        serial_number: None,
        interfaces: vec![],
    }
}

fn hid(vendor_id: u16, product: Option<&str>) -> HidDeviceInfo {
    HidDeviceInfo {
        vendor_id,
        product_id: 0x2111,
        release_number: 0x0100,
        interface_number: 0,
        product_string: product.map(|s| s.to_string()),
        serial_number: None,
        path: None,
    }
}

#[test]
fn cmsis_dap_dash_spelling_is_recognised() {
    assert!(is_cmsis_dap("CMSIS-DAP"));
    assert!(is_cmsis_dap("MCU-Link CMSIS-DAP V3.128"));
    assert!(is_cmsis_dap("DAPLink CMSIS-DAP"));
}

#[test]
fn cmsis_dap_underscore_spelling_is_recognised() {
    assert!(is_cmsis_dap("XDS110 CMSIS_DAP"));
}

#[test]
fn other_texts_are_not_cmsis_dap() {
    assert!(!is_cmsis_dap(""));
    assert!(!is_cmsis_dap("CMSIS DAP"));
    assert!(!is_cmsis_dap("cmsis-dap"));
    assert!(!is_cmsis_dap("CMSIS-DA"));
    assert!(!is_cmsis_dap("J-Link"));
}

#[test]
fn cmsis_dap_in_longer_text_stays_recognised() {
    let inner = "CMSIS-DAP";
    let wrapped = format!("Some probe {} interface", inner);
    assert!(is_cmsis_dap(inner));
    assert!(is_cmsis_dap(&wrapped));
}

#[test]
fn wch_link_in_dap_mode_is_known() {
    assert!(is_known_cmsis_dap_dev(&usb(0x1a86, 0x8012)));
    assert!(!is_known_cmsis_dap_dev(&usb(0x1a86, 0x8010)));
    assert!(!is_known_cmsis_dap_dev(&usb(0x0d28, 0x0204)));
}

#[test]
fn edbg_gets_512_byte_reports() {
    assert_eq!(hid_report_size(&hid(0x03eb, Some("EDBG CMSIS-DAP"))), 512);
}

#[test]
fn other_hid_devices_get_64_byte_reports() {
    assert_eq!(hid_report_size(&hid(0x03eb, Some("Atmel-ICE CMSIS-DAP"))), 64);
    assert_eq!(hid_report_size(&hid(0x03eb, None)), 64);
    assert_eq!(hid_report_size(&hid(0x0d28, Some("EDBG"))), 64);
}

#[test]
fn old_rpi_debugprobe_is_refused() {
    match reject_probe_by_version(0x2e8a, 0x000c, 0x0210) {
        Err(ProbeCreationError::ProbeSpecific(CmsisDapError::ProbeFirmwareOutdated(v))) => {
            assert_eq!(v, "2.2.0")
        }
        other => panic!("unexpected result {:?}", other),
    }
}

#[test]
fn denylist_refuses_every_older_version() {
    for version in 0..0x0220u16 {
        assert!(reject_probe_by_version(0x2e8a, 0x000c, version).is_err());
    }
}

#[test]
fn current_rpi_debugprobe_and_other_probes_are_accepted() {
    assert!(reject_probe_by_version(0x2e8a, 0x000c, 0x0220).is_ok());
    assert!(reject_probe_by_version(0x2e8a, 0x000c, 0x0230).is_ok());
    assert!(reject_probe_by_version(0x2e8a, 0x000d, 0x0100).is_ok());
    assert!(reject_probe_by_version(0x0d28, 0x000c, 0x0100).is_ok());
}
