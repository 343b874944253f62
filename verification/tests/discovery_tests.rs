use cmsisdap::discovery::{
    cmsisdap_probe_list, collect_nusb_probes, get_cmsisdap_hid_info, get_cmsisdap_info,
    is_same_probe, merge_hid_probes,
};
use cmsisdap::model::{DebugProbeInfo, HidDeviceInfo, InterfaceInfo, UsbDeviceInfo};

fn iface(number: u8, class: u8, subclass: u8, name: Option<&str>) -> InterfaceInfo {
    InterfaceInfo {
        interface_number: number,
        class,
        subclass,
        interface_string: name.map(|s| s.to_string()),
    }
}

fn device(product: Option<&str>, serial: Option<&str>, interfaces: Vec<InterfaceInfo>) -> UsbDeviceInfo {
    UsbDeviceInfo {
        vendor_id: 0x0d28,
        product_id: 0x0204,
        device_version: 0x0100,
        product_string: product.map(|s| s.to_string()),
        serial_number: serial.map(|s| s.to_string()),
        interfaces,
    }
}

/// A DAPLink-like device: CDC, a v2 bulk interface, and a v1 HID interface.
fn dual_device(serial: &str) -> UsbDeviceInfo {
    device(
        Some("DAPLink CMSIS-DAP"),
        Some(serial),
        vec![
            iface(0, 0x02, 0x02, Some("mbed Serial Port")),
            iface(1, 0x03, 0x00, Some("CMSIS-DAP v1")),
            iface(3, 0xff, 0x00, Some("CMSIS-DAP v2")),
        ],
    )
}

fn hid_entry(vendor_id: u16, product_id: u16, serial: Option<&str>, product: Option<&str>, path: Option<&str>) -> HidDeviceInfo {
    HidDeviceInfo {
        vendor_id,
        product_id,
        release_number: 0x0100,
        interface_number: 0,
        product_string: product.map(|s| s.to_string()),
        serial_number: serial.map(|s| s.to_string()),
        path: path.map(|s| s.to_string()),
    }
}

fn summary(p: &DebugProbeInfo) -> (u16, u16, Option<String>, Option<u8>, bool) {
    (p.vendor_id, p.product_id, p.serial_number.clone(), p.interface, p.is_hid_interface)
}

#[test]
fn listing_mode_lists_v2_interface_only() {
    let probes = get_cmsisdap_info(&dual_device("A1"), false);
    assert_eq!(probes.len(), 1);
    assert_eq!(probes[0].interface, Some(3));
    assert!(!probes[0].is_hid_interface);
    assert_eq!(probes[0].identifier, "DAPLink CMSIS-DAP");
    assert_eq!(probes[0].serial_number.as_deref(), Some("A1"));
}

#[test]
fn opening_mode_lists_v2_then_v1() {
    let probes = get_cmsisdap_info(&dual_device("A1"), true);
    assert_eq!(probes.len(), 2);
    assert_eq!((probes[0].interface, probes[0].is_hid_interface), (Some(3), false));
    assert_eq!((probes[1].interface, probes[1].is_hid_interface), (Some(1), true));
}

#[test]
fn listing_is_prefix_of_opening() {
    let d = dual_device("A1");
    let listed = get_cmsisdap_info(&d, false);
    let opened = get_cmsisdap_info(&d, true);
    assert!(listed.len() <= opened.len());
    for (a, b) in listed.iter().zip(opened.iter()) {
        assert_eq!(summary(a), summary(b));
    }
}

#[test]
fn hid_only_device_is_listed_through_hid() {
    let d = device(Some("LPC-LINK2 CMSIS-DAP"), None, vec![iface(0, 0x03, 0x00, Some("LPC-LINK2 CMSIS-DAP V5.224"))]);
    let probes = get_cmsisdap_info(&d, false);
    assert_eq!(probes.len(), 1);
    assert!(probes[0].is_hid_interface);
    assert_eq!(probes[0].interface, Some(0));
    assert_eq!(probes[0].serial_number, None);
}

#[test]
fn cmsis_dap_interface_with_wrong_class_is_skipped() {
    let d = device(Some("Probe"), None, vec![iface(2, 0xff, 0x01, Some("CMSIS-DAP v2")), iface(4, 0x08, 0x06, Some("CMSIS-DAP"))]);
    assert!(get_cmsisdap_info(&d, true).is_empty());
}

#[test]
fn interfaces_without_strings_are_skipped_on_plain_devices() {
    let d = device(Some("USB Keyboard"), None, vec![iface(0, 0x03, 0x00, None), iface(1, 0xff, 0x00, None)]);
    assert!(get_cmsisdap_info(&d, true).is_empty());
}

#[test]
fn hid_interface_of_cmsis_dap_product_is_kept_for_hid_only_use() {
    let d = device(
        Some("LPC-LINK2 CMSIS-DAP"),
        None,
        vec![iface(0, 0x03, 0x00, None), iface(1, 0xff, 0x00, None), iface(2, 0x03, 0x00, Some("UART"))],
    );
    let probes = get_cmsisdap_info(&d, true);
    assert_eq!(probes.len(), 2);
    assert_eq!((probes[0].interface, probes[0].is_hid_interface), (Some(0), true));
    assert_eq!((probes[1].interface, probes[1].is_hid_interface), (Some(2), true));
}

#[test]
fn hid_interface_of_known_device_is_kept() {
    let mut d = device(Some("WCH-Link"), None, vec![iface(0, 0x03, 0x00, None)]);
    d.vendor_id = 0x1a86;
    d.product_id = 0x8012;
    let probes = get_cmsisdap_info(&d, false);
    assert_eq!(probes.len(), 1);
    assert!(probes[0].is_hid_interface);
    d.product_id = 0x8010;
    assert!(get_cmsisdap_info(&d, false).is_empty());
}

#[test]
fn listing_keeps_only_v2_when_product_hid_interfaces_exist() {
    let d = device(
        Some("DAPLink CMSIS-DAP"),
        None,
        vec![iface(0, 0x03, 0x00, None), iface(3, 0xff, 0x00, Some("CMSIS-DAP v2"))],
    );
    let listed = get_cmsisdap_info(&d, false);
    let opened = get_cmsisdap_info(&d, true);
    assert_eq!(listed.len(), 1);
    assert_eq!(opened.len(), 2);
    let v2_only: Vec<_> = opened.iter().filter(|p| !p.is_hid_interface).map(summary).collect();
    let listed_summary: Vec<_> = listed.iter().map(summary).collect();
    assert_eq!(listed_summary, v2_only);
}

#[test]
fn missing_product_string_gives_empty_identifier() {
    let d = device(None, None, vec![iface(0, 0xff, 0x00, Some("CMSIS_DAP"))]);
    let probes = get_cmsisdap_info(&d, false);
    assert_eq!(probes.len(), 1);
    assert_eq!(probes[0].identifier, "");
}

#[test]
fn hid_entry_recognised_by_product_string() {
    let p = get_cmsisdap_hid_info(&hid_entry(0x0d28, 0x0204, Some("S1"), Some("DAPLink CMSIS-DAP"), None)).unwrap();
    assert_eq!(p.identifier, "DAPLink CMSIS-DAP");
    assert_eq!(p.interface, Some(0));
    assert!(p.is_hid_interface);
    assert_eq!(p.serial_number.as_deref(), Some("S1"));
}

#[test]
fn hid_entry_recognised_by_path() {
    let p = get_cmsisdap_hid_info(&hid_entry(0x0d28, 0x0204, None, None, Some("/dev/CMSIS-DAP0"))).unwrap();
    assert_eq!(p.identifier, "");
}

#[test]
fn hid_entry_with_unknown_interface_number_wraps_to_byte() {
    let mut e = hid_entry(0x1fc9, 0x0090, None, Some("LPC-LINK2 CMSIS-DAP"), None);
    e.interface_number = -1;
    let p = get_cmsisdap_hid_info(&e).unwrap();
    assert_eq!(p.interface, Some(255));
}

#[test]
fn other_hid_entries_are_not_probes() {
    assert!(get_cmsisdap_hid_info(&hid_entry(0x046d, 0xc52b, None, Some("USB Receiver"), Some("/dev/hidraw0"))).is_none());
}

#[test]
fn same_probe_treats_missing_serial_as_empty() {
    let a = get_cmsisdap_hid_info(&hid_entry(1, 2, None, Some("CMSIS-DAP"), None)).unwrap();
    let b = get_cmsisdap_hid_info(&hid_entry(1, 2, Some(""), Some("CMSIS-DAP"), None)).unwrap();
    let c = get_cmsisdap_hid_info(&hid_entry(1, 2, Some("X"), Some("CMSIS-DAP"), None)).unwrap();
    let d = get_cmsisdap_hid_info(&hid_entry(1, 3, None, Some("CMSIS-DAP"), None)).unwrap();
    assert!(is_same_probe(&a, &b));
    assert!(!is_same_probe(&a, &c));
    assert!(!is_same_probe(&a, &d));
}

#[test]
fn usb_devices_are_each_listed_once() {
    let devices = vec![dual_device("A1"), dual_device("B2")];
    let probes = collect_nusb_probes(&devices);
    assert_eq!(probes.len(), 2);
    assert_eq!(probes[0].serial_number.as_deref(), Some("A1"));
    assert_eq!(probes[1].serial_number.as_deref(), Some("B2"));
}

#[test]
fn hid_duplicates_of_usb_probes_are_dropped() {
    let usb = collect_nusb_probes(&vec![dual_device("A1")]);
    let hids = vec![
        hid_entry(0x0d28, 0x0204, Some("A1"), Some("DAPLink CMSIS-DAP"), None),
        hid_entry(0x0d28, 0x0204, Some("C3"), Some("DAPLink CMSIS-DAP"), None),
        hid_entry(0x0d28, 0x0204, Some("C3"), Some("DAPLink CMSIS-DAP"), None),
        hid_entry(0x046d, 0xc52b, None, Some("USB Receiver"), None),
    ];
    let merged = merge_hid_probes(usb, &hids);
    assert_eq!(merged.len(), 2);
    assert_eq!(merged[0].serial_number.as_deref(), Some("A1"));
    assert!(!merged[0].is_hid_interface);
    assert_eq!(merged[1].serial_number.as_deref(), Some("C3"));
    assert!(merged[1].is_hid_interface);
}

#[test]
fn merging_again_changes_nothing() {
    let hids = vec![
        hid_entry(0x0d28, 0x0204, Some("C3"), Some("DAPLink CMSIS-DAP"), None),
        hid_entry(0x0d28, 0x0204, Some("D4"), Some("DAPLink CMSIS-DAP"), None),
    ];
    let once = merge_hid_probes(collect_nusb_probes(&vec![dual_device("A1")]), &hids);
    let once_summary: Vec<_> = once.iter().map(summary).collect();
    let twice = merge_hid_probes(once, &hids);
    let twice_summary: Vec<_> = twice.iter().map(summary).collect();
    assert_eq!(once_summary, twice_summary);
}

#[test]
fn listing_falls_back_to_hid_when_usb_listing_fails() {
    let hids = vec![
        hid_entry(0x0d28, 0x0204, Some("C3"), Some("DAPLink CMSIS-DAP"), None),
        hid_entry(0x0d28, 0x0204, Some("C3"), Some("DAPLink CMSIS-DAP"), None),
    ];
    let probes = cmsisdap_probe_list(None, Some(&hids));
    assert_eq!(probes.len(), 1);
    assert!(probes[0].is_hid_interface);
}

#[test]
fn listing_without_hid_listing_is_the_usb_listing() {
    let devices = vec![dual_device("A1")];
    let probes = cmsisdap_probe_list(Some(&devices), None);
    assert_eq!(probes.len(), 1);
    assert_eq!(probes[0].interface, Some(3));
    assert!(cmsisdap_probe_list(None, None).is_empty());
}
