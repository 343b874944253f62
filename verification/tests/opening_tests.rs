use cmsisdap::descriptors::parse_configuration;
use cmsisdap::model::{
    AltSetting, CmsisDapError, Configuration, Direction, EndpointDescriptor, InterfaceDescriptors, InterfaceInfo,
    ProbeCreationError, TransferType, UsbDeviceInfo,
};
use cmsisdap::opening::{
    first_claim_action, next_claim_action, v1_interface_candidates, v1_interface_candidates_in_bytes,
    v2_interface_search, v2_interface_search_in_bytes, ClaimAction, V1Interface, V2Interface,
};

fn ep(address: u8, transfer_type: TransferType, direction: Direction, max_packet_size: usize) -> EndpointDescriptor {
    EndpointDescriptor { address, transfer_type, direction, max_packet_size }
}

fn alt(class: u8, endpoints: Vec<EndpointDescriptor>) -> AltSetting {
    AltSetting { class, subclass: 0, num_endpoints: endpoints.len() as u8, endpoints }
}

fn group(number: u8, alts: Vec<AltSetting>) -> InterfaceDescriptors {
    InterfaceDescriptors { interface_number: number, alt_settings: alts }
}

fn info(number: u8, class: u8, name: Option<&str>) -> InterfaceInfo {
    InterfaceInfo { interface_number: number, class, subclass: 0, interface_string: name.map(|s| s.to_string()) }
}

fn device(product: Option<&str>, interfaces: Vec<InterfaceInfo>) -> UsbDeviceInfo {
    UsbDeviceInfo {
        vendor_id: 0x0d28,
        product_id: 0x0204,
        device_version: 0x0100,
        product_string: product.map(|s| s.to_string()),
        serial_number: None,
        interfaces,
    }
}

fn daplink() -> (UsbDeviceInfo, Configuration) {
    let d = device(
        Some("DAPLink CMSIS-DAP"),
        vec![info(0, 0x02, Some("mbed Serial Port")), info(1, 0x03, Some("CMSIS-DAP v1")), info(3, 0xff, Some("CMSIS-DAP v2"))],
    );
    let c = Configuration {
        interfaces: vec![
            group(0, vec![alt(0x02, vec![ep(0x83, TransferType::Interrupt, Direction::In, 16)])]),
            group(1, vec![alt(0x03, vec![
                ep(0x81, TransferType::Interrupt, Direction::In, 64),
                ep(0x01, TransferType::Interrupt, Direction::Out, 64),
            ])]),
            group(3, vec![alt(0xff, vec![
                ep(0x04, TransferType::Bulk, Direction::Out, 512),
                ep(0x85, TransferType::Bulk, Direction::In, 512),
                ep(0x86, TransferType::Bulk, Direction::In, 256),
            ])]),
        ],
    };
    (d, c)
}

/// The configuration descriptor bytes of the DAPLink-like device above.
fn daplink_bytes() -> Vec<u8> {
    let mut body: Vec<u8> = vec![];
    // interface 0: CDC, one interrupt IN endpoint
    body.extend([9, 4, 0, 0, 1, 0x02, 0x02, 0x01, 0]);
    body.extend([7, 5, 0x83, 0x03, 16, 0, 8]);
    // interface 3 listed before interface 1, to see the grouping order
    body.extend([9, 4, 3, 0, 3, 0xff, 0x00, 0x00, 0]);
    body.extend([7, 5, 0x04, 0x02, 0x00, 0x02, 0]);
    body.extend([7, 5, 0x85, 0x02, 0x00, 0x02, 0]);
    body.extend([7, 5, 0x86, 0x02, 0x00, 0x01, 0]);
    // interface 1: HID, interrupt IN and OUT
    body.extend([9, 4, 1, 0, 2, 0x03, 0x00, 0x00, 0]);
    body.extend([9, 0x21, 0x11, 0x01, 0, 1, 0x22, 33, 0]);
    body.extend([7, 5, 0x81, 0x03, 64, 0, 1]);
    body.extend([7, 5, 0x01, 0x03, 64, 0, 1]);
    let total = (9 + body.len()) as u16;
    let mut bytes = vec![9, 2, (total & 0xff) as u8, (total >> 8) as u8, 3, 1, 0, 0x80, 50];
    bytes.extend(body);
    bytes
}

#[test]
fn configuration_bytes_are_parsed() {
    let c = parse_configuration(&daplink_bytes()).unwrap();
    let numbers: Vec<u8> = c.interfaces.iter().map(|g| g.interface_number).collect();
    assert_eq!(numbers, vec![0, 1, 3]);
    let hid = &c.interfaces[1].alt_settings[0];
    assert_eq!((hid.class, hid.num_endpoints), (0x03, 2));
    assert_eq!(hid.endpoints, vec![
        ep(0x81, TransferType::Interrupt, Direction::In, 64),
        ep(0x01, TransferType::Interrupt, Direction::Out, 64),
    ]);
    let bulk = &c.interfaces[2].alt_settings[0];
    assert_eq!(bulk.endpoints[0], ep(0x04, TransferType::Bulk, Direction::Out, 512));
    assert_eq!(bulk.endpoints[2], ep(0x86, TransferType::Bulk, Direction::In, 256));
}

#[test]
fn unsound_configuration_headers_are_refused() {
    let good = daplink_bytes();
    assert!(parse_configuration(&good[..8]).is_none());
    assert!(parse_configuration(&[]).is_none());
    let mut wrong_type = good.clone();
    wrong_type[1] = 4;
    assert!(parse_configuration(&wrong_type).is_none());
    let mut short_len = good.clone();
    short_len[0] = 8;
    assert!(parse_configuration(&short_len).is_none());
    let mut too_long = good.clone();
    too_long[2] = 0xff;
    too_long[3] = 0x0f;
    assert!(parse_configuration(&too_long).is_none());
    let mut bare = good[..9].to_vec();
    bare[2] = 9;
    bare[3] = 0;
    assert!(parse_configuration(&bare).unwrap().interfaces.is_empty());
}

#[test]
fn candidates_from_configuration_bytes() {
    let (d, _) = daplink();
    let bytes = daplink_bytes();
    let v2 = v2_interface_search_in_bytes(&d, Some(&bytes), None);
    assert_eq!(
        v2.candidates,
        vec![V2Interface { interface_number: 3, out_ep: 0x04, in_ep: 0x85, swo_ep: Some((0x86, 256)), max_packet_size: 512 }]
    );
    assert!(!v2.stopped_at_unreadable);
    let v1 = v1_interface_candidates_in_bytes(&d, Some(&bytes), None);
    assert_eq!(v1, vec![V1Interface { interface_number: 1, out_ep: 0x01, in_ep: 0x81, report_size: 64 }]);
    assert!(v2_interface_search_in_bytes(&d, None, None).candidates.is_empty());
    assert!(v1_interface_candidates_in_bytes(&d, Some(&bytes[..5]), None).is_empty());
}

#[test]
fn v2_interface_with_swo_endpoint() {
    let (d, c) = daplink();
    let search = v2_interface_search(&d, Some(&c), None);
    assert!(!search.stopped_at_unreadable);
    assert_eq!(
        search.candidates,
        vec![V2Interface { interface_number: 3, out_ep: 0x04, in_ep: 0x85, swo_ep: Some((0x86, 256)), max_packet_size: 512 }]
    );
}

#[test]
fn v2_interface_without_swo_endpoint() {
    let (d, mut c) = daplink();
    c.interfaces[2].alt_settings[0].endpoints.pop();
    c.interfaces[2].alt_settings[0].num_endpoints = 2;
    let cands = v2_interface_search(&d, Some(&c), None).candidates;
    assert_eq!(cands.len(), 1);
    assert_eq!(cands[0].swo_ep, None);
}

#[test]
fn v2_third_endpoint_not_bulk_in_is_no_swo() {
    let (d, mut c) = daplink();
    c.interfaces[2].alt_settings[0].endpoints[2] = ep(0x07, TransferType::Bulk, Direction::Out, 64);
    assert_eq!(v2_interface_search(&d, Some(&c), None).candidates[0].swo_ep, None);
}

#[test]
fn v2_wrong_endpoint_order_is_skipped() {
    let (d, mut c) = daplink();
    c.interfaces[2].alt_settings[0].endpoints.swap(0, 1);
    assert!(v2_interface_search(&d, Some(&c), None).candidates.is_empty());
}

#[test]
fn v2_wrong_endpoint_count_is_skipped() {
    let (d, mut c) = daplink();
    c.interfaces[2].alt_settings[0].endpoints.push(ep(0x08, TransferType::Bulk, Direction::In, 64));
    c.interfaces[2].alt_settings[0].num_endpoints = 4;
    assert!(v2_interface_search(&d, Some(&c), None).candidates.is_empty());
}

#[test]
fn v2_selection_restricts_interfaces() {
    let (d, c) = daplink();
    assert_eq!(v2_interface_search(&d, Some(&c), Some(3)).candidates.len(), 1);
    assert!(v2_interface_search(&d, Some(&c), Some(1)).candidates.is_empty());
}

#[test]
fn no_configuration_gives_no_candidates() {
    let (d, _) = daplink();
    let search = v2_interface_search(&d, None, None);
    assert!(search.candidates.is_empty());
    assert!(!search.stopped_at_unreadable);
    assert!(v1_interface_candidates(&d, None, None).is_empty());
}

#[test]
fn v2_search_stops_at_missing_endpoints_keeping_earlier_candidates() {
    let (mut d, mut c) = daplink();
    d.interfaces.push(info(5, 0xff, Some("CMSIS-DAP v2 second")));
    c.interfaces.push(group(5, vec![alt(0xff, vec![ep(0x09, TransferType::Bulk, Direction::Out, 64)])]));
    c.interfaces[3].alt_settings[0].num_endpoints = 2;
    let search = v2_interface_search(&d, Some(&c), None);
    assert_eq!(search.candidates.len(), 1);
    assert_eq!(search.candidates[0].interface_number, 3);
    assert!(search.stopped_at_unreadable);
    let selected = v2_interface_search(&d, Some(&c), Some(3));
    assert!(!selected.stopped_at_unreadable);
}

#[test]
fn v2_search_looks_no_further_after_missing_endpoints() {
    let (mut d, mut c) = daplink();
    d.interfaces.insert(0, info(2, 0xff, Some("CMSIS-DAP broken")));
    c.interfaces.insert(0, group(2, vec![alt(0xff, vec![])]));
    c.interfaces[0].alt_settings[0].num_endpoints = 3;
    let search = v2_interface_search(&d, Some(&c), None);
    assert!(search.candidates.is_empty());
    assert!(search.stopped_at_unreadable);
}

#[test]
fn v1_interface_with_interrupt_endpoints() {
    let (d, c) = daplink();
    let cands = v1_interface_candidates(&d, Some(&c), None);
    assert_eq!(cands, vec![V1Interface { interface_number: 1, out_ep: 0x01, in_ep: 0x81, report_size: 64 }]);
}

#[test]
fn v1_report_size_takes_largest_interrupt_packet() {
    let (d, mut c) = daplink();
    c.interfaces[1].alt_settings[0].endpoints[0].max_packet_size = 1024;
    assert_eq!(v1_interface_candidates(&d, Some(&c), None)[0].report_size, 1024);
    c.interfaces[1].alt_settings[0].endpoints[0].max_packet_size = 8;
    c.interfaces[1].alt_settings[0].endpoints[1].max_packet_size = 8;
    assert_eq!(v1_interface_candidates(&d, Some(&c), None)[0].report_size, 64);
}

fn lpc_link2_config() -> Configuration {
    Configuration {
        interfaces: vec![group(0, vec![alt(0x03, vec![
            ep(0x81, TransferType::Interrupt, Direction::In, 64),
            ep(0x01, TransferType::Interrupt, Direction::Out, 64),
        ])])],
    }
}

#[test]
fn v1_without_interface_string_falls_back_to_product_string() {
    let c = lpc_link2_config();
    let d = device(Some("LPC-LINK2 CMSIS-DAP"), vec![info(0, 0x03, None)]);
    assert_eq!(v1_interface_candidates(&d, Some(&c), None).len(), 1);
    let plain = device(Some("LPC-LINK2"), vec![info(0, 0x03, None)]);
    assert!(v1_interface_candidates(&plain, Some(&c), None).is_empty());
}

#[test]
fn v1_interface_with_other_string_is_not_taken_for_dap() {
    let c = lpc_link2_config();
    let d = device(Some("LPC-LINK2 CMSIS-DAP"), vec![info(0, 0x03, Some("UART bridge"))]);
    assert!(v1_interface_candidates(&d, Some(&c), None).is_empty());
}

#[test]
fn v1_needs_both_directions() {
    let (d, mut c) = daplink();
    c.interfaces[1].alt_settings[0].endpoints[1] = ep(0x82, TransferType::Interrupt, Direction::In, 64);
    assert!(v1_interface_candidates(&d, Some(&c), None).is_empty());
}

#[test]
fn v1_selection_restricts_interfaces() {
    let (d, c) = daplink();
    assert!(v1_interface_candidates(&d, Some(&c), Some(3)).is_empty());
    assert_eq!(v1_interface_candidates(&d, Some(&c), Some(1)).len(), 1);
}

#[test]
fn claiming_starts_with_first_candidate() {
    assert!(matches!(first_claim_action(2, false), ClaimAction::Claim(0)));
    assert!(matches!(first_claim_action(0, false), ClaimAction::NotOpened));
    assert!(matches!(first_claim_action(0, true), ClaimAction::MalformedDescriptors));
}

#[test]
fn failed_claim_moves_to_next_candidate() {
    let (d, _) = daplink();
    assert!(matches!(next_claim_action(&d, 3, 0, false, false), ClaimAction::Claim(1)));
    assert!(matches!(next_claim_action(&d, 3, 2, false, false), ClaimAction::NotOpened));
    assert!(matches!(next_claim_action(&d, 3, 2, false, true), ClaimAction::MalformedDescriptors));
}

#[test]
fn claimed_interface_is_used_unless_firmware_is_refused() {
    let (mut d, _) = daplink();
    assert!(matches!(next_claim_action(&d, 3, 1, true, true), ClaimAction::Use(1)));
    d.vendor_id = 0x2e8a;
    d.product_id = 0x000c;
    d.device_version = 0x0200;
    match next_claim_action(&d, 3, 1, true, false) {
        ClaimAction::Refuse(ProbeCreationError::ProbeSpecific(CmsisDapError::ProbeFirmwareOutdated(v))) => {
            assert_eq!(v, "2.2.0")
        }
        other => panic!("unexpected action {:?}", other),
    }
}
