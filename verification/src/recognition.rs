//! Recognising CMSIS-DAP probes by their texts and ids, the firmware
//! denylist, and the HID report size override.
use vstd::prelude::*;
use crate::model::{CmsisDapError, HidDeviceInfo, ProbeCreationError, UsbDeviceInfo};
use crate::text::{chars_of, contains_chars, contains_exec};

verus! {

/// "CMSIS-DAP", the usual spelling in product and interface strings.
pub open spec fn dash_spelling() -> Seq<char> {
    seq!['C', 'M', 'S', 'I', 'S', '-', 'D', 'A', 'P']
}

/// "CMSIS_DAP", the other spelling that devices use.
pub open spec fn underscore_spelling() -> Seq<char> {
    seq!['C', 'M', 'S', 'I', 'S', '_', 'D', 'A', 'P']
}

/// A text names CMSIS-DAP: it holds one of the known spellings.
pub open spec fn names_cmsis_dap(s: Seq<char>) -> bool {
    contains_chars(s, dash_spelling()) || contains_chars(s, underscore_spelling())
}

/// We recognise CMSIS-DAP interfaces if they have a string like "CMSIS-DAP"
/// in them. As devices spell CMSIS DAP differently we go through the known
/// spellings looking for a match.
pub fn is_cmsis_dap(id: &str) -> (r: bool)
    ensures
        r == names_cmsis_dap(id@),
{
    let chars = chars_of(id);
    let dash = vec!['C', 'M', 'S', 'I', 'S', '-', 'D', 'A', 'P'];
    let underscore = vec!['C', 'M', 'S', 'I', 'S', '_', 'D', 'A', 'P'];
    assert(dash@ =~= dash_spelling());
    assert(underscore@ =~= underscore_spelling());
    contains_exec(&chars, &dash) || contains_exec(&chars, &underscore)
}

/// The (vendor id, product id) pairs of devices that are CMSIS-DAP probes
/// without saying so in any string: 1a86:8012 is the WCH-Link in DAP mode,
/// which shares its description string with the WCH-Link in RV mode.
pub open spec fn known_cmsis_dap_ids() -> Seq<(u16, u16)> {
    seq![(0x1a86u16, 0x8012u16)]
}

/// Some devices don't have a CMSIS-DAP interface string, but are still
/// CMSIS-DAP probes: true when the device's ids are on the known list.
pub fn is_known_cmsis_dap_dev(device: &UsbDeviceInfo) -> (r: bool)
    ensures
        r == known_cmsis_dap_ids().contains((device.vendor_id, device.product_id)),
{
    let known: Vec<(u16, u16)> = vec![(0x1a86u16, 0x8012u16)];
    assert(known@ =~= known_cmsis_dap_ids());
    let mut i: usize = 0;
    while i < known.len()
        invariant
            known@ == known_cmsis_dap_ids(),
            0 <= i <= known@.len(),
            forall|k: int| 0 <= k < i ==> known@[k] != (device.vendor_id, device.product_id),
        decreases known@.len() - i,
    {
        let (vid, pid) = known[i];
        if device.vendor_id == vid && device.product_id == pid {
            assert(known@[i as int] == (device.vendor_id, device.product_id));
            return true;
        }
        i = i + 1;
    }
    false
}

/// "EDBG", which Atmel's EDBG probes carry in their product string.
pub open spec fn edbg_spelling() -> Seq<char> {
    seq!['E', 'D', 'B', 'G']
}

/// The HID report size to use with a device: 512 bytes for an Atmel EDBG
/// (vendor 0x03eb, "EDBG" in the product string), which does not answer
/// until it has received a full 512-byte report, and 64 bytes, the default
/// of almost all CMSIS-DAP v1 devices, otherwise.
pub open spec fn hid_report_size_of(device: HidDeviceInfo) -> usize {
    if device.vendor_id == 0x03eb && (match device.product_string {
        Some(s) => contains_chars(s@, edbg_spelling()),
        None => false,
    }) {
        512
    } else {
        64
    }
}

/// Manual override of the HID report size, for devices which do not use the
/// default 64 bytes and do not answer when asked for the report size until
/// they have received a full packet. Other devices still work, with a slower
/// start while the packet size is found out.
pub fn hid_report_size(device: &HidDeviceInfo) -> (r: usize)
    ensures
        r == hid_report_size_of(*device),
{
    if device.vendor_id == 0x03eb {
        match &device.product_string {
            Some(s) => {
                let chars = chars_of(s.as_str());
                let edbg = vec!['E', 'D', 'B', 'G'];
                assert(edbg@ =~= edbg_spelling());
                if contains_exec(&chars, &edbg) {
                    return 512;
                }
            },
            None => {},
        }
    }
    64
}

/// "2.2.0", the first Raspberry Pi debugprobe firmware that works.
pub open spec fn rpi_debugprobe_fixed_version() -> Seq<char> {
    seq!['2', '.', '2', '.', '0']
}

/// A Raspberry Pi debugprobe (2e8a:000c) with firmware older than 2.2.0
/// (device version below 0x0220): the one entry of the denylist.
pub open spec fn is_outdated_rpi_debugprobe(vendor_id: u16, product_id: u16, device_version: u16) -> bool {
    vendor_id == 0x2e8a && product_id == 0x000c && device_version < 0x0220
}

/// The firmware version that a denylisted device needs at least, if it is
/// denylisted.
fn denylist_min_version(vendor_id: u16, product_id: u16, device_version: u16) -> (r: Option<&'static str>)
    ensures
        r is Some <==> is_outdated_rpi_debugprobe(vendor_id, product_id, device_version),
        r matches Some(v) ==> v@ == rpi_debugprobe_fixed_version(),
{
    if vendor_id == 0x2e8a && product_id == 0x000c && device_version < 0x0220 {
        proof {
            reveal_strlit("2.2.0");
        }
        Some("2.2.0")
    } else {
        None
    }
}

/// Refuses probes whose firmware is known not to work: returns
/// `ProbeFirmwareOutdated` with the first working version for a denylisted
/// device, and `Ok` for every other.
pub fn reject_probe_by_version(vendor_id: u16, product_id: u16, device_version: u16) -> (r: Result<(), ProbeCreationError>)
    ensures
        r is Ok <==> !is_outdated_rpi_debugprobe(vendor_id, product_id, device_version),
        r matches Err(e) ==> (e matches ProbeCreationError::ProbeSpecific(
            CmsisDapError::ProbeFirmwareOutdated(v),
        ) && v@ == rpi_debugprobe_fixed_version()),
{
    match denylist_min_version(vendor_id, product_id, device_version) {
        Some(min_version) => Err(ProbeCreationError::ProbeSpecific(CmsisDapError::ProbeFirmwareOutdated(min_version))),
        None => Ok(()),
    }
}

} // verus!
