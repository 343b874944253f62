//! Finding CMSIS-DAP probes among the USB devices and HID entries of a
//! system, and merging the two listings.
use vstd::prelude::*;
use crate::model::{
    probe_views, DebugProbeInfo, HidDeviceInfo, InterfaceInfo, ProbeInfoView, UsbDeviceInfo,
    USB_CLASS_HID, USB_CMSIS_DAP_CLASS, USB_CMSIS_DAP_SUBCLASS,
};
use crate::recognition::{is_cmsis_dap, is_known_cmsis_dap_dev, known_cmsis_dap_ids, names_cmsis_dap};
use crate::text::{copy_opt_string, opt_view, text_or_empty};

verus! {

/// The probe entry for interface `number` of `device`.
pub open spec fn device_probe(device: UsbDeviceInfo, number: u8, is_hid: bool) -> ProbeInfoView {
    ProbeInfoView {
        identifier: text_or_empty(opt_view(device.product_string)),
        vendor_id: device.vendor_id,
        product_id: device.product_id,
        serial_number: opt_view(device.serial_number),
        interface: Some(number),
        is_hid_interface: is_hid,
    }
}

/// The device presents itself as a CMSIS-DAP probe as a whole: its product
/// string (empty where absent) names CMSIS-DAP, or its ids are on the list of
/// known CMSIS-DAP devices.
pub open spec fn is_cmsis_dap_product(device: UsbDeviceInfo) -> bool {
    names_cmsis_dap(text_or_empty(opt_view(device.product_string)))
        || known_cmsis_dap_ids().contains((device.vendor_id, device.product_id))
}

/// The probe entry that one interface of a device gives, if any.
///
/// An interface whose string names CMSIS-DAP is a v1 (HID) interface when
/// its class is HID, a v2 interface when its class and subclass are those of
/// CMSIS-DAP v2, and is skipped otherwise. An interface without such a
/// string is kept as a v1 interface when it is a HID interface of a device
/// that is a CMSIS-DAP probe as a whole, for HID-only operation; otherwise it
/// is skipped.
pub open spec fn interface_probe(device: UsbDeviceInfo, iface: InterfaceInfo) -> Option<ProbeInfoView> {
    let named = match iface.interface_string {
        Some(s) => names_cmsis_dap(s@),
        None => false,
    };
    if named {
        if iface.class == USB_CLASS_HID {
            Some(device_probe(device, iface.interface_number, true))
        } else if iface.class != USB_CMSIS_DAP_CLASS || iface.subclass != USB_CMSIS_DAP_SUBCLASS {
            None
        } else {
            Some(device_probe(device, iface.interface_number, false))
        }
    } else if iface.class == USB_CLASS_HID && is_cmsis_dap_product(device) {
        Some(device_probe(device, iface.interface_number, true))
    } else {
        None
    }
}

/// The entries of the given interfaces that are v1 (`is_hid`) or v2
/// (`!is_hid`) interfaces, in interface order.
pub open spec fn interface_probes(device: UsbDeviceInfo, ifaces: Seq<InterfaceInfo>, is_hid: bool) -> Seq<ProbeInfoView>
    decreases ifaces.len(),
{
    if ifaces.len() == 0 {
        Seq::empty()
    } else {
        let rest = interface_probes(device, ifaces.drop_last(), is_hid);
        match interface_probe(device, ifaces.last()) {
            Some(p) => if p.is_hid_interface == is_hid {
                rest.push(p)
            } else {
                rest
            },
            None => rest,
        }
    }
}

/// The v2 entries of a device.
pub open spec fn v2_probes(device: UsbDeviceInfo) -> Seq<ProbeInfoView> {
    interface_probes(device, device.interfaces@, false)
}

/// The v1 (HID) entries of a device.
pub open spec fn v1_probes(device: UsbDeviceInfo) -> Seq<ProbeInfoView> {
    interface_probes(device, device.interfaces@, true)
}

/// The probes of a device: its v2 entries first, then, when both versions are
/// asked for or when there is no v2 entry, its v1 entries.
pub open spec fn cmsisdap_info_of(device: UsbDeviceInfo, list_both_versions: bool) -> Seq<ProbeInfoView> {
    if list_both_versions || v2_probes(device).len() == 0 {
        v2_probes(device) + v1_probes(device)
    } else {
        v2_probes(device)
    }
}

/// Checks if a given device is a CMSIS-DAP probe, and returns its probe
/// entries, one per CMSIS-DAP interface (see [`interface_probe`]): an
/// interface whose string names CMSIS-DAP, or, on a device whose product
/// string names CMSIS-DAP or whose ids are known, any HID interface, saved
/// for potential HID-only operation.
///
/// If `list_both_versions` is true, both v1 and v2 interfaces are returned.
/// Otherwise only v2 interfaces are returned, unless there are no v2
/// interfaces, in which case v1 interfaces are returned. v2 interfaces always
/// come first, so that they are tried first.
///
/// To list probes, call this with `list_both_versions` false, so that
/// devices with both v1 and v2 interfaces are listed only once. To open a
/// probe, call it with `list_both_versions` true, so that the user can fall
/// back to the v1 interface.
pub fn get_cmsisdap_info(device: &UsbDeviceInfo, list_both_versions: bool) -> (r: Vec<DebugProbeInfo>)
    ensures
        probe_views(r@) == cmsisdap_info_of(*device, list_both_versions),
{
    let prod_str: String = match &device.product_string {
        Some(s) => s.clone(),
        None => String::new(),
    };
    let mut v1_ifaces: Vec<DebugProbeInfo> = Vec::new();
    let mut v2_ifaces: Vec<DebugProbeInfo> = Vec::new();
    let dap_product = is_cmsis_dap(prod_str.as_str()) || is_known_cmsis_dap_dev(device);
    let n: usize = device.interfaces.len();
    let mut i: usize = 0;
    while i < n
        invariant
            n == device.interfaces@.len(),
            0 <= i <= n,
            prod_str@ == text_or_empty(opt_view(device.product_string)),
            dap_product == is_cmsis_dap_product(*device),
            probe_views(v1_ifaces@) == interface_probes(*device, device.interfaces@.take(i as int), true),
            probe_views(v2_ifaces@) == interface_probes(*device, device.interfaces@.take(i as int), false),
        decreases n - i,
    {
        let iface = &device.interfaces[i];
        let named = match &iface.interface_string {
            Some(desc) => is_cmsis_dap(desc.as_str()),
            None => false,
        };
        let kind: Option<bool> = if named {
            if iface.class == USB_CLASS_HID {
                Some(true)
            } else if iface.class != USB_CMSIS_DAP_CLASS || iface.subclass != USB_CMSIS_DAP_SUBCLASS {
                None
            } else {
                Some(false)
            }
        } else if iface.class == USB_CLASS_HID && dap_product {
            Some(true)
        } else {
            None
        };
        let ghost prev1 = v1_ifaces@;
        let ghost prev2 = v2_ifaces@;
        match kind {
            Some(is_hid) => {
                let info = DebugProbeInfo {
                    identifier: prod_str.clone(),
                    vendor_id: device.vendor_id,
                    product_id: device.product_id,
                    serial_number: copy_opt_string(&device.serial_number),
                    interface: Some(iface.interface_number),
                    is_hid_interface: is_hid,
                };
                if is_hid {
                    v1_ifaces.push(info);
                } else {
                    v2_ifaces.push(info);
                }
            },
            None => {},
        }
        proof {
            let ifs = device.interfaces@.take(i + 1);
            assert(ifs.drop_last() =~= device.interfaces@.take(i as int));
            assert(ifs.last() == device.interfaces@[i as int]);
            assert(probe_views(v1_ifaces@) =~= interface_probes(*device, ifs, true)) by {
                if v1_ifaces@.len() > prev1.len() {
                    assert(v1_ifaces@ =~= prev1.push(v1_ifaces@.last()));
                } else {
                    assert(v1_ifaces@ =~= prev1);
                }
            }
            assert(probe_views(v2_ifaces@) =~= interface_probes(*device, ifs, false)) by {
                if v2_ifaces@.len() > prev2.len() {
                    assert(v2_ifaces@ =~= prev2.push(v2_ifaces@.last()));
                } else {
                    assert(v2_ifaces@ =~= prev2);
                }
            }
        }
        i = i + 1;
    }
    proof {
        assert(device.interfaces@.take(n as int) =~= device.interfaces@);
    }
    let mut results = v2_ifaces;
    if list_both_versions || results.len() == 0 {
        let ghost before = results@;
        let ghost v1_before = v1_ifaces@;
        results.append(&mut v1_ifaces);
        proof {
            assert(probe_views(results@) =~= probe_views(before) + probe_views(v1_before));
        }
    }
    results
}

/// The probe entry that one HID entry gives, if any: the entry is a CMSIS-DAP
/// probe when its product string or its path names CMSIS-DAP (an absent text
/// counting as empty), and its interface is the HID interface number taken
/// as a byte.
pub open spec fn hid_probe_of(device: HidDeviceInfo) -> Option<ProbeInfoView> {
    let prod = text_or_empty(opt_view(device.product_string));
    let path = text_or_empty(opt_view(device.path));
    if names_cmsis_dap(prod) || names_cmsis_dap(path) {
        Some(ProbeInfoView {
            identifier: prod,
            vendor_id: device.vendor_id,
            product_id: device.product_id,
            serial_number: opt_view(device.serial_number),
            interface: Some(device.interface_number as u8),
            is_hid_interface: true,
        })
    } else {
        None
    }
}

/// The value of an optional probe.
pub open spec fn opt_probe_view(o: Option<DebugProbeInfo>) -> Option<ProbeInfoView> {
    match o {
        Some(p) => Some(p@),
        None => None,
    }
}

/// Checks if a given HID device is a CMSIS-DAP v1 probe, returning its probe
/// entry if so.
pub fn get_cmsisdap_hid_info(device: &HidDeviceInfo) -> (r: Option<DebugProbeInfo>)
    ensures
        opt_probe_view(r) == hid_probe_of(*device),
{
    let prod_str: String = match &device.product_string {
        Some(s) => s.clone(),
        None => String::new(),
    };
    let path: String = match &device.path {
        Some(s) => s.clone(),
        None => String::new(),
    };
    if is_cmsis_dap(prod_str.as_str()) || is_cmsis_dap(path.as_str()) {
        Some(DebugProbeInfo {
            identifier: prod_str,
            vendor_id: device.vendor_id,
            product_id: device.product_id,
            serial_number: copy_opt_string(&device.serial_number),
            interface: Some(device.interface_number as u8),
            is_hid_interface: true,
        })
    } else {
        None
    }
}

/// The probes that the USB devices give, listed once per device, in device
/// order.
pub open spec fn nusb_probes(devices: Seq<UsbDeviceInfo>) -> Seq<ProbeInfoView>
    decreases devices.len(),
{
    if devices.len() == 0 {
        Seq::empty()
    } else {
        nusb_probes(devices.drop_last()) + cmsisdap_info_of(devices.last(), false)
    }
}

/// The probes that the HID entries give, in list order.
pub open spec fn hid_probes(devices: Seq<HidDeviceInfo>) -> Seq<ProbeInfoView>
    decreases devices.len(),
{
    if devices.len() == 0 {
        Seq::empty()
    } else {
        match hid_probe_of(devices.last()) {
            Some(p) => hid_probes(devices.drop_last()).push(p),
            None => hid_probes(devices.drop_last()),
        }
    }
}

/// Two entries stand for the same probe: same vendor id, product id and
/// serial number, an absent serial number counting as empty.
pub open spec fn same_probe(a: ProbeInfoView, b: ProbeInfoView) -> bool {
    &&& a.vendor_id == b.vendor_id
    &&& a.product_id == b.product_id
    &&& text_or_empty(a.serial_number) == text_or_empty(b.serial_number)
}

/// Some entry of `list` stands for the same probe as `p`.
pub open spec fn has_same_probe(list: Seq<ProbeInfoView>, p: ProbeInfoView) -> bool {
    exists|i: int| 0 <= i < list.len() && same_probe(list[i], p)
}

/// `listed`, followed by each candidate in turn that does not stand for the
/// same probe as an entry already there.
pub open spec fn merge_probes(listed: Seq<ProbeInfoView>, candidates: Seq<ProbeInfoView>) -> Seq<ProbeInfoView>
    decreases candidates.len(),
{
    if candidates.len() == 0 {
        listed
    } else {
        let acc = merge_probes(listed, candidates.drop_last());
        if has_same_probe(acc, candidates.last()) {
            acc
        } else {
            acc.push(candidates.last())
        }
    }
}

/// The probes of a system: those of its USB devices, then those of its HID
/// entries that are not already there. An absent listing (one that could not
/// be had) contributes nothing.
pub open spec fn probe_listing(
    usb_devices: Option<Seq<UsbDeviceInfo>>,
    hid_devices: Option<Seq<HidDeviceInfo>>,
) -> Seq<ProbeInfoView> {
    let listed = match usb_devices {
        Some(d) => nusb_probes(d),
        None => Seq::empty(),
    };
    let candidates = match hid_devices {
        Some(h) => hid_probes(h),
        None => Seq::empty(),
    };
    merge_probes(listed, candidates)
}

/// The probes of the USB devices, each device listed once (see
/// [`get_cmsisdap_info`]).
pub fn collect_nusb_probes(devices: &Vec<UsbDeviceInfo>) -> (r: Vec<DebugProbeInfo>)
    ensures
        probe_views(r@) == nusb_probes(devices@),
{
    let mut probes: Vec<DebugProbeInfo> = Vec::new();
    let n: usize = devices.len();
    let mut i: usize = 0;
    while i < n
        invariant
            n == devices@.len(),
            0 <= i <= n,
            probe_views(probes@) == nusb_probes(devices@.take(i as int)),
        decreases n - i,
    {
        let ghost before = probes@;
        let mut found = get_cmsisdap_info(&devices[i], false);
        let ghost added = found@;
        probes.append(&mut found);
        proof {
            assert(devices@.take(i + 1).drop_last() =~= devices@.take(i as int));
            assert(probe_views(probes@) =~= probe_views(before) + probe_views(added));
        }
        i = i + 1;
    }
    proof {
        assert(devices@.take(n as int) =~= devices@);
    }
    probes
}

/// Whether two probe entries stand for the same probe.
pub fn is_same_probe(a: &DebugProbeInfo, b: &DebugProbeInfo) -> (r: bool)
    ensures
        r == same_probe(a@, b@),
{
    a.vendor_id == b.vendor_id && a.product_id == b.product_id && crate::text::same_text_or_empty(
        &a.serial_number,
        &b.serial_number,
    )
}

/// Whether some entry of `list` stands for the same probe as `p`.
fn contains_same_probe(list: &Vec<DebugProbeInfo>, p: &DebugProbeInfo) -> (r: bool)
    ensures
        r == has_same_probe(probe_views(list@), p@),
{
    let n: usize = list.len();
    let mut i: usize = 0;
    while i < n
        invariant
            n == list@.len(),
            0 <= i <= n,
            forall|k: int| 0 <= k < i ==> !same_probe(#[trigger] list@[k]@, p@),
        decreases n - i,
    {
        if is_same_probe(&list[i], p) {
            assert(probe_views(list@)[i as int] == list@[i as int]@);
            return true;
        }
        i = i + 1;
    }
    assert forall|k: int| 0 <= k < probe_views(list@).len() implies !same_probe(
        #[trigger] probe_views(list@)[k],
        p@,
    ) by {
        assert(probe_views(list@)[k] == list@[k]@);
    }
    false
}

/// Adds the CMSIS-DAP probes among the HID entries to `probes`, in list
/// order, skipping each one that stands for the same probe as an entry
/// already there.
pub fn merge_hid_probes(probes: Vec<DebugProbeInfo>, hid_devices: &Vec<HidDeviceInfo>) -> (r: Vec<DebugProbeInfo>)
    ensures
        probe_views(r@) == merge_probes(probe_views(probes@), hid_probes(hid_devices@)),
{
    let ghost listed = probe_views(probes@);
    let mut probes = probes;
    let n: usize = hid_devices.len();
    let mut i: usize = 0;
    while i < n
        invariant
            n == hid_devices@.len(),
            0 <= i <= n,
            probe_views(probes@) == merge_probes(listed, hid_probes(hid_devices@.take(i as int))),
        decreases n - i,
    {
        let ghost before = probes@;
        let ghost hs = hid_devices@.take(i + 1);
        proof {
            assert(hs.drop_last() =~= hid_devices@.take(i as int));
            assert(hs.last() == hid_devices@[i as int]);
        }
        match get_cmsisdap_hid_info(&hid_devices[i]) {
            Some(info) => {
                let dup = contains_same_probe(&probes, &info);
                if !dup {
                    probes.push(info);
                    proof {
                        assert(probe_views(probes@) =~= probe_views(before).push(info@));
                    }
                }
                proof {
                    let cands = hid_probes(hs);
                    assert(cands.drop_last() =~= hid_probes(hid_devices@.take(i as int)));
                }
            },
            None => {},
        }
        i = i + 1;
    }
    proof {
        assert(hid_devices@.take(n as int) =~= hid_devices@);
    }
    probes
}

/// The probes of a system, given its USB device listing and its HID device
/// listing (each absent where it could not be had): the USB devices are
/// searched first, each listed once; the HID entries then add the probes
/// that the USB listing missed, for instance where reading device strings
/// failed for permission or driver reasons.
pub fn cmsisdap_probe_list(
    usb_devices: Option<&Vec<UsbDeviceInfo>>,
    hid_devices: Option<&Vec<HidDeviceInfo>>,
) -> (r: Vec<DebugProbeInfo>)
    ensures
        probe_views(r@) == probe_listing(
            match usb_devices {
                Some(d) => Some(d@),
                None => None,
            },
            match hid_devices {
                Some(h) => Some(h@),
                None => None,
            },
        ),
{
    let probes = match usb_devices {
        Some(devices) => collect_nusb_probes(devices),
        None => Vec::new(),
    };
    proof {
        assert(probe_views(probes@) =~= match usb_devices {
            Some(d) => nusb_probes(d@),
            None => Seq::empty(),
        });
    }
    match hid_devices {
        Some(hids) => merge_hid_probes(probes, hids),
        None => probes,
    }
}

} // verus!
