//! Properties of the library as a whole: how its listings, searches and
//! decisions relate across inputs and calls.
use vstd::prelude::*;
use crate::discovery::{
    cmsisdap_info_of, has_same_probe, interface_probe, interface_probes, is_cmsis_dap_product, merge_probes, nusb_probes, probe_listing,
    same_probe, v1_probes, v2_probes, hid_probes, hid_probe_of,
};
use crate::model::{
    AltSettingView, ConfigurationView, DebugProbeSelector, EndpointDescriptor, HidDeviceInfo,
    Direction, InterfaceDescriptorsView, InterfaceInfo, ProbeInfoView, TransferType, UsbDeviceInfo,
};
use crate::opening::{
    claim_or_give_up, configuration_alt_settings, interface_selected, interrupt_scan,
    selected_alt_settings, tag_alts, v1_alt_candidate, v1_candidates, v2_search, ClaimAction,
    interface_named, interface_string_for, larger, V2Interface,
};
use crate::recognition::{
    edbg_spelling, dash_spelling, hid_report_size_of, is_outdated_rpi_debugprobe, names_cmsis_dap,
    underscore_spelling,
};
use crate::selection::{
    attempt_steps, device_attempt_probe, first_wanted, hid_entry_selected, interface_wanted,
    is_lpc_link2, open_action_after, open_steps_of, run_or_try_hid, selector_attempts,
    selector_matches_device, OpenAction, OpenStep, ProbeAttemptView, StepOutcome,
};
use crate::text::{contains_chars, occurs_at, opt_view, text_or_empty};

verus! {

/// Every entry that [`interface_probes`] gives is of the asked version and
/// describes the device: its ids, product string (empty where absent),
/// serial number, and some interface.
proof fn lemma_interface_probes_describe(device: UsbDeviceInfo, ifaces: Seq<InterfaceInfo>, is_hid: bool)
    ensures
        forall|k: int|
            0 <= k < interface_probes(device, ifaces, is_hid).len() ==> {
                let p = #[trigger] interface_probes(device, ifaces, is_hid)[k];
                &&& p.is_hid_interface == is_hid
                &&& p.vendor_id == device.vendor_id
                &&& p.product_id == device.product_id
                &&& p.identifier == text_or_empty(opt_view(device.product_string))
                &&& p.serial_number == opt_view(device.serial_number)
                &&& p.interface is Some
            },
    decreases ifaces.len(),
{
    if ifaces.len() > 0 {
        lemma_interface_probes_describe(device, ifaces.drop_last(), is_hid);
    }
}

/// The entries of a device in listing mode are a prefix of its entries in
/// opening mode: listing never shows an interface that opening would not
/// offer, and offers them in the same order.
pub proof fn lemma_listing_is_prefix_of_opening(device: UsbDeviceInfo)
    ensures
        cmsisdap_info_of(device, false).len() <= cmsisdap_info_of(device, true).len(),
        cmsisdap_info_of(device, true).take(cmsisdap_info_of(device, false).len() as int)
            == cmsisdap_info_of(device, false),
{
    let v2 = v2_probes(device);
    let v1 = v1_probes(device);
    assert((v2 + v1).take(v2.len() as int) =~= v2);
}

/// Keeps the v2 (non-HID) entries.
pub open spec fn v2_entry() -> spec_fn(ProbeInfoView) -> bool {
    |p: ProbeInfoView| !p.is_hid_interface
}

/// Filtering entries that are all of one version keeps them all (v2) or
/// none (v1).
proof fn lemma_filter_one_version(s: Seq<ProbeInfoView>, is_hid: bool)
    requires
        forall|k: int| 0 <= k < s.len() ==> (#[trigger] s[k]).is_hid_interface == is_hid,
    ensures
        s.filter(v2_entry()) == (if is_hid {
            Seq::<ProbeInfoView>::empty()
        } else {
            s
        }),
    decreases s.len(),
{
    reveal(Seq::filter);
    if s.len() > 0 {
        let rest = s.drop_last();
        assert forall|k: int| 0 <= k < rest.len() implies (#[trigger] rest[k]).is_hid_interface == is_hid by {
            assert(rest[k] == s[k]);
        }
        lemma_filter_one_version(rest, is_hid);
        assert(s[s.len() - 1].is_hid_interface == is_hid);
        if !is_hid {
            assert(rest.push(s.last()) =~= s);
        }
    }
}

/// Listing mode gives the opening-mode entries of a device filtered to its
/// v2 interfaces, or all of them when it has no v2 interface.
pub proof fn lemma_listing_filters_opening(device: UsbDeviceInfo)
    ensures
        cmsisdap_info_of(device, false) == (if exists|i: int|
            0 <= i < cmsisdap_info_of(device, true).len() && !(
            #[trigger] cmsisdap_info_of(device, true)[i]).is_hid_interface {
            cmsisdap_info_of(device, true).filter(v2_entry())
        } else {
            cmsisdap_info_of(device, true)
        }),
{
    lemma_interface_probes_describe(device, device.interfaces@, false);
    lemma_interface_probes_describe(device, device.interfaces@, true);
    let v2 = v2_probes(device);
    let v1 = v1_probes(device);
    let all = cmsisdap_info_of(device, true);
    assert(all == v2 + v1);
    lemma_filter_one_version(v2, false);
    lemma_filter_one_version(v1, true);
    Seq::filter_distributes_over_add(v2, v1, v2_entry());
    if v2.len() > 0 {
        assert(!all[0].is_hid_interface);
        assert(v2 + Seq::<ProbeInfoView>::empty() =~= v2);
    } else {
        assert(v2 + v1 =~= v1);
        assert forall|i: int| 0 <= i < all.len() implies (#[trigger] all[i]).is_hid_interface by {
            assert(all[i] == v1[i]);
        }
    }
}

/// CMSIS-DAP v2 interfaces are offered before v1 interfaces: no v1 (HID)
/// entry of a device comes before a v2 entry, in either mode.
pub proof fn lemma_v2_before_v1(device: UsbDeviceInfo, list_both_versions: bool)
    ensures
        forall|i: int, j: int|
            0 <= i < j < cmsisdap_info_of(device, list_both_versions).len()
                && (#[trigger] cmsisdap_info_of(device, list_both_versions)[i]).is_hid_interface
                ==> (#[trigger] cmsisdap_info_of(device, list_both_versions)[j]).is_hid_interface,
{
    lemma_interface_probes_describe(device, device.interfaces@, false);
    lemma_interface_probes_describe(device, device.interfaces@, true);
    let v2 = v2_probes(device);
    let v1 = v1_probes(device);
    let r = cmsisdap_info_of(device, list_both_versions);
    assert forall|i: int, j: int| 0 <= i < j < r.len() && (#[trigger] r[i]).is_hid_interface implies (#[trigger] r[j]).is_hid_interface by {
        if list_both_versions || v2.len() == 0 {
            if i < v2.len() {
                assert(r[i] == v2[i]);
            } else {
                assert(r[j] == v1[j - v2.len()]);
            }
        } else {
            assert(r[i] == v2[i]);
        }
    }
}

/// In listing mode all entries of a device are of one CMSIS-DAP version, so
/// a device with both v1 and v2 interfaces is listed through its v2
/// interfaces only; and every entry describes the device it comes from.
pub proof fn lemma_listing_one_version(device: UsbDeviceInfo)
    ensures
        forall|i: int, j: int|
            0 <= i < cmsisdap_info_of(device, false).len() && 0 <= j < cmsisdap_info_of(device, false).len()
                ==> (#[trigger] cmsisdap_info_of(device, false)[i]).is_hid_interface
                == (#[trigger] cmsisdap_info_of(device, false)[j]).is_hid_interface,
        v2_probes(device).len() > 0 ==> forall|k: int|
            0 <= k < cmsisdap_info_of(device, false).len()
                ==> !(#[trigger] cmsisdap_info_of(device, false)[k]).is_hid_interface,
        forall|k: int|
            0 <= k < cmsisdap_info_of(device, false).len() ==> {
                let p = #[trigger] cmsisdap_info_of(device, false)[k];
                &&& p.vendor_id == device.vendor_id
                &&& p.product_id == device.product_id
                &&& p.serial_number == opt_view(device.serial_number)
                &&& p.interface is Some
            },
{
    lemma_interface_probes_describe(device, device.interfaces@, false);
    lemma_interface_probes_describe(device, device.interfaces@, true);
    let v2 = v2_probes(device);
    let v1 = v1_probes(device);
    let r = cmsisdap_info_of(device, false);
    if v2.len() == 0 {
        assert(r =~= v1);
    } else {
        assert(r == v2);
    }
}

/// Merging keeps what was listed: the listed entries stay first, unchanged and
/// in order.
pub proof fn lemma_merge_keeps_listed(listed: Seq<ProbeInfoView>, candidates: Seq<ProbeInfoView>)
    ensures
        merge_probes(listed, candidates).len() >= listed.len(),
        merge_probes(listed, candidates).take(listed.len() as int) == listed,
    decreases candidates.len(),
{
    if candidates.len() > 0 {
        lemma_merge_keeps_listed(listed, candidates.drop_last());
        let acc = merge_probes(listed, candidates.drop_last());
        if !has_same_probe(acc, candidates.last()) {
            assert(acc.push(candidates.last()).take(listed.len() as int) =~= acc.take(listed.len() as int));
        }
    }
}

/// Merging loses no probe: every candidate is represented in the result by
/// an entry that stands for the same probe.
pub proof fn lemma_merge_covers_candidates(listed: Seq<ProbeInfoView>, candidates: Seq<ProbeInfoView>)
    ensures
        forall|j: int| 0 <= j < candidates.len() ==> has_same_probe(merge_probes(listed, candidates), #[trigger] candidates[j]),
    decreases candidates.len(),
{
    if candidates.len() > 0 {
        let rest = candidates.drop_last();
        lemma_merge_covers_candidates(listed, rest);
        let acc = merge_probes(listed, rest);
        let r = merge_probes(listed, candidates);
        let last = candidates.last();
        assert(forall|k: int| 0 <= k < acc.len() ==> r[k] == acc[k]);
        assert forall|j: int| 0 <= j < candidates.len() implies has_same_probe(r, #[trigger] candidates[j]) by {
            if j < candidates.len() - 1 {
                assert(candidates[j] == rest[j]);
                assert(has_same_probe(acc, rest[j]));
                let k = choose|k: int| 0 <= k < acc.len() && same_probe(acc[k], rest[j]);
                assert(same_probe(r[k], candidates[j]));
            } else if !has_same_probe(acc, last) {
                assert(same_probe(r[acc.len() as int], last));
            }
        }
    }
}

/// Merging adds only new probes: each entry after the listed ones is a
/// candidate that stands for a probe that no earlier entry stands for.
pub proof fn lemma_merge_adds_only_new(listed: Seq<ProbeInfoView>, candidates: Seq<ProbeInfoView>)
    ensures
        forall|k: int|
            listed.len() <= k < merge_probes(listed, candidates).len() ==> {
                &&& candidates.contains(#[trigger] merge_probes(listed, candidates)[k])
                &&& !has_same_probe(merge_probes(listed, candidates).take(k), merge_probes(listed, candidates)[k])
            },
    decreases candidates.len(),
{
    if candidates.len() > 0 {
        let rest = candidates.drop_last();
        lemma_merge_adds_only_new(listed, rest);
        lemma_merge_keeps_listed(listed, rest);
        let acc = merge_probes(listed, rest);
        let r = merge_probes(listed, candidates);
        assert forall|k: int| listed.len() <= k < r.len() implies {
            &&& candidates.contains(#[trigger] r[k])
            &&& !has_same_probe(r.take(k), r[k])
        } by {
            if k < acc.len() {
                assert(r[k] == acc[k]);
                assert(r.take(k) =~= acc.take(k));
                assert(rest.contains(acc[k]));
                let j = choose|j: int| 0 <= j < rest.len() && rest[j] == acc[k];
                assert(candidates[j] == rest[j]);
            } else {
                assert(r.take(k) =~= acc);
                assert(candidates[candidates.len() - 1] == r[k]);
            }
        }
    }
}

/// Merging candidates that are all represented already changes nothing.
proof fn lemma_merge_of_represented(listed: Seq<ProbeInfoView>, candidates: Seq<ProbeInfoView>)
    requires
        forall|j: int| 0 <= j < candidates.len() ==> has_same_probe(listed, #[trigger] candidates[j]),
    ensures
        merge_probes(listed, candidates) == listed,
    decreases candidates.len(),
{
    if candidates.len() > 0 {
        let rest = candidates.drop_last();
        assert forall|j: int| 0 <= j < rest.len() implies has_same_probe(listed, #[trigger] rest[j]) by {
            assert(rest[j] == candidates[j]);
        }
        lemma_merge_of_represented(listed, rest);
        assert(has_same_probe(listed, candidates[candidates.len() - 1]));
    }
}

/// Merging is idempotent: merging the same candidates again into a merged
/// listing gives that listing back.
pub proof fn lemma_merge_idempotent(listed: Seq<ProbeInfoView>, candidates: Seq<ProbeInfoView>)
    ensures
        merge_probes(merge_probes(listed, candidates), candidates) == merge_probes(listed, candidates),
{
    lemma_merge_covers_candidates(listed, candidates);
    lemma_merge_of_represented(merge_probes(listed, candidates), candidates);
}

/// The probes of a system: those of the USB listing come first, unchanged;
/// every CMSIS-DAP probe among the HID entries is represented; and each entry
/// after the USB ones is a HID probe that no earlier entry stands for.
pub proof fn lemma_probe_listing(usb_devices: Seq<UsbDeviceInfo>, hid_devices: Seq<HidDeviceInfo>)
    ensures
        probe_listing(Some(usb_devices), Some(hid_devices)).take(nusb_probes(usb_devices).len() as int)
            == nusb_probes(usb_devices),
        forall|j: int|
            0 <= j < hid_probes(hid_devices).len() ==> has_same_probe(
                probe_listing(Some(usb_devices), Some(hid_devices)),
                #[trigger] hid_probes(hid_devices)[j],
            ),
        forall|k: int|
            nusb_probes(usb_devices).len() <= k < probe_listing(Some(usb_devices), Some(hid_devices)).len() ==> {
                &&& hid_probes(hid_devices).contains(
                    #[trigger] probe_listing(Some(usb_devices), Some(hid_devices))[k],
                )
                &&& !has_same_probe(
                    probe_listing(Some(usb_devices), Some(hid_devices)).take(k),
                    probe_listing(Some(usb_devices), Some(hid_devices))[k],
                )
            },
{
    lemma_merge_keeps_listed(nusb_probes(usb_devices), hid_probes(hid_devices));
    lemma_merge_covers_candidates(nusb_probes(usb_devices), hid_probes(hid_devices));
    lemma_merge_adds_only_new(nusb_probes(usb_devices), hid_probes(hid_devices));
}

/// A text that names CMSIS-DAP still does with more text around it.
pub proof fn lemma_names_cmsis_dap_in_context(prefix: Seq<char>, s: Seq<char>, suffix: Seq<char>)
    requires
        names_cmsis_dap(s),
    ensures
        names_cmsis_dap(prefix + s + suffix),
{
    let t = prefix + s + suffix;
    let pat = if contains_chars(s, dash_spelling()) {
        dash_spelling()
    } else {
        underscore_spelling()
    };
    let i = choose|i: int| occurs_at(s, pat, i);
    let j = prefix.len() + i;
    assert(t.subrange(j, j + pat.len()) =~= s.subrange(i, i + pat.len()));
    assert(occurs_at(t, pat, j));
}

/// The denylist refuses only Raspberry Pi debugprobes, and refuses older
/// firmware wherever it refuses newer: a device refused at one version is
/// refused at every lower one.
pub proof fn lemma_denylist_downward_closed(vendor_id: u16, product_id: u16, version: u16, older: u16)
    requires
        is_outdated_rpi_debugprobe(vendor_id, product_id, version),
        older <= version,
    ensures
        is_outdated_rpi_debugprobe(vendor_id, product_id, older),
        vendor_id == 0x2e8a && product_id == 0x000c,
{
}

/// The HID report size is the 64-byte default or the 512 bytes of an EDBG,
/// and only an Atmel device (vendor 0x03eb) gets 512.
pub proof fn lemma_hid_report_size_values(device: HidDeviceInfo)
    ensures
        hid_report_size_of(device) == 64 || hid_report_size_of(device) == 512,
        hid_report_size_of(device) == 512 ==> device.vendor_id == 0x03eb,
{
}

/// Every selected alternate setting belongs to a selected interface.
proof fn lemma_selected_alt_settings(groups: Seq<InterfaceDescriptorsView>, selected: Option<u8>)
    ensures
        forall|k: int| 0 <= k < selected_alt_settings(groups, selected).len()
            ==> interface_selected(selected, (#[trigger] selected_alt_settings(groups, selected)[k]).0),
    decreases groups.len(),
{
    if groups.len() > 0 {
        lemma_selected_alt_settings(groups.drop_last(), selected);
        let g = groups.last();
        let rest = selected_alt_settings(groups.drop_last(), selected);
        let all = selected_alt_settings(groups, selected);
        if interface_selected(selected, g.interface_number) {
            let tagged = tag_alts(g.interface_number, g.alt_settings);
            assert forall|k: int| 0 <= k < all.len() implies interface_selected(selected, (#[trigger] all[k]).0) by {
                if k < rest.len() {
                    assert(all[k] == rest[k]);
                } else {
                    assert(all[k] == tagged[k - rest.len()]);
                }
            }
        }
    }
}

/// Every v2 interface that the search finds is on the interface of a setting
/// it looked at, so it passes the selection when they all do.
proof fn lemma_v2_search_selected(device: UsbDeviceInfo, alts: Seq<(u8, AltSettingView)>, selected: Option<u8>)
    requires
        forall|j: int| 0 <= j < alts.len() ==> interface_selected(selected, (#[trigger] alts[j]).0),
    ensures
        forall|k: int| 0 <= k < v2_search(device, alts).0.len()
            ==> interface_selected(selected, (#[trigger] v2_search(device, alts).0[k]).interface_number),
    decreases alts.len(),
{
    if alts.len() > 0 {
        let rest = alts.drop_last();
        assert forall|j: int| 0 <= j < rest.len() implies interface_selected(selected, (#[trigger] rest[j]).0) by {
            assert(rest[j] == alts[j]);
        }
        lemma_v2_search_selected(device, rest, selected);
        assert(interface_selected(selected, alts[alts.len() - 1].0));
    }
}

/// The largest packet size that a pass over the endpoints finds is 64 at
/// least.
proof fn lemma_interrupt_scan_at_least_64(eps: Seq<EndpointDescriptor>)
    ensures
        interrupt_scan(eps).2 >= 64,
    decreases eps.len(),
{
    if eps.len() > 0 {
        lemma_interrupt_scan_at_least_64(eps.drop_last());
    }
}

/// Every v1 interface offered passes the selection when all the settings
/// looked at do, and has a report size of 64 bytes at least.
proof fn lemma_v1_candidates_selected(device: UsbDeviceInfo, alts: Seq<(u8, AltSettingView)>, selected: Option<u8>)
    requires
        forall|j: int| 0 <= j < alts.len() ==> interface_selected(selected, (#[trigger] alts[j]).0),
    ensures
        forall|k: int| 0 <= k < v1_candidates(device, alts).len() ==> {
            let c = #[trigger] v1_candidates(device, alts)[k];
            interface_selected(selected, c.interface_number) && c.report_size >= 64
        },
    decreases alts.len(),
{
    if alts.len() > 0 {
        let rest = alts.drop_last();
        assert forall|j: int| 0 <= j < rest.len() implies interface_selected(selected, (#[trigger] rest[j]).0) by {
            assert(rest[j] == alts[j]);
        }
        lemma_v1_candidates_selected(device, rest, selected);
        let (number, alt) = alts.last();
        assert(interface_selected(selected, alts[alts.len() - 1].0));
        lemma_interrupt_scan_at_least_64(alt.endpoints);
        let prev = v1_candidates(device, rest);
        let all = v1_candidates(device, alts);
        assert forall|k: int| 0 <= k < all.len() implies {
            let c = #[trigger] all[k];
            interface_selected(selected, c.interface_number) && c.report_size >= 64
        } by {
            if k < prev.len() {
                assert(all[k] == prev[k]);
            } else {
                let c = v1_alt_candidate(device, number, alt)->0;
                assert(all[k] == c);
                assert(c.report_size == interrupt_scan(alt.endpoints).2);
            }
        }
    }
}

/// Opening honours the interface selection: with an interface selected,
/// every v2 and every v1 interface offered for claiming is that interface;
/// and every v1 interface starts with a report size of 64 bytes at least.
pub proof fn lemma_candidates_respect_selection(device: UsbDeviceInfo, config: Option<ConfigurationView>, selected: Option<u8>)
    ensures
        forall|k: int| 0 <= k < v2_search(device, configuration_alt_settings(config, selected)).0.len()
            ==> interface_selected(
                selected,
                (#[trigger] v2_search(device, configuration_alt_settings(config, selected)).0[k]).interface_number,
            ),
        forall|k: int| 0 <= k < v1_candidates(device, configuration_alt_settings(config, selected)).len() ==> {
            let c = #[trigger] v1_candidates(device, configuration_alt_settings(config, selected))[k];
            interface_selected(selected, c.interface_number) && c.report_size >= 64
        },
{
    match config {
        Some(c) => lemma_selected_alt_settings(c.interfaces, selected),
        None => {},
    }
    lemma_v2_search_selected(device, configuration_alt_settings(config, selected), selected);
    lemma_v1_candidates_selected(device, configuration_alt_settings(config, selected), selected);
}

/// The entry chosen among a device's entries has the wanted interface and
/// is one of them.
proof fn lemma_first_wanted(probes: Seq<ProbeInfoView>, wanted: Option<u8>)
    ensures
        first_wanted(probes, wanted) matches Some(p) ==> interface_wanted(wanted, p) && probes.contains(p),
    decreases probes.len(),
{
    if probes.len() > 0 && !interface_wanted(wanted, probes[0]) {
        lemma_first_wanted(probes.drop_first(), wanted);
        if first_wanted(probes.drop_first(), wanted) is Some {
            let p = first_wanted(probes.drop_first(), wanted)->0;
            let i = choose|i: int| 0 <= i < probes.drop_first().len() && probes.drop_first()[i] == p;
            assert(probes[i + 1] == p);
        }
    } else if probes.len() > 0 {
        assert(probes.contains(probes[0]));
    }
}

/// The attempts to open a selected probe go through the devices in list
/// order, each at most once; each one is a device that the selector picks,
/// through a CMSIS-DAP entry of that device with the selected interface.
pub proof fn lemma_selector_attempts(devices: Seq<UsbDeviceInfo>, selector: DebugProbeSelector)
    requires
        devices.len() <= usize::MAX,
    ensures
        forall|k: int| 0 <= k < selector_attempts(devices, selector).len() ==> {
            let a = #[trigger] selector_attempts(devices, selector)[k];
            &&& a.device_index < devices.len()
            &&& selector_matches_device(selector, devices[a.device_index as int])
            &&& interface_wanted(selector.interface, a.probe)
            &&& cmsisdap_info_of(devices[a.device_index as int], true).contains(a.probe)
        },
        forall|i: int, j: int| 0 <= i < j < selector_attempts(devices, selector).len()
            ==> (#[trigger] selector_attempts(devices, selector)[i]).device_index
            < (#[trigger] selector_attempts(devices, selector)[j]).device_index,
    decreases devices.len(),
{
    if devices.len() > 0 {
        let rest_devices = devices.drop_last();
        lemma_selector_attempts(rest_devices, selector);
        let rest = selector_attempts(rest_devices, selector);
        let all = selector_attempts(devices, selector);
        let last = devices.last();
        lemma_first_wanted(cmsisdap_info_of(last, true), selector.interface);
        assert forall|k: int| 0 <= k < all.len() implies {
            let a = #[trigger] all[k];
            &&& a.device_index < devices.len()
            &&& selector_matches_device(selector, devices[a.device_index as int])
            &&& interface_wanted(selector.interface, a.probe)
            &&& cmsisdap_info_of(devices[a.device_index as int], true).contains(a.probe)
        } by {
            if k < rest.len() {
                assert(all[k] == rest[k]);
                assert(devices[rest[k].device_index as int] == rest_devices[rest[k].device_index as int]);
            } else {
                let p = device_attempt_probe(selector, last)->0;
                assert(all[k].device_index == (devices.len() - 1) as usize);
                assert(all[k].probe == p);
                assert(devices[devices.len() - 1] == last);
            }
        }
        assert forall|i: int, j: int| 0 <= i < j < all.len() implies (#[trigger] all[i]).device_index
            < (#[trigger] all[j]).device_index by {
            assert(all[i] == rest[i]);
            if j < rest.len() {
                assert(all[j] == rest[j]);
            } else {
                assert(all[j].device_index == (devices.len() - 1) as usize);
                assert(rest[i].device_index < rest_devices.len());
            }
        }
    }
}

/// An LPC-Link2 HID entry on an interface above 0 is never opened: it is a
/// UART bridge or SWO sink that drops every DAP command.
pub proof fn lemma_lpc_link2_secondary_interface_refused(
    entry: HidDeviceInfo,
    selector: DebugProbeSelector,
    probe: Option<ProbeInfoView>,
)
    requires
        is_lpc_link2(entry.vendor_id, entry.product_id),
        entry.interface_number > 0,
    ensures
        !hid_entry_selected(entry, selector, probe),
{
}

/// An LPC-Link2 HID entry whose interface number the platform could not tell
/// is opened when its ids and serial number are selected, whatever HID
/// interface the USB search found.
pub proof fn lemma_lpc_link2_unknown_interface_accepted(
    entry: HidDeviceInfo,
    selector: DebugProbeSelector,
    probe: Option<ProbeInfoView>,
)
    requires
        is_lpc_link2(entry.vendor_id, entry.product_id),
        entry.interface_number < 0,
        entry.vendor_id == selector.vendor_id,
        entry.product_id == selector.product_id,
        opt_view(selector.serial_number) is None || opt_view(entry.serial_number) == opt_view(selector.serial_number),
    ensures
        hid_entry_selected(entry, selector, probe),
{
}

/// When the USB listing yields no probe, the system listing is the HID
/// listing: every entry is a HID probe, every HID probe is represented, and
/// no probe is listed twice.
pub proof fn lemma_listing_falls_back_to_hid(usb_devices: Option<Seq<UsbDeviceInfo>>, hid_devices: Seq<HidDeviceInfo>)
    requires
        match usb_devices {
            Some(d) => nusb_probes(d).len() == 0,
            None => true,
        },
    ensures
        forall|k: int| 0 <= k < probe_listing(usb_devices, Some(hid_devices)).len() ==> {
            &&& hid_probes(hid_devices).contains(#[trigger] probe_listing(usb_devices, Some(hid_devices))[k])
            &&& !has_same_probe(
                probe_listing(usb_devices, Some(hid_devices)).take(k),
                probe_listing(usb_devices, Some(hid_devices))[k],
            )
        },
        forall|j: int|
            0 <= j < hid_probes(hid_devices).len() ==> has_same_probe(
                probe_listing(usb_devices, Some(hid_devices)),
                #[trigger] hid_probes(hid_devices)[j],
            ),
{
    let listed = match usb_devices {
        Some(d) => nusb_probes(d),
        None => Seq::<ProbeInfoView>::empty(),
    };
    assert(listed.len() == 0);
    lemma_merge_covers_candidates(listed, hid_probes(hid_devices));
    lemma_merge_adds_only_new(listed, hid_probes(hid_devices));
}

/// Each attempt tries v2 before v1: a v1 step through the interrupt
/// endpoints comes right after the v2 step for the same device and
/// interface, and only for a HID entry; every step belongs to an attempt.
pub proof fn lemma_open_steps(attempts: Seq<ProbeAttemptView>)
    ensures
        forall|k: int| 0 <= k < open_steps_of(attempts).len() ==> match #[trigger] open_steps_of(attempts)[k] {
            OpenStep::V1Direct { device_index, interface } => k > 0 && open_steps_of(attempts)[k - 1]
                == (OpenStep::V2 { device_index, interface }) && exists|a: int|
                0 <= a < attempts.len() && attempts[a].device_index == device_index
                    && attempts[a].probe.interface == interface && attempts[a].probe.is_hid_interface,
            OpenStep::V2 { device_index, interface } => exists|a: int|
                0 <= a < attempts.len() && attempts[a].device_index == device_index
                    && attempts[a].probe.interface == interface,
        },
    decreases attempts.len(),
{
    if attempts.len() > 0 {
        let rest = attempts.drop_last();
        lemma_open_steps(rest);
        let prev = open_steps_of(rest);
        let all = open_steps_of(attempts);
        let last = attempts.last();
        let mine = attempt_steps(last);
        assert forall|k: int| 0 <= k < all.len() implies match #[trigger] all[k] {
            OpenStep::V1Direct { device_index, interface } => k > 0 && all[k - 1]
                == (OpenStep::V2 { device_index, interface }) && exists|a: int|
                0 <= a < attempts.len() && attempts[a].device_index == device_index
                    && attempts[a].probe.interface == interface && attempts[a].probe.is_hid_interface,
            OpenStep::V2 { device_index, interface } => exists|a: int|
                0 <= a < attempts.len() && attempts[a].device_index == device_index
                    && attempts[a].probe.interface == interface,
        } by {
            if k < prev.len() {
                assert(all[k] == prev[k]);
                if k > 0 {
                    assert(all[k - 1] == prev[k - 1]);
                }
                match prev[k] {
                    OpenStep::V1Direct { device_index, interface } => {
                        let a = choose|a: int|
                            0 <= a < rest.len() && rest[a].device_index == device_index
                                && rest[a].probe.interface == interface && rest[a].probe.is_hid_interface;
                        assert(attempts[a] == rest[a]);
                    },
                    OpenStep::V2 { device_index, interface } => {
                        let a = choose|a: int|
                            0 <= a < rest.len() && rest[a].device_index == device_index
                                && rest[a].probe.interface == interface;
                        assert(attempts[a] == rest[a]);
                    },
                }
            } else {
                let a = attempts.len() - 1;
                assert(attempts[a] == last);
                assert(all[k] == mine[k - prev.len()]);
                if k > prev.len() {
                    assert(all[k - 1] == mine[0]);
                }
            }
        }
    }
}

/// Opening a selected probe runs the steps in order, each at most once: a
/// step is run only after the one before it could not open its device; the
/// HID entries are turned to only after the last step could not open its
/// device; an opened device or an error ends the search at once.
pub proof fn lemma_open_run_semantics(step_count: usize, current: usize, outcome: StepOutcome)
    requires
        current < step_count,
    ensures
        run_or_try_hid(step_count, 0) == (if step_count == 0 {
            OpenAction::TryHid
        } else {
            OpenAction::RunStep(0)
        }),
        open_action_after(step_count, current, outcome) matches OpenAction::RunStep(k) ==> k == current + 1
            && outcome is NotOpened,
        open_action_after(step_count, current, outcome) is TryHid ==> current + 1 == step_count
            && outcome is NotOpened,
        open_action_after(step_count, current, outcome) is UseOpened <==> outcome is Opened,
        open_action_after(step_count, current, outcome) is Fail <==> outcome is Failed,
{
}

/// Claiming tries the candidates in order, each at most once: after a failed
/// claim the next candidate is tried; a device is given up only when every
/// candidate failed, and found unusable only when, moreover, the search
/// stopped at an unreadable setting.
pub proof fn lemma_claim_semantics(candidate_count: usize, next: int, search_stopped: bool)
    requires
        0 <= next,
    ensures
        claim_or_give_up(candidate_count, next, search_stopped) matches ClaimAction::Claim(k) ==> k == next
            && next < candidate_count,
        claim_or_give_up(candidate_count, next, search_stopped) is NotOpened <==> next >= candidate_count
            && !search_stopped,
        claim_or_give_up(candidate_count, next, search_stopped) is MalformedDescriptors <==> next
            >= candidate_count && search_stopped,
{
}

/// The HID entry filter: an entry is chosen exactly when it has the
/// selector's vendor id and product id, carries the selected serial number
/// (if one is selected), is not an LPC-Link2 interface above 0, and, only
/// when the entry kept from the USB search is a HID interface with a known
/// number, is on that interface (or is an LPC-Link2 entry whose interface
/// number could not be told). A kept entry that is not a HID interface, or
/// no kept entry at all, puts no condition on the interface number.
pub proof fn lemma_hid_entry_filter(entry: HidDeviceInfo, selector: DebugProbeSelector, probe: Option<ProbeInfoView>)
    ensures
        hid_entry_selected(entry, selector, probe) == {
            let lpc = entry.vendor_id == 0x1fc9 && (entry.product_id == 0x0090 || entry.product_id == 0x0132);
            &&& entry.vendor_id == selector.vendor_id
            &&& entry.product_id == selector.product_id
            &&& (opt_view(selector.serial_number) is None || opt_view(entry.serial_number) == opt_view(
                selector.serial_number,
            ))
            &&& !(lpc && entry.interface_number > 0)
            &&& (probe matches Some(p) && p.is_hid_interface && p.interface is Some) ==> (lpc
                && entry.interface_number < 0) || entry.interface_number == (probe->0.interface->0) as i32
        },
{
}

/// The HID report size is 512 exactly for a vendor 0x03eb device whose
/// product string holds "EDBG" somewhere, and 64 for every other.
pub proof fn lemma_hid_report_size_exact(device: HidDeviceInfo)
    ensures
        hid_report_size_of(device) == (if device.vendor_id == 0x03eb && (device.product_string matches Some(s)
            && exists|i: int|
            0 <= i && i + 4 <= s@.len() && #[trigger] s@.subrange(i, i + 4) == seq!['E', 'D', 'B', 'G']) {
            512usize
        } else {
            64usize
        }),
{
    match device.product_string {
        Some(s) => {
            assert(edbg_spelling() =~= seq!['E', 'D', 'B', 'G']);
            if exists|i: int|
                0 <= i && i + 4 <= s@.len() && #[trigger] s@.subrange(i, i + 4) == seq!['E', 'D', 'B', 'G'] {
                let i = choose|i: int|
                    0 <= i && i + 4 <= s@.len() && #[trigger] s@.subrange(i, i + 4) == seq!['E', 'D', 'B', 'G'];
                assert(occurs_at(s@, edbg_spelling(), i));
            }
        },
        None => {},
    }
}

/// Appending an entry to the HID device list appends its probe, if it is
/// one, after the probes of the entries before it.
pub proof fn lemma_hid_probes_push(h: Seq<HidDeviceInfo>, e: HidDeviceInfo)
    ensures
        hid_probes(h.push(e)) == (match hid_probe_of(e) {
            Some(p) => hid_probes(h).push(p),
            None => hid_probes(h),
        }),
{
    assert(h.push(e).drop_last() =~= h);
    assert(h.push(e).last() == e);
}

/// The HID probes of two lists one after the other are those of the first
/// list followed by those of the second: the probes keep the order of the
/// HID device list.
pub proof fn lemma_hid_probes_concat(a: Seq<HidDeviceInfo>, b: Seq<HidDeviceInfo>)
    ensures
        hid_probes(a + b) == hid_probes(a) + hid_probes(b),
    decreases b.len(),
{
    if b.len() == 0 {
        assert(a + b =~= a);
        assert(hid_probes(a) + hid_probes(b) =~= hid_probes(a));
    } else {
        lemma_hid_probes_concat(a, b.drop_last());
        assert((a + b).drop_last() =~= a + b.drop_last());
        assert((a + b).last() == b.last());
        match hid_probe_of(b.last()) {
            Some(p) => {
                assert(hid_probes(a) + hid_probes(b.drop_last()).push(p) =~= (hid_probes(a) + hid_probes(
                    b.drop_last(),
                )).push(p));
            },
            None => {},
        }
    }
}

/// Merging candidates in two batches is merging them all at once: the
/// candidates are considered in order, each against all that came before.
pub proof fn lemma_merge_in_batches(listed: Seq<ProbeInfoView>, c1: Seq<ProbeInfoView>, c2: Seq<ProbeInfoView>)
    ensures
        merge_probes(listed, c1 + c2) == merge_probes(merge_probes(listed, c1), c2),
    decreases c2.len(),
{
    if c2.len() == 0 {
        assert(c1 + c2 =~= c1);
    } else {
        lemma_merge_in_batches(listed, c1, c2.drop_last());
        assert((c1 + c2).drop_last() =~= c1 + c2.drop_last());
        assert((c1 + c2).last() == c2.last());
    }
}

/// The system listing keeps the order of the HID device list: the HID
/// entries are merged one after the other, in list order, so that of two
/// entries that stand for the same probe the earlier one is listed.
pub proof fn lemma_probe_listing_hid_order(usb_devices: Option<Seq<UsbDeviceInfo>>, h1: Seq<HidDeviceInfo>, h2: Seq<HidDeviceInfo>)
    ensures
        probe_listing(usb_devices, Some(h1 + h2)) == merge_probes(probe_listing(usb_devices, Some(h1)), hid_probes(h2)),
{
    let listed = match usb_devices {
        Some(d) => nusb_probes(d),
        None => Seq::<ProbeInfoView>::empty(),
    };
    lemma_hid_probes_concat(h1, h2);
    lemma_merge_in_batches(listed, hid_probes(h1), hid_probes(h2));
}

/// An interface whose entry is of the asked version has that entry among
/// the entries of the interfaces.
proof fn lemma_interface_probes_contain(device: UsbDeviceInfo, ifaces: Seq<InterfaceInfo>, is_hid: bool, i: int)
    requires
        0 <= i < ifaces.len(),
        interface_probe(device, ifaces[i]) matches Some(p) && p.is_hid_interface == is_hid,
    ensures
        interface_probes(device, ifaces, is_hid).contains(interface_probe(device, ifaces[i])->0),
    decreases ifaces.len(),
{
    let p = interface_probe(device, ifaces[i])->0;
    let rest = interface_probes(device, ifaces.drop_last(), is_hid);
    let all = interface_probes(device, ifaces, is_hid);
    if i == ifaces.len() - 1 {
        assert(ifaces.last() == ifaces[i]);
        assert(all == rest.push(p));
        assert(all[rest.len() as int] == p);
    } else {
        assert(ifaces.drop_last()[i] == ifaces[i]);
        lemma_interface_probes_contain(device, ifaces.drop_last(), is_hid, i);
        let j = choose|j: int| 0 <= j < rest.len() && rest[j] == p;
        assert(all[j] == p);
    }
}

/// Every entry of the interfaces is the entry of one of them.
proof fn lemma_interface_probes_origin(device: UsbDeviceInfo, ifaces: Seq<InterfaceInfo>, is_hid: bool)
    ensures
        forall|k: int|
            0 <= k < interface_probes(device, ifaces, is_hid).len() ==> exists|j: int|
                0 <= j < ifaces.len() && interface_probe(device, #[trigger] ifaces[j]) == Some(
                    #[trigger] interface_probes(device, ifaces, is_hid)[k],
                ),
    decreases ifaces.len(),
{
    if ifaces.len() > 0 {
        let rest = interface_probes(device, ifaces.drop_last(), is_hid);
        let all = interface_probes(device, ifaces, is_hid);
        lemma_interface_probes_origin(device, ifaces.drop_last(), is_hid);
        assert forall|k: int| 0 <= k < all.len() implies exists|j: int|
            0 <= j < ifaces.len() && interface_probe(device, #[trigger] ifaces[j]) == Some(#[trigger] all[k]) by {
            if k < rest.len() {
                assert(all[k] == rest[k]);
                let j = choose|j: int|
                    0 <= j < ifaces.drop_last().len() && interface_probe(device, #[trigger] ifaces.drop_last()[j])
                        == Some(#[trigger] rest[k]);
                assert(ifaces.drop_last()[j] == ifaces[j]);
            } else {
                let j = ifaces.len() - 1;
                assert(ifaces[j] == ifaces.last());
            }
        }
    }
}

/// The interfaces of a device that are CMSIS-DAP interfaces are offered for
/// opening, each as an entry on its own interface: one whose string names
/// CMSIS-DAP and whose class is HID as a v1 (HID) entry, whatever the
/// device's product string and ids; one whose string names CMSIS-DAP and
/// whose class and subclass are 0xff and 0 as a v2 entry, in listing mode
/// too; and, on a device whose product string names CMSIS-DAP or whose ids
/// are known, any other HID interface as a v1 entry. Listing mode shows the
/// v1 entries of a device without v2 entries.
pub proof fn lemma_cmsis_dap_interfaces_offered(device: UsbDeviceInfo, i: int)
    requires
        0 <= i < device.interfaces@.len(),
    ensures
        ({
            let iface = device.interfaces@[i];
            let named = iface.interface_string matches Some(s) && names_cmsis_dap(s@);
            let hid_entry = (ProbeInfoView {
                identifier: text_or_empty(opt_view(device.product_string)),
                vendor_id: device.vendor_id,
                product_id: device.product_id,
                serial_number: opt_view(device.serial_number),
                interface: Some(iface.interface_number),
                is_hid_interface: true,
            });
            let bulk_entry = (ProbeInfoView {
                identifier: text_or_empty(opt_view(device.product_string)),
                vendor_id: device.vendor_id,
                product_id: device.product_id,
                serial_number: opt_view(device.serial_number),
                interface: Some(iface.interface_number),
                is_hid_interface: false,
            });
            &&& (iface.class == 0x03 && (named || is_cmsis_dap_product(device))) ==> {
                &&& cmsisdap_info_of(device, true).contains(hid_entry)
                &&& v2_probes(device).len() == 0 ==> cmsisdap_info_of(device, false).contains(hid_entry)
            }
            &&& (named && iface.class == 0xff && iface.subclass == 0x00) ==> {
                &&& cmsisdap_info_of(device, true).contains(bulk_entry)
                &&& cmsisdap_info_of(device, false).contains(bulk_entry)
            }
        }),
{
    let iface = device.interfaces@[i];
    let v2 = v2_probes(device);
    let v1 = v1_probes(device);
    match interface_probe(device, iface) {
        Some(p) => {
            if p.is_hid_interface {
                lemma_interface_probes_contain(device, device.interfaces@, true, i);
                let j = choose|j: int| 0 <= j < v1.len() && v1[j] == p;
                assert((v2 + v1)[v2.len() + j] == p);
                if v2.len() == 0 {
                    assert(cmsisdap_info_of(device, false) == v2 + v1);
                }
            } else {
                lemma_interface_probes_contain(device, device.interfaces@, false, i);
                let j = choose|j: int| 0 <= j < v2.len() && v2[j] == p;
                assert((v2 + v1)[j] == p);
            }
        },
        None => {},
    }
}

/// Every entry that a device offers, in either mode, stands for one of its
/// interfaces: a v1 (HID) entry for an interface of class HID whose string
/// names CMSIS-DAP or that belongs to a device whose product string names
/// CMSIS-DAP or whose ids are known; a v2 entry for an interface of class
/// 0xff and subclass 0 whose string names CMSIS-DAP. Each carries the
/// device's ids, product string (empty where absent) and serial number.
pub proof fn lemma_offered_entries_origin(device: UsbDeviceInfo, list_both_versions: bool, k: int)
    requires
        0 <= k < cmsisdap_info_of(device, list_both_versions).len(),
    ensures
        ({
            let p = cmsisdap_info_of(device, list_both_versions)[k];
            &&& p.vendor_id == device.vendor_id
            &&& p.product_id == device.product_id
            &&& p.identifier == text_or_empty(opt_view(device.product_string))
            &&& p.serial_number == opt_view(device.serial_number)
            &&& exists|j: int|
                0 <= j < device.interfaces@.len() && {
                    let iface = #[trigger] device.interfaces@[j];
                    let named = iface.interface_string matches Some(s) && names_cmsis_dap(s@);
                    &&& p.interface == Some(iface.interface_number)
                    &&& p.is_hid_interface ==> iface.class == 0x03 && (named || is_cmsis_dap_product(device))
                    &&& !p.is_hid_interface ==> named && iface.class == 0xff && iface.subclass == 0x00
                }
        }),
{
    let v2 = v2_probes(device);
    let v1 = v1_probes(device);
    let all = cmsisdap_info_of(device, list_both_versions);
    let p = all[k];
    lemma_interface_probes_origin(device, device.interfaces@, false);
    lemma_interface_probes_origin(device, device.interfaces@, true);
    let ghost src: (Seq<ProbeInfoView>, bool, int) = if k < v2.len() {
        assert(all[k] == v2[k]);
        (v2, false, k)
    } else {
        assert(all == v2 + v1);
        assert(all[k] == v1[k - v2.len()]);
        (v1, true, k - v2.len())
    };
    let j = choose|j: int|
        0 <= j < device.interfaces@.len() && interface_probe(device, #[trigger] device.interfaces@[j]) == Some(
            #[trigger] interface_probes(device, device.interfaces@, src.1)[src.2],
        );
    assert(interface_probe(device, device.interfaces@[j]) == Some(p));
}

/// The alternate setting offers the v2 interface `c`: its first endpoint is
/// bulk OUT at `c`'s OUT address, its second bulk IN at `c`'s IN address and
/// with `c`'s packet size, and it announces two or three endpoints.
pub open spec fn offers_v2_interface(alt: AltSettingView, c: V2Interface) -> bool {
    &&& 2 <= alt.num_endpoints <= 3
    &&& alt.endpoints.len() >= 2
    &&& alt.endpoints[0].transfer_type == TransferType::Bulk
    &&& alt.endpoints[0].direction == Direction::Out
    &&& alt.endpoints[0].address == c.out_ep
    &&& alt.endpoints[1].transfer_type == TransferType::Bulk
    &&& alt.endpoints[1].direction == Direction::In
    &&& alt.endpoints[1].address == c.in_ep
    &&& alt.endpoints[1].max_packet_size == c.max_packet_size
}

/// Every v2 candidate lies on an interface whose string, as the operating
/// system reports it, names CMSIS-DAP, and is offered by one of the searched
/// alternate settings of that interface, whose endpoints it takes.
pub proof fn lemma_v2_candidates_sound(device: UsbDeviceInfo, alts: Seq<(u8, AltSettingView)>)
    ensures
        forall|k: int|
            0 <= k < v2_search(device, alts).0.len() ==> {
                &&& interface_named(device, (#[trigger] v2_search(device, alts).0[k]).interface_number)
                &&& exists|j: int|
                    0 <= j < alts.len() && (#[trigger] alts[j]).0 == v2_search(device, alts).0[k].interface_number
                        && offers_v2_interface(alts[j].1, v2_search(device, alts).0[k])
            },
    decreases alts.len(),
{
    if alts.len() > 0 {
        let prev = alts.drop_last();
        lemma_v2_candidates_sound(device, prev);
        let found = v2_search(device, prev).0;
        let all = v2_search(device, alts).0;
        assert forall|k: int| 0 <= k < all.len() implies {
            &&& interface_named(device, (#[trigger] all[k]).interface_number)
            &&& exists|j: int|
                0 <= j < alts.len() && (#[trigger] alts[j]).0 == all[k].interface_number && offers_v2_interface(
                    alts[j].1,
                    all[k],
                )
        } by {
            if k < found.len() {
                assert(all[k] == found[k]);
                let j = choose|j: int|
                    0 <= j < prev.len() && (#[trigger] prev[j]).0 == found[k].interface_number
                        && offers_v2_interface(prev[j].1, found[k]);
                assert(prev[j] == alts[j]);
            } else {
                assert(alts[alts.len() - 1] == alts.last());
            }
        }
    }
}

/// A v2 search that did not stop at an unreadable setting misses no
/// interface: every searched alternate setting of an interface whose string
/// names CMSIS-DAP, announcing two or three endpoints of which the first is
/// bulk OUT and the second bulk IN, gives a candidate on that interface with
/// those endpoints.
pub proof fn lemma_v2_candidates_complete(device: UsbDeviceInfo, alts: Seq<(u8, AltSettingView)>)
    ensures
        !v2_search(device, alts).1 ==> forall|j: int|
            0 <= j < alts.len() && interface_named(device, (#[trigger] alts[j]).0) && 2 <= alts[j].1.num_endpoints
                <= 3 && alts[j].1.endpoints.len() >= 2 && alts[j].1.endpoints[0].transfer_type
                == TransferType::Bulk && alts[j].1.endpoints[0].direction == Direction::Out
                && alts[j].1.endpoints[1].transfer_type == TransferType::Bulk
                && alts[j].1.endpoints[1].direction == Direction::In ==> exists|k: int|
                0 <= k < v2_search(device, alts).0.len() && (#[trigger] v2_search(device, alts).0[k]).interface_number
                    == alts[j].0 && offers_v2_interface(alts[j].1, v2_search(device, alts).0[k]),
    decreases alts.len(),
{
    if alts.len() > 0 {
        let prev = alts.drop_last();
        lemma_v2_candidates_complete(device, prev);
        let found = v2_search(device, prev).0;
        let all = v2_search(device, alts).0;
        if !v2_search(device, alts).1 {
            assert forall|j: int|
                0 <= j < alts.len() && interface_named(device, (#[trigger] alts[j]).0) && 2 <= alts[j].1.num_endpoints
                    <= 3 && alts[j].1.endpoints.len() >= 2 && alts[j].1.endpoints[0].transfer_type
                    == TransferType::Bulk && alts[j].1.endpoints[0].direction == Direction::Out
                    && alts[j].1.endpoints[1].transfer_type == TransferType::Bulk
                    && alts[j].1.endpoints[1].direction == Direction::In implies exists|k: int|
                0 <= k < all.len() && (#[trigger] all[k]).interface_number == alts[j].0 && offers_v2_interface(
                    alts[j].1,
                    all[k],
                ) by {
                if j < prev.len() {
                    assert(prev[j] == alts[j]);
                    let k = choose|k: int|
                        0 <= k < found.len() && (#[trigger] found[k]).interface_number == prev[j].0
                            && offers_v2_interface(prev[j].1, found[k]);
                    assert(all[k] == found[k]);
                } else {
                    assert(alts[j] == alts.last());
                    assert(all[found.len() as int].interface_number == alts[j].0);
                }
            }
        }
    }
}

/// The endpoints that a pass over the endpoints picks are interrupt
/// endpoints of the setting in the right direction, and the packet size it
/// finds is 64 or that of one of its interrupt endpoints, and no smaller than
/// any of them.
proof fn lemma_interrupt_scan_found(eps: Seq<EndpointDescriptor>)
    ensures
        interrupt_scan(eps).0 matches Some(a) ==> exists|e: int|
            0 <= e < eps.len() && (#[trigger] eps[e]).transfer_type == TransferType::Interrupt
                && eps[e].direction == Direction::Out && eps[e].address == a,
        interrupt_scan(eps).1 matches Some(a) ==> exists|e: int|
            0 <= e < eps.len() && (#[trigger] eps[e]).transfer_type == TransferType::Interrupt
                && eps[e].direction == Direction::In && eps[e].address == a,
        forall|e: int|
            0 <= e < eps.len() && (#[trigger] eps[e]).transfer_type == TransferType::Interrupt ==> eps[e].max_packet_size
                <= interrupt_scan(eps).2,
    decreases eps.len(),
{
    if eps.len() > 0 {
        let prev = eps.drop_last();
        lemma_interrupt_scan_found(prev);
        assert forall|e: int| 0 <= e < prev.len() implies #[trigger] prev[e] == eps[e] by {}
        assert(eps[eps.len() - 1] == eps.last());
        let m = interrupt_scan(prev).2;
        let last = eps.last();
        if last.transfer_type == TransferType::Interrupt {
            assert(interrupt_scan(eps).2 == larger(m, last.max_packet_size));
        } else {
            assert(interrupt_scan(eps).2 == m);
        }
        assert forall|e: int|
            0 <= e < eps.len() && (#[trigger] eps[e]).transfer_type == TransferType::Interrupt implies eps[e].max_packet_size
            <= interrupt_scan(eps).2 by {
            if e < prev.len() {
                assert(prev[e] == eps[e]);
            }
        }
    }
}

/// Every v1 candidate lies on an interface that looks like CMSIS-DAP (its
/// string names CMSIS-DAP, or it has none and the product string does) and is
/// offered by one of the searched alternate settings of that interface: one
/// of class HID with two endpoints or more, among them an interrupt OUT
/// endpoint at the candidate's OUT address and an interrupt IN endpoint at
/// its IN address; its report size is 64 bytes at least, and no smaller than
/// the packet size of any interrupt endpoint of that setting.
pub proof fn lemma_v1_candidates_sound(device: UsbDeviceInfo, alts: Seq<(u8, AltSettingView)>)
    ensures
        forall|k: int|
            0 <= k < v1_candidates(device, alts).len() ==> {
                let c = #[trigger] v1_candidates(device, alts)[k];
                &&& match interface_string_for(device.interfaces@, c.interface_number) {
                    Some(s) => names_cmsis_dap(s),
                    None => names_cmsis_dap(text_or_empty(opt_view(device.product_string))),
                }
                &&& c.report_size >= 64
                &&& exists|j: int|
                    0 <= j < alts.len() && (#[trigger] alts[j]).0 == c.interface_number && {
                        let alt = alts[j].1;
                        &&& alt.class == 0x03
                        &&& alt.endpoints.len() >= 2
                        &&& exists|e: int|
                            0 <= e < alt.endpoints.len() && (#[trigger] alt.endpoints[e]).transfer_type
                                == TransferType::Interrupt && alt.endpoints[e].direction == Direction::Out
                                && alt.endpoints[e].address == c.out_ep
                        &&& exists|e: int|
                            0 <= e < alt.endpoints.len() && (#[trigger] alt.endpoints[e]).transfer_type
                                == TransferType::Interrupt && alt.endpoints[e].direction == Direction::In
                                && alt.endpoints[e].address == c.in_ep
                        &&& forall|e: int|
                            0 <= e < alt.endpoints.len() && (#[trigger] alt.endpoints[e]).transfer_type
                                == TransferType::Interrupt ==> alt.endpoints[e].max_packet_size <= c.report_size
                    }
            },
    decreases alts.len(),
{
    if alts.len() > 0 {
        let prev = alts.drop_last();
        lemma_v1_candidates_sound(device, prev);
        let found = v1_candidates(device, prev);
        let all = v1_candidates(device, alts);
        let last = alts.last();
        lemma_interrupt_scan_found(last.1.endpoints);
        lemma_interrupt_scan_at_least_64(last.1.endpoints);
        assert forall|j: int| 0 <= j < prev.len() implies #[trigger] prev[j] == alts[j] by {}
        assert(alts[alts.len() - 1] == last);
        assert forall|k: int| 0 <= k < all.len() implies #[trigger] all[k] == (if k < found.len() {
            found[k]
        } else {
            v1_alt_candidate(device, last.0, last.1)->0
        }) by {}
    }
}

} // verus!
