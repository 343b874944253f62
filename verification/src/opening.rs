//! Choosing how to open a CMSIS-DAP probe: which interfaces and endpoints of
//! a device to claim for v2 (bulk) and v1 (HID over interrupt endpoints)
//! operation, in which order, and what to do after each claim.
use vstd::prelude::*;
use crate::descriptors::{configuration_of_bytes, parse_configuration};
use crate::model::{
    AltSetting, AltSettingView, CmsisDapError, Configuration, ConfigurationView, Direction,
    EndpointDescriptor, InterfaceDescriptorsView, InterfaceInfo, ProbeCreationError, TransferType,
    UsbDeviceInfo, USB_CLASS_HID,
};
use crate::recognition::{
    is_cmsis_dap, is_outdated_rpi_debugprobe, names_cmsis_dap, reject_probe_by_version,
    rpi_debugprobe_fixed_version,
};
use crate::text::{opt_view, text_or_empty};

verus! {

/// An interface to claim for CMSIS-DAP v2 operation, with its endpoints:
/// bulk OUT for commands, bulk IN for responses, and optionally a second bulk
/// IN endpoint (address and maximum packet size) for SWO streaming.
#[derive(Clone, Copy, Debug, PartialEq, Eq)]
pub struct V2Interface {
    pub interface_number: u8,
    pub out_ep: u8,
    pub in_ep: u8,
    pub swo_ep: Option<(u8, usize)>,
    pub max_packet_size: usize,
}

/// An interface to claim for CMSIS-DAP v1 operation through its interrupt
/// endpoints, with the HID report size to start with.
#[derive(Clone, Copy, Debug, PartialEq, Eq, Structural)]
pub struct V1Interface {
    pub interface_number: u8,
    pub out_ep: u8,
    pub in_ep: u8,
    pub report_size: usize,
}

/// The interface number passes the optional interface selection.
pub open spec fn interface_selected(selected: Option<u8>, number: u8) -> bool {
    match selected {
        Some(i) => number == i,
        None => true,
    }
}

/// The string of the first interface that the operating system reports under
/// `number`, if it has one.
pub open spec fn interface_string_for(infos: Seq<InterfaceInfo>, number: u8) -> Option<Seq<char>>
    decreases infos.len(),
{
    if infos.len() == 0 {
        None
    } else if infos[0].interface_number == number {
        opt_view(infos[0].interface_string)
    } else {
        interface_string_for(infos.drop_first(), number)
    }
}

/// The string that the operating system reports for interface `number` of
/// `device`, looked up as [`interface_string_for`] does.
fn find_interface_string(device: &UsbDeviceInfo, number: u8) -> (r: Option<&String>)
    ensures
        match r {
            Some(s) => interface_string_for(device.interfaces@, number) == Some(s@),
            None => interface_string_for(device.interfaces@, number) is None,
        },
{
    let n: usize = device.interfaces.len();
    let mut i: usize = 0;
    proof {
        assert(device.interfaces@.skip(0) =~= device.interfaces@);
    }
    while i < n
        invariant
            n == device.interfaces@.len(),
            0 <= i <= n,
            interface_string_for(device.interfaces@, number) == interface_string_for(
                device.interfaces@.skip(i as int),
                number,
            ),
        decreases n - i,
    {
        let info = &device.interfaces[i];
        proof {
            let rest = device.interfaces@.skip(i as int);
            assert(rest[0] == device.interfaces@[i as int]);
            assert(rest.drop_first() =~= device.interfaces@.skip(i + 1));
        }
        if info.interface_number == number {
            return match &info.interface_string {
                Some(s) => Some(s),
                None => None,
            };
        }
        i = i + 1;
    }
    proof {
        assert(device.interfaces@.skip(n as int).len() == 0);
    }
    None
}

/// The endpoint is a bulk endpoint in the given direction.
pub open spec fn is_bulk(ep: EndpointDescriptor, dir: Direction) -> bool {
    ep.transfer_type == TransferType::Bulk && ep.direction == dir
}

/// Whether the interface number passes the optional interface selection.
fn interface_selected_exec(selected: Option<u8>, number: u8) -> (r: bool)
    ensures
        r == interface_selected(selected, number),
{
    match selected {
        Some(i) => number == i,
        None => true,
    }
}

/// The interface string of interface `number` names CMSIS-DAP.
pub open spec fn interface_named(device: UsbDeviceInfo, number: u8) -> bool {
    match interface_string_for(device.interfaces@, number) {
        Some(s) => names_cmsis_dap(s),
        None => false,
    }
}

/// Whether the interface string of interface `number` names CMSIS-DAP.
fn interface_named_exec(device: &UsbDeviceInfo, number: u8) -> (r: bool)
    ensures
        r == interface_named(*device, number),
{
    match find_interface_string(device, number) {
        Some(s) => is_cmsis_dap(s.as_str()),
        None => false,
    }
}

/// The alternate settings of interface `number`, each tagged with it.
pub open spec fn tag_alts(number: u8, alts: Seq<AltSettingView>) -> Seq<(u8, AltSettingView)> {
    alts.map_values(|a: AltSettingView| (number, a))
}

/// The alternate settings of the selected interfaces, in the order of the
/// interfaces and then of their settings, each tagged with its interface
/// number.
pub open spec fn selected_alt_settings(groups: Seq<InterfaceDescriptorsView>, selected: Option<u8>) -> Seq<(u8, AltSettingView)>
    decreases groups.len(),
{
    if groups.len() == 0 {
        Seq::empty()
    } else {
        let rest = selected_alt_settings(groups.drop_last(), selected);
        let g = groups.last();
        if interface_selected(selected, g.interface_number) {
            rest + tag_alts(g.interface_number, g.alt_settings)
        } else {
            rest
        }
    }
}

/// The selected alternate settings of a configuration, if there is one.
pub open spec fn configuration_alt_settings(config: Option<ConfigurationView>, selected: Option<u8>) -> Seq<(u8, AltSettingView)> {
    match config {
        Some(c) => selected_alt_settings(c.interfaces, selected),
        None => Seq::empty(),
    }
}

/// The value of an optional configuration.
pub open spec fn opt_configuration_view(config: Option<&Configuration>) -> Option<ConfigurationView> {
    match config {
        Some(c) => Some(c@),
        None => None,
    }
}

/// The configuration that an optional descriptor buffer holds.
pub open spec fn opt_bytes_configuration(bytes: Option<&[u8]>) -> Option<ConfigurationView> {
    match bytes {
        Some(b) => configuration_of_bytes(b@),
        None => None,
    }
}

/// The v2 interface that one alternate setting of interface `number` offers,
/// if any: the interface's string must name CMSIS-DAP, the setting must
/// announce two or three endpoints, the first of which is bulk OUT and the
/// second bulk IN; a third bulk IN endpoint is the SWO endpoint. The packet
/// size is that of the bulk IN endpoint.
pub open spec fn v2_alt_candidate(device: UsbDeviceInfo, number: u8, alt: AltSettingView) -> Option<V2Interface> {
    let eps = alt.endpoints;
    if !interface_named(device, number) {
        None
    } else if !(2 <= alt.num_endpoints <= 3) {
        None
    } else if !is_bulk(eps[0], Direction::Out) {
        None
    } else if !is_bulk(eps[1], Direction::In) {
        None
    } else {
        Some(
            V2Interface {
                interface_number: number,
                out_ep: eps[0].address,
                in_ep: eps[1].address,
                swo_ep: if eps.len() > 2 && is_bulk(eps[2], Direction::In) {
                    Some((eps[2].address, eps[2].max_packet_size))
                } else {
                    None
                },
                max_packet_size: eps[1].max_packet_size,
            },
        )
    }
}

/// An alternate setting that the v2 search must read the first two
/// endpoints of (its interface's string names CMSIS-DAP and it announces two
/// or three endpoints) but that carries fewer than two.
pub open spec fn v2_alt_unreadable(device: UsbDeviceInfo, number: u8, alt: AltSettingView) -> bool {
    interface_named(device, number) && 2 <= alt.num_endpoints <= 3 && alt.endpoints.len() < 2
}

/// The v2 search over tagged alternate settings, in order: the interfaces
/// found, and whether the search stopped at an unreadable setting (after
/// which nothing more is looked at).
pub open spec fn v2_search(device: UsbDeviceInfo, alts: Seq<(u8, AltSettingView)>) -> (Seq<V2Interface>, bool)
    decreases alts.len(),
{
    if alts.len() == 0 {
        (Seq::empty(), false)
    } else {
        let (found, stopped) = v2_search(device, alts.drop_last());
        let (number, alt) = alts.last();
        if stopped || v2_alt_unreadable(device, number, alt) {
            (found, true)
        } else {
            match v2_alt_candidate(device, number, alt) {
                Some(c) => (found.push(c), false),
                None => (found, false),
            }
        }
    }
}

/// The outcome of a v2 search: the interfaces to try, in order, and whether
/// the search stopped at an alternate setting whose announced endpoints are
/// missing; once every candidate has failed, such a device cannot be used.
#[derive(Debug)]
pub struct V2Search {
    pub candidates: Vec<V2Interface>,
    pub stopped_at_unreadable: bool,
}

/// One step of the v2 search: whether the setting is unreadable, and if it is
/// not, the interface it offers.
fn v2_alt_step(device: &UsbDeviceInfo, number: u8, alt: &AltSetting) -> (r: (bool, Option<V2Interface>))
    ensures
        r.0 == v2_alt_unreadable(*device, number, alt@),
        !r.0 ==> r.1 == v2_alt_candidate(*device, number, alt@),
{
    if !interface_named_exec(device, number) {
        return (false, None);
    }
    let n_ep = alt.num_endpoints;
    if !(2 <= n_ep && n_ep <= 3) {
        return (false, None);
    }
    let eps = &alt.endpoints;
    if eps.len() < 2 {
        return (true, None);
    }
    if eps[0].transfer_type != TransferType::Bulk || eps[0].direction != Direction::Out {
        return (false, None);
    }
    if eps[1].transfer_type != TransferType::Bulk || eps[1].direction != Direction::In {
        return (false, None);
    }
    let swo_ep = if eps.len() > 2 && eps[2].transfer_type == TransferType::Bulk && eps[2].direction
        == Direction::In {
        Some((eps[2].address, eps[2].max_packet_size))
    } else {
        None
    };
    (
        false,
        Some(
            V2Interface {
                interface_number: number,
                out_ep: eps[0].address,
                in_ep: eps[1].address,
                swo_ep,
                max_packet_size: eps[1].max_packet_size,
            },
        ),
    )
}

/// Searches a device whose first configuration is `config` (absent if it
/// exposes none) for interfaces to claim for CMSIS-DAP v2 operation,
/// restricted to `selected_interface` if one is given.
///
/// The CMSIS-DAP v2 specification says that v2 interfaces should use a
/// specific WinUSB interface GUID, but the official DAPLink firmware does
/// not; so the search is for interfaces whose string names CMSIS-DAP and that
/// have two or three endpoints of the right type and direction. Each
/// candidate still has to be claimed; the first that can be is used.
pub fn v2_interface_search(
    device: &UsbDeviceInfo,
    config: Option<&Configuration>,
    selected_interface: Option<u8>,
) -> (r: V2Search)
    ensures
        (r.candidates@, r.stopped_at_unreadable) == v2_search(
            *device,
            configuration_alt_settings(opt_configuration_view(config), selected_interface),
        ),
{
    let mut out: Vec<V2Interface> = Vec::new();
    let mut stopped = false;
    match config {
        None => {},
        Some(c) => {
            let n: usize = c.interfaces.len();
            let mut gi: usize = 0;
            while gi < n
                invariant
                    config == Some(c),
                    n == c@.interfaces.len(),
                    0 <= gi <= n,
                    (out@, stopped) == v2_search(
                        *device,
                        selected_alt_settings(c@.interfaces.take(gi as int), selected_interface),
                    ),
                decreases n - gi,
            {
                let group = &c.interfaces[gi];
                let number = group.interface_number;
                let ghost base = selected_alt_settings(c@.interfaces.take(gi as int), selected_interface);
                proof {
                    assert(group@ == c@.interfaces[gi as int]);
                }
                if interface_selected_exec(selected_interface, number) {
                    let m: usize = group.alt_settings.len();
                    let mut ai: usize = 0;
                    proof {
                        assert(base + tag_alts(number, group@.alt_settings.take(0)) =~= base);
                    }
                    while ai < m
                        invariant
                            number == group.interface_number,
                            m == group@.alt_settings.len(),
                            0 <= ai <= m,
                            (out@, stopped) == v2_search(
                                *device,
                                base + tag_alts(number, group@.alt_settings.take(ai as int)),
                            ),
                        decreases m - ai,
                    {
                        let alt = &group.alt_settings[ai];
                        let ghost prev = base + tag_alts(number, group@.alt_settings.take(ai as int));
                        let ghost next = base + tag_alts(number, group@.alt_settings.take(ai + 1));
                        proof {
                            assert(alt@ == group@.alt_settings[ai as int]);
                            assert(next =~= prev.push((number, alt@)));
                            assert(next.drop_last() =~= prev);
                        }
                        if !stopped {
                            let (unreadable, cand) = v2_alt_step(device, number, alt);
                            if unreadable {
                                stopped = true;
                            } else {
                                match cand {
                                    Some(found) => out.push(found),
                                    None => {},
                                }
                            }
                        }
                        ai = ai + 1;
                    }
                    proof {
                        assert(group@.alt_settings.take(m as int) =~= group@.alt_settings);
                    }
                }
                proof {
                    let gs = c@.interfaces.take(gi + 1);
                    assert(gs.drop_last() =~= c@.interfaces.take(gi as int));
                    assert(gs.last() == c@.interfaces[gi as int]);
                    if !interface_selected(selected_interface, number) {
                        assert(selected_alt_settings(gs, selected_interface) == base);
                    }
                }
                gi = gi + 1;
            }
            proof {
                assert(c@.interfaces.take(n as int) =~= c@.interfaces);
            }
        },
    }
    V2Search { candidates: out, stopped_at_unreadable: stopped }
}

/// Searches a device for v2 interfaces (see [`v2_interface_search`]), given
/// the bytes of its first configuration descriptor (absent if it exposes
/// none), which nusb's descriptor parser reads.
pub fn v2_interface_search_in_bytes(
    device: &UsbDeviceInfo,
    config_bytes: Option<&[u8]>,
    selected_interface: Option<u8>,
) -> (r: V2Search)
    ensures
        (r.candidates@, r.stopped_at_unreadable) == v2_search(
            *device,
            configuration_alt_settings(opt_bytes_configuration(config_bytes), selected_interface),
        ),
{
    let config = match config_bytes {
        Some(b) => parse_configuration(b),
        None => None,
    };
    v2_interface_search(device, config.as_ref(), selected_interface)
}

/// The larger of two sizes.
pub open spec fn larger(a: usize, b: usize) -> usize {
    if a >= b {
        a
    } else {
        b
    }
}

/// What a pass over the endpoints finds: the address of the last interrupt
/// OUT endpoint, that of the last interrupt IN endpoint, and the largest
/// maximum packet size among the interrupt endpoints, 64 at least.
pub open spec fn interrupt_scan(eps: Seq<EndpointDescriptor>) -> (Option<u8>, Option<u8>, usize)
    decreases eps.len(),
{
    if eps.len() == 0 {
        (None, None, 64)
    } else {
        let (o, i, m) = interrupt_scan(eps.drop_last());
        let e = eps.last();
        if e.transfer_type != TransferType::Interrupt {
            (o, i, m)
        } else {
            match e.direction {
                Direction::Out => (Some(e.address), i, larger(m, e.max_packet_size)),
                Direction::In => (o, Some(e.address), larger(m, e.max_packet_size)),
            }
        }
    }
}

/// The v1 interface that one alternate setting of interface `number` offers,
/// if any: the setting must be of the HID class and look like CMSIS-DAP (the
/// interface's string names it, or, where the interface has no string, as
/// with the firmware of the NXP LPC-Link2, the product string does), and
/// it must have at least two endpoints, among them an interrupt OUT and an
/// interrupt IN endpoint.
pub open spec fn v1_alt_candidate(device: UsbDeviceInfo, number: u8, alt: AltSettingView) -> Option<V1Interface> {
    let looks_like_dap = match interface_string_for(device.interfaces@, number) {
        Some(s) => names_cmsis_dap(s),
        None => names_cmsis_dap(text_or_empty(opt_view(device.product_string))),
    };
    if alt.class != USB_CLASS_HID {
        None
    } else if !looks_like_dap {
        None
    } else if alt.endpoints.len() < 2 {
        None
    } else {
        let (o, i, m) = interrupt_scan(alt.endpoints);
        match (o, i) {
            (Some(out_ep), Some(in_ep)) => Some(
                V1Interface { interface_number: number, out_ep, in_ep, report_size: m },
            ),
            _ => None,
        }
    }
}

/// The v1 interfaces that tagged alternate settings offer, in order.
pub open spec fn v1_candidates(device: UsbDeviceInfo, alts: Seq<(u8, AltSettingView)>) -> Seq<V1Interface>
    decreases alts.len(),
{
    if alts.len() == 0 {
        Seq::empty()
    } else {
        let rest = v1_candidates(device, alts.drop_last());
        let (number, alt) = alts.last();
        match v1_alt_candidate(device, number, alt) {
            Some(c) => rest.push(c),
            None => rest,
        }
    }
}

/// The pass over the endpoints (see [`interrupt_scan`]).
fn interrupt_scan_exec(eps: &Vec<EndpointDescriptor>) -> (r: (Option<u8>, Option<u8>, usize))
    ensures
        r == interrupt_scan(eps@),
{
    let mut out_ep: Option<u8> = None;
    let mut in_ep: Option<u8> = None;
    let mut max_packet_size: usize = 64;
    let n: usize = eps.len();
    let mut k: usize = 0;
    while k < n
        invariant
            n == eps@.len(),
            0 <= k <= n,
            (out_ep, in_ep, max_packet_size) == interrupt_scan(eps@.take(k as int)),
        decreases n - k,
    {
        let ep = eps[k];
        if ep.transfer_type == TransferType::Interrupt {
            let bigger = if max_packet_size >= ep.max_packet_size {
                max_packet_size
            } else {
                ep.max_packet_size
            };
            match ep.direction {
                Direction::Out => {
                    out_ep = Some(ep.address);
                    max_packet_size = bigger;
                },
                Direction::In => {
                    in_ep = Some(ep.address);
                    max_packet_size = bigger;
                },
            }
        }
        proof {
            let es = eps@.take(k + 1);
            assert(es.drop_last() =~= eps@.take(k as int));
            assert(es.last() == eps@[k as int]);
        }
        k = k + 1;
    }
    proof {
        assert(eps@.take(n as int) =~= eps@);
    }
    (out_ep, in_ep, max_packet_size)
}

/// The v1 interface that one alternate setting offers (see
/// [`v1_alt_candidate`]).
fn v1_alt_candidate_exec(device: &UsbDeviceInfo, number: u8, alt: &AltSetting) -> (r: Option<V1Interface>)
    ensures
        r == v1_alt_candidate(*device, number, alt@),
{
    if alt.class != USB_CLASS_HID {
        return None;
    }
    let looks_like_dap = match find_interface_string(device, number) {
        Some(s) => is_cmsis_dap(s.as_str()),
        None => match &device.product_string {
            Some(p) => is_cmsis_dap(p.as_str()),
            None => false,
        },
    };
    if !looks_like_dap {
        return None;
    }
    if alt.endpoints.len() < 2 {
        return None;
    }
    match interrupt_scan_exec(&alt.endpoints) {
        (Some(out_ep), Some(in_ep), report_size) => Some(
            V1Interface { interface_number: number, out_ep, in_ep, report_size },
        ),
        _ => None,
    }
}

/// The interfaces to try, in order, for CMSIS-DAP v1 operation of a device
/// through its interrupt endpoints, without going through the HID driver
/// stack, on a device whose first configuration is `config` (absent if it
/// exposes none), restricted to `selected_interface` if one is given.
///
/// Composite CMSIS-DAP devices, most notably the NXP LPC-Link2, expose the
/// DAP HID as one interface beside a CDC UART bridge; there the HID stack
/// of some platforms cannot open the DAP HID at all, while direct access to
/// its interrupt endpoints works. The report size starts at the largest
/// interrupt endpoint packet size (64 at least); the exact size is
/// negotiated when a session starts.
pub fn v1_interface_candidates(
    device: &UsbDeviceInfo,
    config: Option<&Configuration>,
    selected_interface: Option<u8>,
) -> (r: Vec<V1Interface>)
    ensures
        r@ == v1_candidates(*device, configuration_alt_settings(opt_configuration_view(config), selected_interface)),
{
    let mut out: Vec<V1Interface> = Vec::new();
    match config {
        None => {},
        Some(c) => {
            let n: usize = c.interfaces.len();
            let mut gi: usize = 0;
            while gi < n
                invariant
                    n == c@.interfaces.len(),
                    0 <= gi <= n,
                    out@ == v1_candidates(*device, selected_alt_settings(c@.interfaces.take(gi as int), selected_interface)),
                decreases n - gi,
            {
                let group = &c.interfaces[gi];
                let number = group.interface_number;
                let ghost base = selected_alt_settings(c@.interfaces.take(gi as int), selected_interface);
                proof {
                    assert(group@ == c@.interfaces[gi as int]);
                }
                if interface_selected_exec(selected_interface, number) {
                    let m: usize = group.alt_settings.len();
                    let mut ai: usize = 0;
                    proof {
                        assert(base + tag_alts(number, group@.alt_settings.take(0)) =~= base);
                    }
                    while ai < m
                        invariant
                            number == group.interface_number,
                            m == group@.alt_settings.len(),
                            0 <= ai <= m,
                            out@ == v1_candidates(*device, base + tag_alts(number, group@.alt_settings.take(ai as int))),
                        decreases m - ai,
                    {
                        let alt = &group.alt_settings[ai];
                        let ghost prev = base + tag_alts(number, group@.alt_settings.take(ai as int));
                        let ghost next = base + tag_alts(number, group@.alt_settings.take(ai + 1));
                        proof {
                            assert(alt@ == group@.alt_settings[ai as int]);
                            assert(next =~= prev.push((number, alt@)));
                            assert(next.drop_last() =~= prev);
                        }
                        match v1_alt_candidate_exec(device, number, alt) {
                            Some(cand) => out.push(cand),
                            None => {},
                        }
                        ai = ai + 1;
                    }
                    proof {
                        assert(group@.alt_settings.take(m as int) =~= group@.alt_settings);
                    }
                }
                proof {
                    let gs = c@.interfaces.take(gi + 1);
                    assert(gs.drop_last() =~= c@.interfaces.take(gi as int));
                    assert(gs.last() == c@.interfaces[gi as int]);
                    if !interface_selected(selected_interface, number) {
                        assert(selected_alt_settings(gs, selected_interface) == base);
                    }
                }
                gi = gi + 1;
            }
            proof {
                assert(c@.interfaces.take(n as int) =~= c@.interfaces);
            }
        },
    }
    out
}

/// Searches a device for v1 interfaces (see [`v1_interface_candidates`]),
/// given the bytes of its first configuration descriptor (absent if it
/// exposes none), which nusb's descriptor parser reads.
pub fn v1_interface_candidates_in_bytes(
    device: &UsbDeviceInfo,
    config_bytes: Option<&[u8]>,
    selected_interface: Option<u8>,
) -> (r: Vec<V1Interface>)
    ensures
        r@ == v1_candidates(*device, configuration_alt_settings(opt_bytes_configuration(config_bytes), selected_interface)),
{
    let config = match config_bytes {
        Some(b) => parse_configuration(b),
        None => None,
    };
    v1_interface_candidates(device, config.as_ref(), selected_interface)
}

/// What to do after an attempt to claim a candidate interface.
#[derive(Debug)]
pub enum ClaimAction {
    /// Claim the candidate at this position.
    Claim(usize),
    /// Use the interface just claimed, the candidate at this position.
    Use(usize),
    /// The device was claimed but its firmware is refused.
    Refuse(ProbeCreationError),
    /// No candidate could be claimed: the device is not opened this way.
    NotOpened,
    /// No candidate could be claimed and the search stopped at a setting
    /// whose announced endpoints are missing: the device cannot be used.
    MalformedDescriptors,
}

/// What to do when claiming can start or go on at `next`: claim that
/// candidate if there is one, otherwise give up, telling a search that
/// stopped at an unreadable setting apart.
pub open spec fn claim_or_give_up(candidate_count: usize, next: int, search_stopped: bool) -> ClaimAction {
    if next < candidate_count {
        ClaimAction::Claim(next as usize)
    } else if search_stopped {
        ClaimAction::MalformedDescriptors
    } else {
        ClaimAction::NotOpened
    }
}

/// The first action on a device with `candidate_count` candidates: claim the
/// first one, if any.
pub fn first_claim_action(candidate_count: usize, search_stopped: bool) -> (r: ClaimAction)
    ensures
        r == claim_or_give_up(candidate_count, 0, search_stopped),
{
    if 0 < candidate_count {
        ClaimAction::Claim(0)
    } else if search_stopped {
        ClaimAction::MalformedDescriptors
    } else {
        ClaimAction::NotOpened
    }
}

/// The action after trying to claim candidate `current`: once a candidate is
/// claimed, the device is checked against the firmware denylist and used or
/// refused; a candidate that cannot be claimed (typically because something
/// else holds it) passes on to the next one.
pub fn next_claim_action(
    device: &UsbDeviceInfo,
    candidate_count: usize,
    current: usize,
    claimed: bool,
    search_stopped: bool,
) -> (r: ClaimAction)
    requires
        current < candidate_count,
    ensures
        claimed && !is_outdated_rpi_debugprobe(device.vendor_id, device.product_id, device.device_version)
            ==> r == ClaimAction::Use(current),
        claimed && is_outdated_rpi_debugprobe(device.vendor_id, device.product_id, device.device_version)
            ==> (r matches ClaimAction::Refuse(
            ProbeCreationError::ProbeSpecific(CmsisDapError::ProbeFirmwareOutdated(v)),
        ) && v@ == rpi_debugprobe_fixed_version()),
        !claimed ==> r == claim_or_give_up(candidate_count, current + 1, search_stopped),
{
    if claimed {
        match reject_probe_by_version(device.vendor_id, device.product_id, device.device_version) {
            Ok(()) => ClaimAction::Use(current),
            Err(e) => ClaimAction::Refuse(e),
        }
    } else if current + 1 < candidate_count {
        ClaimAction::Claim(current + 1)
    } else if search_stopped {
        ClaimAction::MalformedDescriptors
    } else {
        ClaimAction::NotOpened
    }
}

} // verus!
