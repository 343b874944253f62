//! Opening a probe that a user selected: which USB devices to try, in which
//! order and through which interface, and which HID entry to open when
//! none of them can be opened directly.
use vstd::prelude::*;
use crate::discovery::{cmsisdap_info_of, get_cmsisdap_info, opt_probe_view};
use crate::model::{
    probe_views, DebugProbeInfo, DebugProbeSelector, HidDeviceInfo, ProbeCreationError,
    ProbeInfoView, UsbDeviceInfo, CmsisDapError,
};
use crate::recognition::{
    hid_report_size, hid_report_size_of, is_cmsis_dap, is_outdated_rpi_debugprobe, names_cmsis_dap,
    reject_probe_by_version, rpi_debugprobe_fixed_version,
};
use crate::text::opt_view;

verus! {

/// A wanted serial number is met: none is wanted, or the device has that
/// one, or the device has none and the wanted one is empty.
pub open spec fn serial_selected(wanted: Option<Seq<char>>, actual: Option<Seq<char>>) -> bool {
    match wanted {
        None => true,
        Some(s) => match actual {
            Some(a) => a == s,
            None => s.len() == 0,
        },
    }
}

/// The selector picks the device: same vendor id and product id, and the
/// serial number, if one is selected, is met.
pub open spec fn selector_matches_device(selector: DebugProbeSelector, device: UsbDeviceInfo) -> bool {
    &&& device.vendor_id == selector.vendor_id
    &&& device.product_id == selector.product_id
    &&& serial_selected(opt_view(selector.serial_number), opt_view(device.serial_number))
}

/// Whether the selector picks the device.
pub fn selector_matches(selector: &DebugProbeSelector, device: &UsbDeviceInfo) -> (r: bool)
    ensures
        r == selector_matches_device(*selector, *device),
{
    if device.vendor_id != selector.vendor_id || device.product_id != selector.product_id {
        return false;
    }
    match (&selector.serial_number, &device.serial_number) {
        (None, _) => true,
        (Some(s), Some(a)) => a.eq(s),
        (Some(s), None) => s.as_str().is_empty(),
    }
}

/// A probe entry has the wanted interface, if one is wanted.
pub open spec fn interface_wanted(wanted: Option<u8>, probe: ProbeInfoView) -> bool {
    match wanted {
        None => true,
        Some(i) => probe.interface == Some(i),
    }
}

/// The first entry with the wanted interface.
pub open spec fn first_wanted(probes: Seq<ProbeInfoView>, wanted: Option<u8>) -> Option<ProbeInfoView>
    decreases probes.len(),
{
    if probes.len() == 0 {
        None
    } else if interface_wanted(wanted, probes[0]) {
        Some(probes[0])
    } else {
        first_wanted(probes.drop_first(), wanted)
    }
}

/// The position of the first entry with the wanted interface.
fn first_wanted_index(infos: &Vec<DebugProbeInfo>, wanted: Option<u8>) -> (r: Option<usize>)
    ensures
        match r {
            Some(i) => i < infos@.len() && first_wanted(probe_views(infos@), wanted) == Some(infos@[i as int]@),
            None => first_wanted(probe_views(infos@), wanted) is None,
        },
{
    let n: usize = infos.len();
    let mut i: usize = 0;
    proof {
        assert(probe_views(infos@).skip(0) =~= probe_views(infos@));
    }
    while i < n
        invariant
            n == infos@.len(),
            0 <= i <= n,
            first_wanted(probe_views(infos@), wanted) == first_wanted(probe_views(infos@).skip(i as int), wanted),
        decreases n - i,
    {
        let is_wanted = match wanted {
            None => true,
            Some(w) => match infos[i].interface {
                Some(x) => x == w,
                None => false,
            },
        };
        proof {
            let rest = probe_views(infos@).skip(i as int);
            assert(rest[0] == infos@[i as int]@);
            assert(rest.drop_first() =~= probe_views(infos@).skip(i + 1));
        }
        if is_wanted {
            return Some(i);
        }
        i = i + 1;
    }
    proof {
        assert(probe_views(infos@).skip(n as int).len() == 0);
    }
    None
}

/// Takes the first entry with the wanted interface out of `infos`.
pub fn select_probe_info(infos: Vec<DebugProbeInfo>, wanted: Option<u8>) -> (r: Option<DebugProbeInfo>)
    ensures
        opt_probe_view(r) == first_wanted(probe_views(infos@), wanted),
{
    match first_wanted_index(&infos, wanted) {
        Some(i) => {
            let mut rest = infos;
            Some(rest.swap_remove(i))
        },
        None => None,
    }
}

/// A USB device to try to open, and the probe entry to open it through.
#[derive(Debug)]
pub struct ProbeAttempt {
    pub device_index: usize,
    pub probe: DebugProbeInfo,
}

/// The value of a [`ProbeAttempt`].
pub struct ProbeAttemptView {
    pub device_index: usize,
    pub probe: ProbeInfoView,
}

impl View for ProbeAttempt {
    type V = ProbeAttemptView;

    open spec fn view(&self) -> ProbeAttemptView {
        ProbeAttemptView { device_index: self.device_index, probe: self.probe@ }
    }
}

/// The values of a sequence of attempts.
pub open spec fn attempt_views(s: Seq<ProbeAttempt>) -> Seq<ProbeAttemptView> {
    s.map_values(|a: ProbeAttempt| a@)
}

/// The entry through which to open a device for the selector, if the
/// selector picks the device and it has a CMSIS-DAP interface (either
/// version) with the selected interface number.
pub open spec fn device_attempt_probe(selector: DebugProbeSelector, device: UsbDeviceInfo) -> Option<ProbeInfoView> {
    if selector_matches_device(selector, device) {
        first_wanted(cmsisdap_info_of(device, true), selector.interface)
    } else {
        None
    }
}

/// The attempts to make, in device order: one for each device that the
/// selector picks and that has a matching CMSIS-DAP interface.
pub open spec fn selector_attempts(devices: Seq<UsbDeviceInfo>, selector: DebugProbeSelector) -> Seq<ProbeAttemptView>
    decreases devices.len(),
{
    if devices.len() == 0 {
        Seq::empty()
    } else {
        let rest = selector_attempts(devices.drop_last(), selector);
        match device_attempt_probe(selector, devices.last()) {
            Some(p) => rest.push(ProbeAttemptView { device_index: (devices.len() - 1) as usize, probe: p }),
            None => rest,
        }
    }
}

/// The devices to try to open for the selector, in order, each with the
/// probe entry to open it through. Each attempt tries CMSIS-DAP v2 first,
/// then, when the entry is a HID interface, v1 over the device's interrupt
/// endpoints; the first that opens is used.
pub fn plan_selector_attempts(devices: &Vec<UsbDeviceInfo>, selector: &DebugProbeSelector) -> (r: Vec<ProbeAttempt>)
    ensures
        attempt_views(r@) == selector_attempts(devices@, *selector),
{
    let mut attempts: Vec<ProbeAttempt> = Vec::new();
    let n: usize = devices.len();
    let mut i: usize = 0;
    while i < n
        invariant
            n == devices@.len(),
            0 <= i <= n,
            attempt_views(attempts@) == selector_attempts(devices@.take(i as int), *selector),
        decreases n - i,
    {
        let device = &devices[i];
        let ghost before = attempts@;
        if selector_matches(selector, device) {
            match select_probe_info(get_cmsisdap_info(device, true), selector.interface) {
                Some(probe) => {
                    attempts.push(ProbeAttempt { device_index: i, probe });
                    proof {
                        assert(attempt_views(attempts@) =~= attempt_views(before).push(
                            ProbeAttemptView { device_index: i, probe: probe@ },
                        ));
                    }
                },
                None => {},
            }
        }
        proof {
            let ds = devices@.take(i + 1);
            assert(ds.drop_last() =~= devices@.take(i as int));
            assert(ds.last() == devices@[i as int]);
        }
        i = i + 1;
    }
    proof {
        assert(devices@.take(n as int) =~= devices@);
    }
    attempts
}

/// One way to try to open a device of the device list, through the given
/// interface (or any, where none is named).
#[derive(Clone, Copy, Debug, PartialEq, Eq, Structural)]
pub enum OpenStep {
    /// Open the device in CMSIS-DAP v2 mode.
    V2 { device_index: usize, interface: Option<u8> },
    /// Open the device's HID interface in CMSIS-DAP v1 mode through its
    /// interrupt endpoints.
    V1Direct { device_index: usize, interface: Option<u8> },
}

/// The steps that one attempt makes: v2 first, then, for a HID entry, v1
/// through the interrupt endpoints.
pub open spec fn attempt_steps(a: ProbeAttemptView) -> Seq<OpenStep> {
    let v2 = OpenStep::V2 { device_index: a.device_index, interface: a.probe.interface };
    if a.probe.is_hid_interface {
        seq![v2, OpenStep::V1Direct { device_index: a.device_index, interface: a.probe.interface }]
    } else {
        seq![v2]
    }
}

/// The steps of all attempts, in order.
pub open spec fn open_steps_of(attempts: Seq<ProbeAttemptView>) -> Seq<OpenStep>
    decreases attempts.len(),
{
    if attempts.len() == 0 {
        Seq::empty()
    } else {
        open_steps_of(attempts.drop_last()) + attempt_steps(attempts.last())
    }
}

/// The steps to take, in order, to open a device for the selector; the first
/// step that opens a device ends the search, a step that fails passes on to
/// the next, and a refused firmware ends it with that error.
pub fn open_steps(attempts: &Vec<ProbeAttempt>) -> (r: Vec<OpenStep>)
    ensures
        r@ == open_steps_of(attempt_views(attempts@)),
{
    let mut steps: Vec<OpenStep> = Vec::new();
    let n: usize = attempts.len();
    let mut i: usize = 0;
    while i < n
        invariant
            n == attempts@.len(),
            0 <= i <= n,
            steps@ == open_steps_of(attempt_views(attempts@.take(i as int))),
        decreases n - i,
    {
        let a = &attempts[i];
        let ghost before = steps@;
        steps.push(OpenStep::V2 { device_index: a.device_index, interface: a.probe.interface });
        if a.probe.is_hid_interface {
            steps.push(OpenStep::V1Direct { device_index: a.device_index, interface: a.probe.interface });
        }
        proof {
            let prefix = attempt_views(attempts@.take(i + 1));
            assert(prefix.drop_last() =~= attempt_views(attempts@.take(i as int)));
            assert(prefix.last() == attempts@[i as int]@);
            assert(steps@ =~= before + attempt_steps(attempts@[i as int]@));
        }
        i = i + 1;
    }
    proof {
        assert(attempts@.take(n as int) =~= attempts@);
    }
    steps
}

/// How one step ended.
#[derive(Debug)]
pub enum StepOutcome {
    /// The device was opened.
    Opened,
    /// The device could not be opened this way.
    NotOpened,
    /// Opening failed with an error that ends the search (a refused firmware).
    Failed(ProbeCreationError),
}

/// What to do next while opening a selected probe.
#[derive(Debug)]
pub enum OpenAction {
    /// Run the step at this position.
    RunStep(usize),
    /// Use the device that the last step opened.
    UseOpened,
    /// Stop with this error.
    Fail(ProbeCreationError),
    /// Every step failed to open a device: look for the probe among the HID
    /// entries.
    TryHid,
}

/// What follows when the steps go on at position `next`: run that step if
/// there is one, otherwise turn to the HID entries.
pub open spec fn run_or_try_hid(step_count: usize, next: int) -> OpenAction {
    if next < step_count {
        OpenAction::RunStep(next as usize)
    } else {
        OpenAction::TryHid
    }
}

/// The action after a step ended: an opened device ends the search and is
/// used, an error ends it and is returned, and a device that could not be
/// opened passes on to the next step, or, after the last, to the HID entries.
pub open spec fn open_action_after(step_count: usize, current: usize, outcome: StepOutcome) -> OpenAction {
    match outcome {
        StepOutcome::Opened => OpenAction::UseOpened,
        StepOutcome::Failed(e) => OpenAction::Fail(e),
        StepOutcome::NotOpened => run_or_try_hid(step_count, current + 1),
    }
}

/// The first action of an open: run the first step, or, when there is none,
/// turn to the HID entries.
pub fn first_open_action(step_count: usize) -> (r: OpenAction)
    ensures
        r == run_or_try_hid(step_count, 0),
{
    if 0 < step_count {
        OpenAction::RunStep(0)
    } else {
        OpenAction::TryHid
    }
}

/// The action after step `current` ended with `outcome` (see
/// [`open_action_after`]).
pub fn next_open_action(step_count: usize, current: usize, outcome: StepOutcome) -> (r: OpenAction)
    requires
        current < step_count,
    ensures
        r == open_action_after(step_count, current, outcome),
{
    match outcome {
        StepOutcome::Opened => OpenAction::UseOpened,
        StepOutcome::Failed(e) => OpenAction::Fail(e),
        StepOutcome::NotOpened => if current + 1 < step_count {
            OpenAction::RunStep(current + 1)
        } else {
            OpenAction::TryHid
        },
    }
}

/// The entry kept for the HID fallback: that of the last attempt, if any.
pub open spec fn fallback_probe_of(attempts: Seq<ProbeAttemptView>) -> Option<ProbeInfoView> {
    if attempts.len() == 0 {
        None
    } else {
        Some(attempts.last().probe)
    }
}

/// The probe entry that guides the choice of HID interface when no attempt
/// opened a device: that of the last attempt made.
pub fn hid_fallback_probe(attempts: &Vec<ProbeAttempt>) -> (r: Option<&DebugProbeInfo>)
    ensures
        match r {
            Some(p) => fallback_probe_of(attempt_views(attempts@)) == Some(p@),
            None => fallback_probe_of(attempt_views(attempts@)) is None,
        },
{
    let n = attempts.len();
    if n == 0 {
        None
    } else {
        Some(&attempts[n - 1].probe)
    }
}

/// The vendor and product ids of an NXP LPC-Link2. It exposes CMSIS-DAP on
/// HID interface 0, and on other interfaces a UART bridge or SWO sink that
/// opens fine but silently drops every DAP command.
pub open spec fn is_lpc_link2(vendor_id: u16, product_id: u16) -> bool {
    vendor_id == 0x1fc9 && (product_id == 0x0090 || product_id == 0x0132)
}

/// The HID interface number that a probe entry names, if it is a HID entry
/// with an interface.
pub open spec fn hid_interface_of(probe: Option<ProbeInfoView>) -> Option<u8> {
    match probe {
        Some(p) => if p.is_hid_interface {
            p.interface
        } else {
            None
        },
        None => None,
    }
}

/// The value of an optional probe reference.
pub open spec fn opt_ref_probe_view(probe: Option<&DebugProbeInfo>) -> Option<ProbeInfoView> {
    match probe {
        Some(p) => Some(p@),
        None => None,
    }
}

/// A HID entry is the one to open for the selector: same vendor and product
/// id; the selected serial number, if any, is the entry's; an LPC-Link2 entry
/// on an interface above 0 is never it; and when a HID interface is known from
/// the USB search, the entry is on that interface, except for an LPC-Link2
/// entry whose interface number could not be told (-1), which is accepted:
/// where that happens only the DAP HID of the composite device is listed.
pub open spec fn hid_entry_selected(
    entry: HidDeviceInfo,
    selector: DebugProbeSelector,
    probe: Option<ProbeInfoView>,
) -> bool {
    let lpc = is_lpc_link2(entry.vendor_id, entry.product_id);
    &&& entry.vendor_id == selector.vendor_id
    &&& entry.product_id == selector.product_id
    &&& match opt_view(selector.serial_number) {
        Some(sn) => opt_view(entry.serial_number) == Some(sn),
        None => true,
    }
    &&& !(lpc && entry.interface_number > 0)
    &&& match hid_interface_of(probe) {
        Some(n) => (lpc && entry.interface_number < 0) || entry.interface_number == n as i32,
        None => true,
    }
}

/// Whether a HID entry is the one to open for the selector, given the probe
/// entry kept from the USB search (see [`hid_entry_selected`]).
pub fn hid_entry_matches(entry: &HidDeviceInfo, selector: &DebugProbeSelector, probe: Option<&DebugProbeInfo>) -> (r: bool)
    ensures
        r == hid_entry_selected(*entry, *selector, opt_ref_probe_view(probe)),
{
    let mut device_match = entry.vendor_id == selector.vendor_id && entry.product_id == selector.product_id;
    match &selector.serial_number {
        Some(sn) => {
            let same = match &entry.serial_number {
                Some(es) => es.eq(sn),
                None => false,
            };
            device_match = device_match && same;
        },
        None => {},
    }
    let is_lpc_link2 = entry.vendor_id == 0x1fc9 && (entry.product_id == 0x0090 || entry.product_id == 0x0132);
    if is_lpc_link2 && entry.interface_number > 0 {
        return false;
    }
    let hid_interface: Option<u8> = match probe {
        Some(p) => if p.is_hid_interface {
            p.interface
        } else {
            None
        },
        None => None,
    };
    match hid_interface {
        Some(n) => {
            if !(is_lpc_link2 && entry.interface_number < 0) {
                device_match = device_match && entry.interface_number == n as i32;
            }
        },
        None => {},
    }
    device_match
}

/// The position of the first HID entry to open for the selector, if any.
/// The list is filtered here rather than opened by ids, which would give the
/// first entry with those ids and not always the right HID interface.
pub fn find_hid_entry(entries: &Vec<HidDeviceInfo>, selector: &DebugProbeSelector, probe: Option<&DebugProbeInfo>) -> (r: Option<usize>)
    ensures
        match r {
            Some(i) => {
                &&& i < entries@.len()
                &&& hid_entry_selected(entries@[i as int], *selector, opt_ref_probe_view(probe))
                &&& forall|k: int| 0 <= k < i ==> !hid_entry_selected(#[trigger] entries@[k], *selector, opt_ref_probe_view(probe))
            },
            None => forall|k: int|
                0 <= k < entries@.len() ==> !hid_entry_selected(#[trigger] entries@[k], *selector, opt_ref_probe_view(probe)),
        },
{
    let n: usize = entries.len();
    let mut i: usize = 0;
    while i < n
        invariant
            n == entries@.len(),
            0 <= i <= n,
            forall|k: int| 0 <= k < i ==> !hid_entry_selected(#[trigger] entries@[k], *selector, opt_ref_probe_view(probe)),
        decreases n - i,
    {
        if hid_entry_matches(&entries[i], selector, probe) {
            return Some(i);
        }
        i = i + 1;
    }
    None
}

/// Whether an opened HID device is taken: its product string (absent where
/// it could not be read) must name CMSIS-DAP, otherwise the device is not
/// found, so that other drivers may try it; a denylisted firmware is refused;
/// otherwise the device is taken with the report size for it.
pub fn accept_hid_device(entry: &HidDeviceInfo, product_string: Option<String>) -> (r: Result<usize, ProbeCreationError>)
    ensures
        r is Ok <==> (match opt_view(product_string) {
            Some(s) => names_cmsis_dap(s),
            None => false,
        }) && !is_outdated_rpi_debugprobe(entry.vendor_id, entry.product_id, entry.release_number),
        r matches Ok(size) ==> size == hid_report_size_of(*entry),
        r matches Err(ProbeCreationError::NotFound) <==> !(match opt_view(product_string) {
            Some(s) => names_cmsis_dap(s),
            None => false,
        }),
        r matches Err(ProbeCreationError::ProbeSpecific(CmsisDapError::ProbeFirmwareOutdated(v))) ==> v@
            == rpi_debugprobe_fixed_version(),
{
    match product_string {
        Some(s) => {
            if is_cmsis_dap(s.as_str()) {
                match reject_probe_by_version(entry.vendor_id, entry.product_id, entry.release_number) {
                    Ok(()) => Ok(hid_report_size(entry)),
                    Err(e) => Err(e),
                }
            } else {
                Err(ProbeCreationError::NotFound)
            }
        },
        None => Err(ProbeCreationError::NotFound),
    }
}

} // verus!
