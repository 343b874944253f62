//! Plain descriptions of USB devices, their descriptors and HID entries, and
//! of the probes, selectors and errors that the library deals in.
use vstd::prelude::*;
use crate::text::opt_view;

verus! {

/// Interface class of a HID interface (CMSIS-DAP v1).
pub const USB_CLASS_HID: u8 = 0x03;

/// Interface class of a CMSIS-DAP v2 (vendor specific) interface.
pub const USB_CMSIS_DAP_CLASS: u8 = 0xFF;

/// Interface subclass of a CMSIS-DAP v2 interface.
pub const USB_CMSIS_DAP_SUBCLASS: u8 = 0;

/// Transfer type of a USB endpoint.
#[derive(Clone, Copy, Debug, PartialEq, Eq, Structural)]
pub enum TransferType {
    Control,
    Isochronous,
    Bulk,
    Interrupt,
}

/// Direction of a USB endpoint, seen from the host.
#[derive(Clone, Copy, Debug, PartialEq, Eq, Structural)]
pub enum Direction {
    Out,
    In,
}

/// One endpoint descriptor of an interface alternate setting.
#[derive(Clone, Copy, Debug, PartialEq, Eq, Structural)]
pub struct EndpointDescriptor {
    pub address: u8,
    pub transfer_type: TransferType,
    pub direction: Direction,
    pub max_packet_size: usize,
}

/// One alternate setting of an interface, as its descriptors give it.
/// `num_endpoints` is the count that the interface descriptor announces;
/// `endpoints` are the endpoint descriptors that follow it.
#[derive(Debug)]
pub struct AltSetting {
    pub class: u8,
    pub subclass: u8,
    pub num_endpoints: u8,
    pub endpoints: Vec<EndpointDescriptor>,
}

/// The value of an [`AltSetting`].
pub struct AltSettingView {
    pub class: u8,
    pub subclass: u8,
    pub num_endpoints: u8,
    pub endpoints: Seq<EndpointDescriptor>,
}

impl View for AltSetting {
    type V = AltSettingView;

    open spec fn view(&self) -> AltSettingView {
        AltSettingView {
            class: self.class,
            subclass: self.subclass,
            num_endpoints: self.num_endpoints,
            endpoints: self.endpoints@,
        }
    }
}

/// The alternate settings of one interface of a configuration.
#[derive(Debug)]
pub struct InterfaceDescriptors {
    pub interface_number: u8,
    pub alt_settings: Vec<AltSetting>,
}

/// The value of an [`InterfaceDescriptors`].
pub struct InterfaceDescriptorsView {
    pub interface_number: u8,
    pub alt_settings: Seq<AltSettingView>,
}

impl View for InterfaceDescriptors {
    type V = InterfaceDescriptorsView;

    open spec fn view(&self) -> InterfaceDescriptorsView {
        InterfaceDescriptorsView {
            interface_number: self.interface_number,
            alt_settings: self.alt_settings@.map_values(|a: AltSetting| a@),
        }
    }
}

/// A configuration descriptor: its interfaces, in the order that the
/// descriptor parser groups them.
#[derive(Debug)]
pub struct Configuration {
    pub interfaces: Vec<InterfaceDescriptors>,
}

/// The value of a [`Configuration`].
pub struct ConfigurationView {
    pub interfaces: Seq<InterfaceDescriptorsView>,
}

impl View for Configuration {
    type V = ConfigurationView;

    open spec fn view(&self) -> ConfigurationView {
        ConfigurationView { interfaces: self.interfaces@.map_values(|g: InterfaceDescriptors| g@) }
    }
}

/// What the operating system reports of one interface of a device that has
/// not been opened.
#[derive(Debug)]
pub struct InterfaceInfo {
    pub interface_number: u8,
    pub class: u8,
    pub subclass: u8,
    pub interface_string: Option<String>,
}

/// What the operating system reports of a USB device that has not been opened.
#[derive(Debug)]
pub struct UsbDeviceInfo {
    pub vendor_id: u16,
    pub product_id: u16,
    pub device_version: u16,
    pub product_string: Option<String>,
    pub serial_number: Option<String>,
    pub interfaces: Vec<InterfaceInfo>,
}

/// One entry of the HID device list. `path` is absent where the platform
/// path is not valid UTF-8; `interface_number` is -1 where the platform
/// cannot tell it.
#[derive(Debug)]
pub struct HidDeviceInfo {
    pub vendor_id: u16,
    pub product_id: u16,
    pub release_number: u16,
    pub interface_number: i32,
    pub product_string: Option<String>,
    pub serial_number: Option<String>,
    pub path: Option<String>,
}

/// A CMSIS-DAP probe found on the bus, and the interface to use on it.
#[derive(Debug)]
pub struct DebugProbeInfo {
    pub identifier: String,
    pub vendor_id: u16,
    pub product_id: u16,
    pub serial_number: Option<String>,
    pub interface: Option<u8>,
    pub is_hid_interface: bool,
}

/// The value of a [`DebugProbeInfo`], with texts as character sequences.
pub struct ProbeInfoView {
    pub identifier: Seq<char>,
    pub vendor_id: u16,
    pub product_id: u16,
    pub serial_number: Option<Seq<char>>,
    pub interface: Option<u8>,
    pub is_hid_interface: bool,
}

impl View for DebugProbeInfo {
    type V = ProbeInfoView;

    open spec fn view(&self) -> ProbeInfoView {
        ProbeInfoView {
            identifier: self.identifier@,
            vendor_id: self.vendor_id,
            product_id: self.product_id,
            serial_number: opt_view(self.serial_number),
            interface: self.interface,
            is_hid_interface: self.is_hid_interface,
        }
    }
}

/// The values of a sequence of probes.
pub open spec fn probe_views(s: Seq<DebugProbeInfo>) -> Seq<ProbeInfoView> {
    s.map_values(|p: DebugProbeInfo| p@)
}

/// Which probe a user asked for: vendor and product id, and optionally a
/// serial number and an interface number.
#[derive(Debug)]
pub struct DebugProbeSelector {
    pub vendor_id: u16,
    pub product_id: u16,
    pub serial_number: Option<String>,
    pub interface: Option<u8>,
}

/// Errors of the CMSIS-DAP driver.
#[derive(Debug)]
pub enum CmsisDapError {
    /// The probe's firmware is older than the version named.
    ProbeFirmwareOutdated(&'static str),
}

/// Why a probe could not be opened.
#[derive(Debug)]
pub enum ProbeCreationError {
    /// No matching CMSIS-DAP probe was found, or it could not be opened.
    NotFound,
    /// The CMSIS-DAP driver refused the probe.
    ProbeSpecific(CmsisDapError),
}

} // verus!
