//! Reading a configuration descriptor: its raw bytes are parsed by nusb, and
//! the fields that the parser reports become a [`Configuration`].
use vstd::prelude::*;
use crate::model::{
    AltSetting, AltSettingView, Configuration, ConfigurationView, Direction, EndpointDescriptor,
    InterfaceDescriptors, InterfaceDescriptorsView, TransferType,
};

verus! {

/// The little-endian `wTotalLength` field of a configuration descriptor.
pub open spec fn total_length(bytes: Seq<u8>) -> int {
    bytes[2] as int + 256 * (bytes[3] as int)
}

/// The header of a configuration descriptor is sound: the buffer holds at
/// least the 9 header bytes, `bLength` is at least 9, `bDescriptorType` is 2
/// (configuration), and `wTotalLength` lies between `bLength` and the buffer
/// length.
pub open spec fn configuration_header_ok(bytes: Seq<u8>) -> bool {
    &&& bytes.len() >= 9
    &&& bytes[0] >= 9
    &&& bytes[1] == 2
    &&& bytes[0] <= total_length(bytes) <= bytes.len()
}

/// The fields that nusb's descriptor parser reports for a configuration
/// descriptor buffer: per interface, in the order the parser groups them,
/// the interface number and, per alternate setting, its class, subclass and
/// announced endpoint count and, per endpoint descriptor, its address,
/// transfer type code, direction code and maximum packet size.
pub uninterp spec fn parsed_configuration(bytes: Seq<u8>) -> Seq<(u8, Seq<(u8, u8, u8, Seq<(u8, u8, u8, usize)>)>)>;

/// The value of one reported alternate setting.
pub open spec fn alt_fields_view(a: (u8, u8, u8, Vec<(u8, u8, u8, usize)>)) -> (u8, u8, u8, Seq<(u8, u8, u8, usize)>) {
    (a.0, a.1, a.2, a.3@)
}

/// The value of one reported interface.
pub open spec fn group_fields_view(g: (u8, Vec<(u8, u8, u8, Vec<(u8, u8, u8, usize)>)>)) -> (
    u8,
    Seq<(u8, u8, u8, Seq<(u8, u8, u8, usize)>)>,
) {
    (g.0, g.1@.map_values(|a: (u8, u8, u8, Vec<(u8, u8, u8, usize)>)| alt_fields_view(a)))
}

/// The value of the reported fields of a configuration.
pub open spec fn configuration_fields_view(v: Vec<(u8, Vec<(u8, u8, u8, Vec<(u8, u8, u8, usize)>)>)>) -> Seq<
    (u8, Seq<(u8, u8, u8, Seq<(u8, u8, u8, usize)>)>),
> {
    v@.map_values(|g: (u8, Vec<(u8, u8, u8, Vec<(u8, u8, u8, usize)>)>)| group_fields_view(g))
}

/// Every reported endpoint has a transfer type code below 4 (the two low
/// bits of `bmAttributes`), a direction code of 0 (OUT) or 0x80 (IN), and a
/// maximum packet size below 2048 (the low 11 bits of `wMaxPacketSize`).
pub open spec fn fields_well_coded(s: Seq<(u8, Seq<(u8, u8, u8, Seq<(u8, u8, u8, usize)>)>)>) -> bool {
    forall|g: int, a: int, e: int|
        0 <= g < s.len() && 0 <= a < s[g].1.len() && 0 <= e < s[g].1[a].3.len() ==> {
            let ep = #[trigger] s[g].1[a].3[e];
            ep.1 < 4 && (ep.2 == 0 || ep.2 == 0x80) && ep.3 < 2048
        }
}

/// Parses a configuration descriptor buffer with
/// `nusb::descriptors::ConfigurationDescriptor::new` and reports the fields
/// of its interfaces, alternate settings and endpoints, read through nusb's
/// accessors. Assumed of nusb: the parse succeeds exactly when the header is
/// sound (see [`configuration_header_ok`]); the reported fields are
/// [`parsed_configuration`] of the bytes, whatever the buffer holds beyond
/// the header; and the endpoint codes are in range.
#[verifier::external_body]
fn nusb_configuration_fields(bytes: &[u8]) -> (r: Option<Vec<(u8, Vec<(u8, u8, u8, Vec<(u8, u8, u8, usize)>)>)>>)
    ensures
        r is Some <==> configuration_header_ok(bytes@),
        r matches Some(v) ==> configuration_fields_view(v) == parsed_configuration(bytes@),
        r matches Some(v) ==> fields_well_coded(configuration_fields_view(v)),
{
    nusb::descriptors::ConfigurationDescriptor::new(bytes).map(|c| {
        c.interfaces().map(|g| (g.interface_number(), g.alt_settings().map(|a| {
            let eps = a.endpoints().map(|e| (e.address(), e.transfer_type() as u8, e.direction() as u8, e.max_packet_size()));
            (a.class(), a.subclass(), a.num_endpoints(), eps.collect())
        }).collect())).collect()
    })
}

/// The transfer type of a transfer type code: 0 control, 1 isochronous,
/// 2 bulk, 3 interrupt.
pub open spec fn decode_transfer_type(code: u8) -> TransferType {
    if code == 0 {
        TransferType::Control
    } else if code == 1 {
        TransferType::Isochronous
    } else if code == 2 {
        TransferType::Bulk
    } else {
        TransferType::Interrupt
    }
}

/// The direction of a direction code: 0 OUT, 0x80 IN.
pub open spec fn decode_direction(code: u8) -> Direction {
    if code == 0 {
        Direction::Out
    } else {
        Direction::In
    }
}

/// The endpoint that reported endpoint fields describe.
pub open spec fn decode_endpoint(e: (u8, u8, u8, usize)) -> EndpointDescriptor {
    EndpointDescriptor {
        address: e.0,
        transfer_type: decode_transfer_type(e.1),
        direction: decode_direction(e.2),
        max_packet_size: e.3,
    }
}

/// The alternate setting that reported fields describe.
pub open spec fn decode_alt(a: (u8, u8, u8, Seq<(u8, u8, u8, usize)>)) -> AltSettingView {
    AltSettingView {
        class: a.0,
        subclass: a.1,
        num_endpoints: a.2,
        endpoints: a.3.map_values(|e: (u8, u8, u8, usize)| decode_endpoint(e)),
    }
}

/// The interface that reported fields describe.
pub open spec fn decode_group(g: (u8, Seq<(u8, u8, u8, Seq<(u8, u8, u8, usize)>)>)) -> InterfaceDescriptorsView {
    InterfaceDescriptorsView {
        interface_number: g.0,
        alt_settings: g.1.map_values(|a: (u8, u8, u8, Seq<(u8, u8, u8, usize)>)| decode_alt(a)),
    }
}

/// The configuration that reported fields describe.
pub open spec fn decode_configuration(s: Seq<(u8, Seq<(u8, u8, u8, Seq<(u8, u8, u8, usize)>)>)>) -> ConfigurationView {
    ConfigurationView {
        interfaces: s.map_values(|g: (u8, Seq<(u8, u8, u8, Seq<(u8, u8, u8, usize)>)>)| decode_group(g)),
    }
}

/// The configuration that a descriptor buffer holds, if its header is sound.
pub open spec fn configuration_of_bytes(bytes: Seq<u8>) -> Option<ConfigurationView> {
    if configuration_header_ok(bytes) {
        Some(decode_configuration(parsed_configuration(bytes)))
    } else {
        None
    }
}

fn decode_endpoint_exec(e: (u8, u8, u8, usize)) -> (r: EndpointDescriptor)
    ensures
        r == decode_endpoint(e),
{
    let transfer_type = if e.1 == 0 {
        TransferType::Control
    } else if e.1 == 1 {
        TransferType::Isochronous
    } else if e.1 == 2 {
        TransferType::Bulk
    } else {
        TransferType::Interrupt
    };
    let direction = if e.2 == 0 {
        Direction::Out
    } else {
        Direction::In
    };
    EndpointDescriptor { address: e.0, transfer_type, direction, max_packet_size: e.3 }
}

fn decode_alt_exec(a: &(u8, u8, u8, Vec<(u8, u8, u8, usize)>)) -> (r: AltSetting)
    ensures
        r@ == decode_alt(alt_fields_view(*a)),
{
    let mut endpoints: Vec<EndpointDescriptor> = Vec::new();
    let n: usize = a.3.len();
    let mut k: usize = 0;
    while k < n
        invariant
            n == a.3@.len(),
            0 <= k <= n,
            endpoints@.len() == k,
            forall|j: int| 0 <= j < k ==> endpoints@[j] == decode_endpoint(#[trigger] a.3@[j]),
        decreases n - k,
    {
        endpoints.push(decode_endpoint_exec(a.3[k]));
        k = k + 1;
    }
    let r = AltSetting { class: a.0, subclass: a.1, num_endpoints: a.2, endpoints };
    assert(r@.endpoints =~= decode_alt(alt_fields_view(*a)).endpoints);
    r
}

fn decode_group_exec(g: &(u8, Vec<(u8, u8, u8, Vec<(u8, u8, u8, usize)>)>)) -> (r: InterfaceDescriptors)
    ensures
        r@ == decode_group(group_fields_view(*g)),
{
    let mut alts: Vec<AltSetting> = Vec::new();
    let n: usize = g.1.len();
    let mut k: usize = 0;
    while k < n
        invariant
            n == g.1@.len(),
            0 <= k <= n,
            alts@.len() == k,
            forall|j: int| 0 <= j < k ==> (#[trigger] alts@[j])@ == decode_alt(alt_fields_view(g.1@[j])),
        decreases n - k,
    {
        alts.push(decode_alt_exec(&g.1[k]));
        k = k + 1;
    }
    let r = InterfaceDescriptors { interface_number: g.0, alt_settings: alts };
    assert(r@.alt_settings =~= decode_group(group_fields_view(*g)).alt_settings);
    r
}

/// Parses a configuration descriptor buffer (as a device reports it: the
/// configuration descriptor and all that follow it): absent exactly when the
/// header is not sound, otherwise the configuration that nusb's parser
/// reports.
pub fn parse_configuration(bytes: &[u8]) -> (r: Option<Configuration>)
    ensures
        r is Some <==> configuration_header_ok(bytes@),
        r matches Some(c) ==> c@ == decode_configuration(parsed_configuration(bytes@)),
{
    match nusb_configuration_fields(bytes) {
        None => None,
        Some(fields) => {
            let mut interfaces: Vec<InterfaceDescriptors> = Vec::new();
            let n: usize = fields.len();
            let mut k: usize = 0;
            while k < n
                invariant
                    n == fields@.len(),
                    0 <= k <= n,
                    interfaces@.len() == k,
                    forall|j: int| 0 <= j < k ==> (#[trigger] interfaces@[j])@ == decode_group(group_fields_view(fields@[j])),
                decreases n - k,
            {
                interfaces.push(decode_group_exec(&fields[k]));
                k = k + 1;
            }
            let c = Configuration { interfaces };
            assert(c@.interfaces =~= decode_configuration(configuration_fields_view(fields)).interfaces);
            Some(c)
        },
    }
}

} // verus!
