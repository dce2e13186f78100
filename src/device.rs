//! USB devices: descriptor synthesis, endpoint lookup and URB dispatch.
use vstd::prelude::*;
use crate::endpoint::{UsbEndpoint, EP_CONTROL};
use crate::interface::{handler_urb, interface_block, InterfaceHandler, UsbInterface};
use crate::setup::{direction_of, recipient_of, type_of, Direction, Recipient, RequestType, SetupPacket};
use crate::error::UsbIpError;
use crate::util::{be16, be32, le16, le16_value, lemma_le16_value, padded, push_bytes, push_padded, push_u16_be, push_u16_le, push_u32_be};

verus! {

pub const GET_STATUS: u8 = 0x00;
pub const CLEAR_FEATURE: u8 = 0x01;
pub const SET_FEATURE: u8 = 0x03;
pub const SET_ADDRESS: u8 = 0x05;
pub const GET_DESCRIPTOR: u8 = 0x06;
pub const SET_CONFIGURATION: u8 = 0x09;
pub const SET_INTERFACE: u8 = 0x0b;

pub const DEVICE_DESCRIPTOR: u8 = 0x01;
pub const CONFIGURATION_DESCRIPTOR: u8 = 0x02;
pub const STRING_DESCRIPTOR: u8 = 0x03;

/// Longest string descriptor payload, in UTF-16 code units.
pub const MAX_STRING_UNITS: usize = 126;

/// Speed codes of USB/IP.
pub const SPEED_LOW: u32 = 1;
pub const SPEED_FULL: u32 = 2;
pub const SPEED_HIGH: u32 = 3;
pub const SPEED_SUPER: u32 = 5;
pub const SPEED_SUPER_PLUS: u32 = 6;

/// The UTF-16 code units of one character: itself below 0x10000, a
/// surrogate pair above.
pub open spec fn char_utf16(c: char) -> Seq<u16> {
    let v = c as u32 as int;
    if v < 0x10000 {
        seq![v as u16]
    } else {
        let w = v - 0x10000;
        seq![(0xD800 + w / 0x400) as u16, (0xDC00 + w % 0x400) as u16]
    }
}

/// The UTF-16 code units of the characters `s`.
pub open spec fn utf16_of(s: Seq<char>) -> Seq<u16>
    decreases s.len(),
{
    if s.len() == 0 {
        Seq::empty()
    } else {
        utf16_of(s.drop_last()) + char_utf16(s.last())
    }
}

/// Relies on `str::encode_utf16`: the UTF-16 encoding of the string, one
/// code unit per character below 0x10000 and a surrogate pair per other.
#[verifier::external_body]
fn utf16_units(s: &str) -> (r: Vec<u16>)
    ensures
        r@ == utf16_of(s@),
{
    s.encode_utf16().collect()
}

/// The UTF-8 bytes of a string.
pub open spec fn str_bytes(s: String) -> Seq<u8> {
    vstd::utf8::encode_utf8(s@)
}

/// Code units `u`, each little-endian.
pub open spec fn units_le(u: Seq<u16>) -> Seq<u8>
    decreases u.len(),
{
    if u.len() == 0 {
        Seq::empty()
    } else {
        units_le(u.drop_last()) + le16(u.last())
    }
}

/// A USB device exported by the server.
pub struct UsbDevice {
    pub path: String,
    pub bus_id: String,
    pub bus_num: u32,
    pub dev_num: u32,
    pub speed: u32,
    pub vendor_id: u16,
    pub product_id: u16,
    pub device_bcd: u16,
    pub device_class: u8,
    pub device_subclass: u8,
    pub device_protocol: u8,
    pub ep0_max_packet_size: u8,
    pub interfaces: Vec<UsbInterface>,
}

/// The descriptors of `intfs`, numbered from 0.
pub open spec fn interfaces_block(intfs: Seq<UsbInterface>) -> Seq<u8>
    decreases intfs.len(),
{
    if intfs.len() == 0 {
        Seq::empty()
    } else {
        interfaces_block(intfs.drop_last()) + interface_block(
            (intfs.len() - 1) as u8,
            intfs.last(),
        )
    }
}

/// The 9-byte configuration header.
pub open spec fn config_header(total: u16, n_interfaces: u8) -> Seq<u8> {
    seq![9u8, 2u8] + le16(total) + seq![n_interfaces, 1u8, 0u8, 0x80u8, 50u8]
}

/// The first `n` bytes of `s`, or all of `s` when it is shorter.
pub open spec fn truncated(s: Seq<u8>, n: nat) -> Seq<u8> {
    if s.len() <= n { s } else { s.take(n as int) }
}

/// The interface that owns endpoint address `a` on `d`, if any.
pub open spec fn endpoint_owner(d: UsbDevice, a: u8) -> Option<usize> {
    let loc = choose|loc: Option<(UsbEndpoint, Option<usize>)>| #[trigger] d.located(a, loc);
    match loc {
        Some((_, Some(i))) => Some(i),
        _ => None,
    }
}

/// The interface that an endpoint 0 request with this SETUP is meant for:
/// for recipient Endpoint the interface owning the endpoint that `wIndex`
/// names, otherwise the interface that `wIndex` numbers, if it exists.
pub open spec fn target_interface(d: UsbDevice, setup: SetupPacket) -> Option<usize> {
    let idx = setup.index & 0xffu16;
    if recipient_of(setup.request_type) == Recipient::Endpoint {
        endpoint_owner(d, idx as u8)
    } else if (idx as int) < d.interfaces@.len() {
        Some(idx as usize)
    } else {
        None
    }
}

/// A standard device-to-host GET_DESCRIPTOR addressed to the device.
pub open spec fn is_get_descriptor(setup: SetupPacket) -> bool {
    &&& type_of(setup.request_type) == RequestType::Standard
    &&& recipient_of(setup.request_type) == Recipient::Device
    &&& direction_of(setup.request_type) == Direction::In
    &&& setup.request == GET_DESCRIPTOR
}

/// A standard request that is acknowledged with no data.
pub open spec fn is_acknowledged(setup: SetupPacket) -> bool {
    &&& type_of(setup.request_type) == RequestType::Standard
    &&& (setup.request == SET_CONFIGURATION || setup.request == SET_INTERFACE || setup.request
        == SET_ADDRESS || setup.request == CLEAR_FEATURE || setup.request == SET_FEATURE)
}

/// A standard device-to-host GET_STATUS.
pub open spec fn is_get_status(setup: SetupPacket) -> bool {
    &&& type_of(setup.request_type) == RequestType::Standard
    &&& direction_of(setup.request_type) == Direction::In
    &&& setup.request == GET_STATUS
}

/// Interface lists whose blocks agree one by one have the same descriptors.
pub proof fn lemma_interfaces_block_same(a: Seq<UsbInterface>, b: Seq<UsbInterface>)
    requires
        a.len() == b.len(),
        forall|k: int|
            0 <= k < a.len() ==> interface_block(k as u8, #[trigger] a[k]) == interface_block(
                k as u8,
                b[k],
            ),
    ensures
        interfaces_block(a) == interfaces_block(b),
    decreases a.len(),
{
    if a.len() > 0 {
        lemma_interfaces_block_same(a.drop_last(), b.drop_last());
        assert(interface_block((a.len() - 1) as u8, a[a.len() - 1]) == interface_block(
            (a.len() - 1) as u8,
            b[a.len() - 1],
        ));
    }
}

/// `n` is `o` with interface `t` served one URB: answer `r`, all else kept.
pub open spec fn forwarded(
    o: UsbDevice,
    n: UsbDevice,
    t: int,
    ep: UsbEndpoint,
    setup: SetupPacket,
    req: Seq<u8>,
    r: Seq<u8>,
) -> bool {
    &&& 0 <= t < o.interfaces@.len()
    &&& n.interfaces@.len() == o.interfaces@.len()
    &&& forall|k: int| 0 <= k < o.interfaces@.len() && k != t ==> n.interfaces@[k] == o.interfaces@[k]
    &&& n.interfaces@[t].interface_class == o.interfaces@[t].interface_class
    &&& n.interfaces@[t].interface_subclass == o.interfaces@[t].interface_subclass
    &&& n.interfaces@[t].interface_protocol == o.interfaces@[t].interface_protocol
    &&& n.interfaces@[t].description == o.interfaces@[t].description
    &&& n.interfaces@[t].endpoints == o.interfaces@[t].endpoints
    &&& handler_urb(o.interfaces@[t].handler, n.interfaces@[t].handler, ep, setup, req, r)
    &&& n.path == o.path && n.bus_id == o.bus_id
    &&& n.bus_num == o.bus_num && n.dev_num == o.dev_num && n.speed == o.speed
    &&& n.vendor_id == o.vendor_id && n.product_id == o.product_id && n.device_bcd == o.device_bcd
    &&& n.device_class == o.device_class && n.device_subclass == o.device_subclass
    &&& n.device_protocol == o.device_protocol
    &&& n.ep0_max_packet_size == o.ep0_max_packet_size
}

/// The bytes of a result.
pub open spec fn bytes_result(r: Result<Vec<u8>, UsbIpError>) -> Result<Seq<u8>, UsbIpError> {
    match r {
        Ok(v) => Ok(v@),
        Err(e) => Err(e),
    }
}

/// `r` answers the URB for endpoint `ep` of interface `intf` on device `o`,
/// which it leaves as `n`.
pub open spec fn dispatched(
    o: UsbDevice,
    n: UsbDevice,
    ep: UsbEndpoint,
    intf: Option<usize>,
    setup: SetupPacket,
    req: Seq<u8>,
    r: Result<Seq<u8>, UsbIpError>,
) -> bool {
    &&& (ep.address & 0x7fu8 == 0 && is_get_descriptor(setup) ==> n == o && (r matches Ok(v)
        && v == truncated(o.descriptor_spec(setup.value), setup.length as nat)))
    &&& (ep.address & 0x7fu8 == 0 && !is_get_descriptor(setup) && is_acknowledged(setup)
                ==> n == o && (r matches Ok(v) && v.len() == 0))
    &&& (ep.address & 0x7fu8 == 0 && !is_get_descriptor(setup) && !is_acknowledged(setup)
                && is_get_status(setup) ==> n == o && (r matches Ok(v) && v
                == seq![0u8, 0u8]))
    &&& (ep.address & 0x7fu8 == 0 && !is_get_descriptor(setup) && !is_acknowledged(setup)
                && !is_get_status(setup) ==> match target_interface(o, setup) {
                Some(t) => r matches Ok(v) && exists|h: Seq<u8>|
                    #[trigger] forwarded(o, n, t as int, ep, setup, req, h) && v == truncated(
                        h,
                        setup.length as nat,
                    ),
                None => r == Err::<Seq<u8>, UsbIpError>(UsbIpError::HandlerError) && n == o,
            })
    &&& (ep.address & 0x7fu8 != 0 ==> match intf {
                Some(i) if i < o.interfaces@.len() => r matches Ok(v) && forwarded(
                    o,
                    n,
                    i as int,
                    ep,
                    setup,
                    if ep.address & 0x80u8 != 0 { Seq::empty() } else { req },
                    v,
                ),
                _ => r == Err::<Seq<u8>, UsbIpError>(UsbIpError::UnknownEndpoint) && n == o,
            })
}

/// The 4-byte interface record of each interface, in order.
pub open spec fn interface_records(intfs: Seq<UsbInterface>) -> Seq<u8>
    decreases intfs.len(),
{
    if intfs.len() == 0 {
        Seq::empty()
    } else {
        interface_records(intfs.drop_last()) + seq![
            intfs.last().interface_class,
            intfs.last().interface_subclass,
            intfs.last().interface_protocol,
            0u8,
        ]
    }
}

/// The 312-byte device record of USB/IP.
pub open spec fn device_record(d: UsbDevice) -> Seq<u8> {
    padded(str_bytes(d.path), 256) + padded(str_bytes(d.bus_id), 32) + be32(d.bus_num) + be32(
        d.dev_num,
    ) + be32(d.speed) + be16(d.vendor_id) + be16(d.product_id) + be16(d.device_bcd) + seq![
        d.device_class,
        d.device_subclass,
        d.device_protocol,
        1u8,
        1u8,
        d.interfaces@.len() as u8,
    ]
}

/// The bus id field of a device record: the id, zero-padded to 32 bytes.
pub open spec fn bus_id_field(d: UsbDevice) -> Seq<u8> {
    padded(str_bytes(d.bus_id), 32)
}

/// The device descriptor decodes back to the device's fields, and the
/// configuration descriptor's header to its own length and the number of
/// interfaces; string descriptor 0 lists US English.
pub proof fn lemma_descriptors_decode(d: UsbDevice)
    requires
        d.wf(),
    ensures
        ({
            let b = d.device_descriptor_spec();
            &&& b.len() == 18 && b[0] == 18 && b[1] == DEVICE_DESCRIPTOR
            &&& b[4] == d.device_class && b[5] == d.device_subclass && b[6] == d.device_protocol
            &&& b[7] == d.ep0_max_packet_size
            &&& le16_value(b[8], b[9]) == d.vendor_id
            &&& le16_value(b[10], b[11]) == d.product_id
            &&& le16_value(b[12], b[13]) == d.device_bcd
        }),
        ({
            let c = d.config_descriptor_spec();
            &&& c[0] == 9 && c[1] == CONFIGURATION_DESCRIPTOR
            &&& le16_value(c[2], c[3]) == c.len()
            &&& c[4] == d.interfaces@.len()
            &&& c.subrange(9, c.len() as int) == interfaces_block(d.interfaces@)
        }),
        d.string_descriptor_spec(0) == seq![4u8, STRING_DESCRIPTOR, 0x09u8, 0x04u8],
        forall|k: int|
            0 <= k < d.interfaces@.len() ==> {
                let intf = #[trigger] d.interfaces@[k];
                let b = interface_block(k as u8, intf);
                let u = utf16_of(intf.description@);
                &&& b[0] == 9 && b[1] == 4 && b[2] == k && b[3] == 0
                &&& b[4] == intf.endpoints@.len()
                &&& b[5] == intf.interface_class && b[6] == intf.interface_subclass
                &&& b[7] == intf.interface_protocol
                &&& b.subrange(9, 9 + intf.handler.class_descriptor_spec().len() as int)
                    == intf.handler.class_descriptor_spec()
                &&& u.len() <= MAX_STRING_UNITS ==> d.string_descriptor_spec((k + 1) as u8) == seq![
                    (2 + 2 * u.len()) as u8,
                    STRING_DESCRIPTOR,
                ] + units_le(u)
            },
{
    assert forall|k: int| 0 <= k < d.interfaces@.len() implies {
        let intf = #[trigger] d.interfaces@[k];
        let b = interface_block(k as u8, intf);
        let u = utf16_of(intf.description@);
        &&& b[0] == 9 && b[1] == 4 && b[2] == k && b[3] == 0
        &&& b[4] == intf.endpoints@.len()
        &&& b[5] == intf.interface_class && b[6] == intf.interface_subclass
        &&& b[7] == intf.interface_protocol
        &&& b.subrange(9, 9 + intf.handler.class_descriptor_spec().len() as int)
            == intf.handler.class_descriptor_spec()
        &&& u.len() <= MAX_STRING_UNITS ==> d.string_descriptor_spec((k + 1) as u8) == seq![
            (2 + 2 * u.len()) as u8,
            STRING_DESCRIPTOR,
        ] + units_le(u)
    } by {
        let intf = d.interfaces@[k];
        let b = interface_block(k as u8, intf);
        let cd = intf.handler.class_descriptor_spec();
        assert(b.subrange(9, 9 + cd.len() as int) =~= cd);
        let u = utf16_of(intf.description@);
        assert(u.take(u.len() as int) =~= u);
        assert(intf.endpoints@.len() <= 255) by {
            assert(d.interfaces@[k].wf());
        }
    }
    lemma_le16_value(d.vendor_id);
    lemma_le16_value(d.product_id);
    lemma_le16_value(d.device_bcd);
    let body = interfaces_block(d.interfaces@);
    let total = (9 + body.len()) as u16;
    lemma_le16_value(total);
    let c = d.config_descriptor_spec();
    assert(c.subrange(9, c.len() as int) =~= body);
}

/// Endpoint lookup is a function of the address: no address answers with
/// two different endpoints or interfaces.
pub proof fn lemma_lookup_unique(
    d: UsbDevice,
    addr: u8,
    r1: Option<(UsbEndpoint, Option<usize>)>,
    r2: Option<(UsbEndpoint, Option<usize>)>,
)
    requires
        d.wf(),
        d.located(addr, r1),
        d.located(addr, r2),
    ensures
        r1 == r2,
{
    if addr & 0x7fu8 != 0 {
        match (r1, r2) {
            (Some((e1, Some(i1))), Some((e2, Some(i2)))) => {
                let j1 = choose|j: int|
                    d.has_endpoint(i1 as int, j) && #[trigger] d.endpoint_at(i1 as int, j) == e1;
                let j2 = choose|j: int|
                    d.has_endpoint(i2 as int, j) && #[trigger] d.endpoint_at(i2 as int, j) == e2;
                assert(d.endpoint_at(i1 as int, j1).address == d.endpoint_at(i2 as int, j2).address);
            },
            (Some((e1, Some(i1))), None) => {
                let j1 = choose|j: int|
                    d.has_endpoint(i1 as int, j) && #[trigger] d.endpoint_at(i1 as int, j) == e1;
                assert(d.endpoint_at(i1 as int, j1).address != addr);
            },
            (None, Some((e2, Some(i2)))) => {
                let j2 = choose|j: int|
                    d.has_endpoint(i2 as int, j) && #[trigger] d.endpoint_at(i2 as int, j) == e2;
                assert(d.endpoint_at(i2 as int, j2).address != addr);
            },
            _ => {},
        }
    }
}

/// GET_DESCRIPTOR answers `min(descriptor length, wLength)` bytes, the
/// descriptor's first ones.
pub proof fn lemma_descriptor_truncation(
    o: UsbDevice,
    n: UsbDevice,
    ep: UsbEndpoint,
    intf: Option<usize>,
    setup: SetupPacket,
    req: Seq<u8>,
    r: Result<Seq<u8>, UsbIpError>,
)
    requires
        dispatched(o, n, ep, intf, setup, req, r),
        ep.address & 0x7fu8 == 0,
        is_get_descriptor(setup),
    ensures
        r matches Ok(v) && v.len() == (if o.descriptor_spec(setup.value).len() <= setup.length {
            o.descriptor_spec(setup.value).len()
        } else {
            setup.length as nat
        }) && v == o.descriptor_spec(setup.value).take(v.len() as int),
{
    let d = o.descriptor_spec(setup.value);
    if d.len() <= setup.length {
        assert(d.take(d.len() as int) =~= d);
    }
}

/// `n` has the interfaces and endpoints of `o`.
pub open spec fn same_endpoints(o: UsbDevice, n: UsbDevice) -> bool {
    &&& n.interfaces@.len() == o.interfaces@.len()
    &&& forall|i: int|
        0 <= i < o.interfaces@.len() ==> (#[trigger] n.interfaces@[i]).endpoints
            == o.interfaces@[i].endpoints
}

/// The endpoints `eps` may join the device `d`: none is endpoint 0, none is
/// in use on `d` and no two share an address.
pub open spec fn fresh_endpoints(d: UsbDevice, eps: Seq<UsbEndpoint>) -> bool {
    &&& forall|k: int| 0 <= k < eps.len() ==> #[trigger] eps[k].address & 0x7fu8 != 0
    &&& forall|k: int, i: int, j: int|
        0 <= k < eps.len() && d.has_endpoint(i, j) ==> #[trigger] d.endpoint_at(i, j).address
            != #[trigger] eps[k].address
    &&& forall|k1: int, k2: int|
        0 <= k1 < eps.len() && 0 <= k2 < eps.len() && #[trigger] eps[k1].address
            == #[trigger] eps[k2].address ==> k1 == k2
}

impl UsbDevice {
    pub open spec fn endpoint_at(&self, i: int, j: int) -> UsbEndpoint {
        self.interfaces@[i].endpoints@[j]
    }

    pub open spec fn has_endpoint(&self, i: int, j: int) -> bool {
        0 <= i < self.interfaces@.len() && 0 <= j < self.interfaces@[i].endpoints@.len()
    }

    /// Interface `i` has endpoint `ep`.
    pub open spec fn owns_endpoint(&self, i: int, ep: UsbEndpoint) -> bool {
        exists|j: int| self.has_endpoint(i, j) && #[trigger] self.endpoint_at(i, j) == ep
    }

    /// No two endpoints share an address, and none is endpoint 0.
    pub open spec fn addresses_unique(&self) -> bool {
        &&& forall|i: int, j: int|
            #![trigger self.endpoint_at(i, j)]
            self.has_endpoint(i, j) ==> self.endpoint_at(i, j).address & 0x7fu8 != 0
        &&& forall|i1: int, j1: int, i2: int, j2: int|
            #![trigger self.endpoint_at(i1, j1), self.endpoint_at(i2, j2)]
            self.has_endpoint(i1, j1) && self.has_endpoint(i2, j2) && self.endpoint_at(
                i1,
                j1,
            ).address == self.endpoint_at(i2, j2).address ==> i1 == i2 && j1 == j2
    }

    pub open spec fn wf(&self) -> bool {
        &&& str_bytes(self.path).len() <= 256
        &&& str_bytes(self.bus_id).len() <= 31
        &&& self.interfaces@.len() <= 254
        &&& forall|i: int| 0 <= i < self.interfaces@.len() ==> #[trigger] self.interfaces@[i].wf()
        &&& self.addresses_unique()
        &&& 9 + interfaces_block(self.interfaces@).len() <= 0xffff
    }

    /// The 18-byte device descriptor.
    pub open spec fn device_descriptor_spec(&self) -> Seq<u8> {
        seq![
            18u8,
            1u8,
            0x00u8,
            0x02u8,
            self.device_class,
            self.device_subclass,
            self.device_protocol,
            self.ep0_max_packet_size,
        ] + le16(self.vendor_id) + le16(self.product_id) + le16(self.device_bcd) + seq![
            0u8,
            0u8,
            0u8,
            1u8,
        ]
    }

    /// The configuration descriptor with all interface blocks.
    pub open spec fn config_descriptor_spec(&self) -> Seq<u8> {
        let body = interfaces_block(self.interfaces@);
        config_header((9 + body.len()) as u16, self.interfaces@.len() as u8) + body
    }

    /// String descriptor `index`: the language list for 0, the description of
    /// interface `index - 1` otherwise, nothing past the last interface.
    pub open spec fn string_descriptor_spec(&self, index: u8) -> Seq<u8> {
        if index == 0 {
            seq![4u8, 3u8, 0x09u8, 0x04u8]
        } else if index as int <= self.interfaces@.len() {
            let u = utf16_of(self.interfaces@[index - 1].description@);
            let k = if u.len() <= MAX_STRING_UNITS { u.len() } else { MAX_STRING_UNITS as nat };
            seq![(2 + 2 * k) as u8, 3u8] + units_le(u.take(k as int))
        } else {
            Seq::empty()
        }
    }

    /// The descriptor that GET_DESCRIPTOR with this `wValue` asks for.
    pub open spec fn descriptor_spec(&self, value: u16) -> Seq<u8> {
        let kind = (value >> 8u16) as u8;
        if kind == DEVICE_DESCRIPTOR {
            self.device_descriptor_spec()
        } else if kind == CONFIGURATION_DESCRIPTOR {
            self.config_descriptor_spec()
        } else if kind == STRING_DESCRIPTOR {
            self.string_descriptor_spec(value as u8)
        } else {
            Seq::empty()
        }
    }

    /// A device with no interfaces, high speed, ids zero and endpoint 0 of 64 bytes.
    pub fn new(path: String, bus_id: String) -> (r: Option<UsbDevice>)
        ensures
            r is Some <==> str_bytes(path).len() <= 256 && str_bytes(bus_id).len() <= 31,
            r matches Some(d) ==> {
                &&& d.wf()
                &&& d.path == path
                &&& d.bus_id == bus_id
                &&& d.bus_num == 0 && d.dev_num == 0
                &&& d.speed == SPEED_HIGH
                &&& d.vendor_id == 0 && d.product_id == 0 && d.device_bcd == 0
                &&& d.device_class == 0 && d.device_subclass == 0 && d.device_protocol == 0
                &&& d.ep0_max_packet_size == 64
                &&& d.interfaces@.len() == 0
            },
    {
        if path.as_str().as_bytes().len() > 256 || bus_id.as_str().as_bytes().len() > 31 {
            return None;
        }
        let d = UsbDevice {
            path,
            bus_id,
            bus_num: 0,
            dev_num: 0,
            speed: SPEED_HIGH,
            vendor_id: 0,
            product_id: 0,
            device_bcd: 0,
            device_class: 0,
            device_subclass: 0,
            device_protocol: 0,
            ep0_max_packet_size: 64,
            interfaces: Vec::new(),
        };
        assert(interfaces_block(d.interfaces@) =~= Seq::empty());
        Some(d)
    }

    /// `r` is the answer to a lookup of endpoint address `addr`: endpoint 0
    /// is the device's control endpoint, any other the endpoint of that
    /// address and its interface, or nothing when no endpoint has it.
    pub open spec fn located(&self, addr: u8, r: Option<(UsbEndpoint, Option<usize>)>) -> bool {
        &&& (addr & 0x7fu8 == 0 ==> r == Some(
                (
                    UsbEndpoint {
                        address: addr,
                        attributes: EP_CONTROL,
                        max_packet_size: self.ep0_max_packet_size as u16,
                        interval: 0,
                    },
                    None::<usize>,
                ),
            ))
        &&& (addr & 0x7fu8 != 0 ==> match r {
                Some((ep, Some(i))) => ep.address == addr && self.owns_endpoint(i as int, ep),
                Some((_, None)) => false,
                None => forall|i: int, j: int|
                    self.has_endpoint(i, j) ==> #[trigger] self.endpoint_at(i, j).address != addr,
            })
    }

    /// Finds the endpoint with address `addr` and the index of its interface.
    /// Endpoint 0, in either direction, is the device's own control endpoint.
    pub fn find_ep(&self, addr: u8) -> (r: Option<(UsbEndpoint, Option<usize>)>)
        ensures
            self.located(addr, r),
    {
        if addr & 0x7fu8 == 0 {
            let ep0 = UsbEndpoint {
                address: addr,
                attributes: EP_CONTROL,
                max_packet_size: self.ep0_max_packet_size as u16,
                interval: 0,
            };
            return Some((ep0, None));
        }
        let mut i: usize = 0;
        while i < self.interfaces.len()
            invariant
                addr & 0x7fu8 != 0,
                0 <= i <= self.interfaces@.len(),
                forall|i2: int, j2: int|
                    0 <= i2 < i && self.has_endpoint(i2, j2) ==> #[trigger] self.endpoint_at(
                        i2,
                        j2,
                    ).address != addr,
            decreases self.interfaces@.len() - i,
        {
            let eps = &self.interfaces[i].endpoints;
            let mut j: usize = 0;
            while j < eps.len()
                invariant
                    addr & 0x7fu8 != 0,
                    0 <= i < self.interfaces@.len(),
                    eps@ == self.interfaces@[i as int].endpoints@,
                    0 <= j <= eps@.len(),
                    forall|j2: int| 0 <= j2 < j ==> #[trigger] eps@[j2].address != addr,
                decreases eps@.len() - j,
            {
                if eps[j].address == addr {
                    assert(self.has_endpoint(i as int, j as int));
                    let ep = eps[j];
                    assert(self.endpoint_at(i as int, j as int) == ep);
                    return Some((ep, Some(i)));
                }
                j = j + 1;
            }
            assert forall|i2: int, j2: int|
                0 <= i2 < i + 1 && self.has_endpoint(i2, j2) implies #[trigger] self.endpoint_at(
                i2,
                j2,
            ).address != addr by {
                if i2 == i {
                    assert(eps@[j2].address != addr);
                }
            }
            i = i + 1;
        }
        None
    }

    pub fn device_descriptor(&self) -> (r: Vec<u8>)
        ensures
            r@ == self.device_descriptor_spec(),
    {
        let mut r: Vec<u8> = vec![
            18u8,
            1u8,
            0x00u8,
            0x02u8,
            self.device_class,
            self.device_subclass,
            self.device_protocol,
            self.ep0_max_packet_size,
        ];
        push_u16_le(&mut r, self.vendor_id);
        push_u16_le(&mut r, self.product_id);
        push_u16_le(&mut r, self.device_bcd);
        r.push(0u8);
        r.push(0u8);
        r.push(0u8);
        r.push(1u8);
        assert(r@ =~= self.device_descriptor_spec());
        r
    }

    pub fn config_descriptor(&self) -> (r: Vec<u8>)
        requires
            self.wf(),
        ensures
            r@ == self.config_descriptor_spec(),
    {
        let mut body: Vec<u8> = Vec::new();
        let mut i: usize = 0;
        while i < self.interfaces.len()
            invariant
                self.wf(),
                0 <= i <= self.interfaces@.len(),
                body@ == interfaces_block(self.interfaces@.subrange(0, i as int)),
            decreases self.interfaces@.len() - i,
        {
            assert(self.interfaces@[i as int].wf());
            self.interfaces[i].write_descriptors(i as u8, &mut body);
            assert(self.interfaces@.subrange(0, i + 1).drop_last() =~= self.interfaces@.subrange(
                0,
                i as int,
            ));
            i = i + 1;
        }
        assert(self.interfaces@.subrange(0, i as int) =~= self.interfaces@);
        let mut r: Vec<u8> = vec![9u8, 2u8];
        push_u16_le(&mut r, (9 + body.len()) as u16);
        r.push(self.interfaces.len() as u8);
        r.push(1u8);
        r.push(0u8);
        r.push(0x80u8);
        r.push(50u8);
        push_bytes(&mut r, body.as_slice());
        assert(r@ =~= self.config_descriptor_spec());
        r
    }

    pub fn string_descriptor(&self, index: u8) -> (r: Vec<u8>)
        ensures
            r@ == self.string_descriptor_spec(index),
    {
        if index == 0 {
            let r: Vec<u8> = vec![4u8, 3u8, 0x09u8, 0x04u8];
            assert(r@ =~= self.string_descriptor_spec(index));
            r
        } else if (index as usize) <= self.interfaces.len() {
            let u = utf16_units(self.interfaces[index as usize - 1].description.as_str());
            let k: usize = if u.len() <= MAX_STRING_UNITS { u.len() } else { MAX_STRING_UNITS };
            let mut r: Vec<u8> = vec![(2 + 2 * k) as u8, 3u8];
            let mut t: usize = 0;
            while t < k
                invariant
                    k <= u@.len(),
                    0 <= t <= k,
                    r@ == seq![(2 + 2 * k) as u8, 3u8] + units_le(u@.take(t as int)),
                decreases k - t,
            {
                push_u16_le(&mut r, u[t]);
                assert(u@.take(t + 1).drop_last() =~= u@.take(t as int));
                t = t + 1;
            }
            assert(r@ =~= self.string_descriptor_spec(index));
            r
        } else {
            Vec::new()
        }
    }

    /// The descriptor that GET_DESCRIPTOR with this `wValue` asks for.
    pub fn descriptor(&self, value: u16) -> (r: Vec<u8>)
        requires
            self.wf(),
        ensures
            r@ == self.descriptor_spec(value),
    {
        let kind = (value >> 8u16) as u8;
        if kind == DEVICE_DESCRIPTOR {
            self.device_descriptor()
        } else if kind == CONFIGURATION_DESCRIPTOR {
            self.config_descriptor()
        } else if kind == STRING_DESCRIPTOR {
            self.string_descriptor(value as u8)
        } else {
            Vec::new()
        }
    }


    /// Interface `t` serves one URB.
    fn forward(&mut self, t: usize, ep: UsbEndpoint, setup: SetupPacket, req: &[u8]) -> (v: Vec<u8>)
        requires
            old(self).wf(),
            t < old(self).interfaces@.len(),
        ensures
            final(self).wf(),
            same_endpoints(*old(self), *final(self)),
            final(self).bus_id == old(self).bus_id,
            forwarded(*old(self), *final(self), t as int, ep, setup, req@, v@),
    {
        let ghost before = self.interfaces@;
        assert(before[t as int].wf());
        let mut intf = self.interfaces.remove(t);
        let v = intf.handler.handle_urb(ep, setup, req);
        self.interfaces.insert(t, intf);
        proof {
            assert(self.interfaces@ =~= before.update(t as int, intf));
            assert forall|k: int| 0 <= k < before.len() implies interface_block(
                k as u8,
                #[trigger] before[k],
            ) == interface_block(k as u8, self.interfaces@[k]) by {}
            lemma_interfaces_block_same(before, self.interfaces@);
            assert forall|i: int, j: int| self.has_endpoint(i, j) implies #[trigger] self.endpoint_at(
                i,
                j,
            ) == old(self).endpoint_at(i, j) by {}
            assert forall|i: int| 0 <= i < self.interfaces@.len() implies #[trigger] self.interfaces@[i].wf() by {
                assert(before[i].wf());
            }
        }
        v
    }

    /// Dispatches one URB for endpoint `ep`, owned by interface `intf`.
    ///
    /// On endpoint 0 a standard GET_DESCRIPTOR to the device is answered from
    /// the model, cut to `wLength`; standard configuration and feature
    /// requests are acknowledged empty; GET_STATUS answers two zero bytes;
    /// every other request goes to the interface that `wIndex` names (or that
    /// owns the endpoint it names), its answer cut to `wLength`. Other
    /// endpoints go to their interface's handler, with `req` for OUT and
    /// nothing for IN.
    pub fn handle_urb(
        &mut self,
        ep: UsbEndpoint,
        intf: Option<usize>,
        setup: SetupPacket,
        req: &[u8],
    ) -> (r: Result<Vec<u8>, UsbIpError>)
        requires
            old(self).wf(),
        ensures
            final(self).wf(),
            same_endpoints(*old(self), *final(self)),
            final(self).bus_id == old(self).bus_id,
            dispatched(*old(self), *final(self), ep, intf, setup, req@, bytes_result(r)),
    {
        if ep.address & 0x7fu8 == 0 {
            let kind = setup.request_kind();
            let standard = kind == RequestType::Standard;
            if standard && setup.recipient() == Recipient::Device && setup.direction()
                == Direction::In && setup.request == GET_DESCRIPTOR {
                let mut d = self.descriptor(setup.value);
                if d.len() > setup.length as usize {
                    d.truncate(setup.length as usize);
                }
                assert(d@ =~= truncated(self.descriptor_spec(setup.value), setup.length as nat));
                Ok(d)
            } else if standard && (setup.request == SET_CONFIGURATION || setup.request
                == SET_INTERFACE || setup.request == SET_ADDRESS || setup.request == CLEAR_FEATURE
                || setup.request == SET_FEATURE) {
                Ok(Vec::new())
            } else if standard && setup.direction() == Direction::In && setup.request
                == GET_STATUS {
                let v: Vec<u8> = vec![0u8, 0u8];
                assert(v@ =~= seq![0u8, 0u8]);
                Ok(v)
            } else {
                let idx = setup.index & 0xffu16;
                let target: Option<usize> = if setup.recipient() == Recipient::Endpoint {
                    let found = self.find_ep(idx as u8);
                    proof {
                        let chosen = choose|loc: Option<(UsbEndpoint, Option<usize>)>|
                            #[trigger] self.located(idx as u8, loc);
                        lemma_lookup_unique(*self, idx as u8, chosen, found);
                    }
                    match found {
                        Some((_, Some(i))) => Some(i),
                        _ => None,
                    }
                } else if (idx as usize) < self.interfaces.len() {
                    Some(idx as usize)
                } else {
                    None
                };
                match target {
                    Some(t) => {
                        let mut v = self.forward(t, ep, setup, req);
                        let ghost h = v@;
                        if v.len() > setup.length as usize {
                            v.truncate(setup.length as usize);
                        }
                        assert(v@ =~= truncated(h, setup.length as nat));
                        Ok(v)
                    },
                    None => Err(UsbIpError::HandlerError),
                }
            }
        } else {
            match intf {
                Some(i) => {
                    if i < self.interfaces.len() {
                        if ep.address & 0x80u8 != 0 {
                            let none: Vec<u8> = Vec::new();
                            let v = self.forward(i, ep, setup, none.as_slice());
                            assert(none@ =~= Seq::<u8>::empty());
                            Ok(v)
                        } else {
                            Ok(self.forward(i, ep, setup, req))
                        }
                    } else {
                        Err(UsbIpError::UnknownEndpoint)
                    }
                },
                None => Err(UsbIpError::UnknownEndpoint),
            }
        }
    }


    /// Checks that `eps` may join this device, as `fresh_endpoints` says.
    fn endpoints_fresh(&self, eps: &Vec<UsbEndpoint>) -> (r: bool)
        ensures
            r == fresh_endpoints(*self, eps@),
    {
        let mut k: usize = 0;
        while k < eps.len()
            invariant
                0 <= k <= eps@.len(),
                forall|k2: int| 0 <= k2 < k ==> #[trigger] eps@[k2].address & 0x7fu8 != 0,
                forall|k2: int, i: int, j: int|
                    0 <= k2 < k && self.has_endpoint(i, j) ==> #[trigger] self.endpoint_at(
                        i,
                        j,
                    ).address != #[trigger] eps@[k2].address,
                forall|k1: int, k2: int|
                    0 <= k1 < k && 0 <= k2 < k && #[trigger] eps@[k1].address
                        == #[trigger] eps@[k2].address ==> k1 == k2,
            decreases eps@.len() - k,
        {
            let a = eps[k].address;
            if a & 0x7fu8 == 0 {
                assert(!fresh_endpoints(*self, eps@)) by {
                    assert(eps@[k as int].address & 0x7fu8 == 0);
                }
                return false;
            }
            match self.find_ep(a) {
                Some((ep, Some(i))) => {
                    assert(!fresh_endpoints(*self, eps@)) by {
                        let j = choose|j: int|
                            self.has_endpoint(i as int, j) && #[trigger] self.endpoint_at(
                                i as int,
                                j,
                            ) == ep;
                        assert(self.endpoint_at(i as int, j).address == eps@[k as int].address);
                    }
                    return false;
                },
                _ => {},
            }
            let mut m: usize = 0;
            while m < k
                invariant
                    0 <= m <= k < eps@.len(),
                    a == eps@[k as int].address,
                    forall|m2: int| 0 <= m2 < m ==> #[trigger] eps@[m2].address != a,
                decreases k - m,
            {
                if eps[m].address == a {
                    assert(!fresh_endpoints(*self, eps@)) by {
                        assert(eps@[m as int].address == eps@[k as int].address);
                    }
                    return false;
                }
                m = m + 1;
            }
            k = k + 1;
        }
        true
    }

    /// Adds an interface, numbered after the existing ones. Fails with
    /// `InvalidDevice` when the device would break its rules: 254 interfaces
    /// at most, 255 endpoints per interface, endpoint addresses unique and
    /// not 0, a configuration descriptor that fits its 16-bit length.
    pub fn with_interface(
        self,
        interface_class: u8,
        interface_subclass: u8,
        interface_protocol: u8,
        description: String,
        endpoints: Vec<UsbEndpoint>,
        handler: InterfaceHandler,
    ) -> (r: Result<UsbDevice, UsbIpError>)
        requires
            self.wf(),
        ensures
            ({
                let added = UsbInterface {
                    interface_class,
                    interface_subclass,
                    interface_protocol,
                    description,
                    endpoints,
                    handler,
                };
                &&& r is Ok <==> {
                    &&& self.interfaces@.len() < 254
                    &&& endpoints@.len() <= 255
                    &&& handler.wf()
                    &&& fresh_endpoints(self, endpoints@)
                    &&& 9 + interfaces_block(self.interfaces@).len() + interface_block(
                        self.interfaces@.len() as u8,
                        added,
                    ).len() <= 0xffff
                }
                &&& r matches Ok(d) ==> {
                    &&& d.wf()
                    &&& d.interfaces@ == self.interfaces@.push(added)
                    &&& d.path == self.path && d.bus_id == self.bus_id
                    &&& d.bus_num == self.bus_num && d.dev_num == self.dev_num
                    &&& d.speed == self.speed
                    &&& d.vendor_id == self.vendor_id && d.product_id == self.product_id
                    &&& d.device_bcd == self.device_bcd
                    &&& d.device_class == self.device_class
                    &&& d.device_subclass == self.device_subclass
                    &&& d.device_protocol == self.device_protocol
                    &&& d.ep0_max_packet_size == self.ep0_max_packet_size
                }
                &&& r matches Err(e) ==> e == UsbIpError::InvalidDevice
            }),
    {
        let ok_handler = match &handler {
            InterfaceHandler::Hid(h) => h.report_descriptor.len() <= 0xffff,
            InterfaceHandler::CdcAcm(_) => true,
        };
        if self.interfaces.len() >= 254 || endpoints.len() > 255 || !ok_handler
            || !self.endpoints_fresh(&endpoints) {
            return Err(UsbIpError::InvalidDevice);
        }
        let n = self.interfaces.len();
        let existing = self.config_descriptor().len();
        let added = UsbInterface {
            interface_class,
            interface_subclass,
            interface_protocol,
            description,
            endpoints,
            handler,
        };
        let mut block: Vec<u8> = Vec::new();
        added.write_descriptors(n as u8, &mut block);
        if block.len() > 0xffff - existing {
            return Err(UsbIpError::InvalidDevice);
        }
        let mut d = self;
        let ghost old_intfs = d.interfaces@;
        d.interfaces.push(added);
        proof {
            assert(d.interfaces@.drop_last() =~= old_intfs);
            assert forall|i: int| 0 <= i < d.interfaces@.len() implies #[trigger] d.interfaces@[i].wf() by {
                if i < n {
                    assert(old_intfs[i].wf());
                }
            }
            assert forall|i: int, j: int|
                d.has_endpoint(i, j) && i < n implies #[trigger] d.endpoint_at(i, j)
                == self.endpoint_at(i, j) by {}
            assert forall|i1: int, j1: int, i2: int, j2: int|
                d.has_endpoint(i1, j1) && d.has_endpoint(i2, j2) && #[trigger] d.endpoint_at(
                    i1,
                    j1,
                ).address == #[trigger] d.endpoint_at(i2, j2).address implies i1 == i2 && j1
                == j2 by {
                if i1 < n && i2 < n {
                    assert(self.endpoint_at(i1, j1) == d.endpoint_at(i1, j1));
                    assert(self.endpoint_at(i2, j2) == d.endpoint_at(i2, j2));
                } else if i1 < n {
                    assert(d.endpoint_at(i2, j2) == added.endpoints@[j2]);
                    assert(self.endpoint_at(i1, j1).address != added.endpoints@[j2].address);
                } else if i2 < n {
                    assert(d.endpoint_at(i1, j1) == added.endpoints@[j1]);
                    assert(self.endpoint_at(i2, j2).address != added.endpoints@[j1].address);
                } else {
                    assert(d.endpoint_at(i1, j1) == added.endpoints@[j1]);
                    assert(d.endpoint_at(i2, j2) == added.endpoints@[j2]);
                }
            }
            assert forall|i: int, j: int| d.has_endpoint(i, j) implies #[trigger] d.endpoint_at(
                i,
                j,
            ).address & 0x7fu8 != 0 by {
                if i < n {
                    assert(self.endpoint_at(i, j) == d.endpoint_at(i, j));
                } else {
                    assert(d.endpoint_at(i, j) == added.endpoints@[j]);
                }
            }
        }
        Ok(d)
    }


    /// Appends the device record.
    pub fn write_dev(&self, out: &mut Vec<u8>)
        requires
            self.wf(),
        ensures
            final(out)@ == old(out)@ + device_record(*self),
    {
        let ghost start = out@;
        push_padded(out, self.path.as_str().as_bytes(), 256);
        push_padded(out, self.bus_id.as_str().as_bytes(), 32);
        push_u32_be(out, self.bus_num);
        push_u32_be(out, self.dev_num);
        push_u32_be(out, self.speed);
        push_u16_be(out, self.vendor_id);
        push_u16_be(out, self.product_id);
        push_u16_be(out, self.device_bcd);
        out.push(self.device_class);
        out.push(self.device_subclass);
        out.push(self.device_protocol);
        out.push(1u8);
        out.push(1u8);
        out.push(self.interfaces.len() as u8);
        assert(out@ =~= start + device_record(*self));
    }

    /// Appends the device record, then one interface record per interface.
    pub fn write_dev_with_interfaces(&self, out: &mut Vec<u8>)
        requires
            self.wf(),
        ensures
            final(out)@ == old(out)@ + device_record(*self) + interface_records(self.interfaces@),
    {
        self.write_dev(out);
        let ghost mid = out@;
        let mut i: usize = 0;
        while i < self.interfaces.len()
            invariant
                0 <= i <= self.interfaces@.len(),
                out@ == mid + interface_records(self.interfaces@.subrange(0, i as int)),
            decreases self.interfaces@.len() - i,
        {
            let intf = &self.interfaces[i];
            out.push(intf.interface_class);
            out.push(intf.interface_subclass);
            out.push(intf.interface_protocol);
            out.push(0u8);
            assert(self.interfaces@.subrange(0, i + 1).drop_last() =~= self.interfaces@.subrange(
                0,
                i as int,
            ));
            i = i + 1;
            assert(out@ =~= mid + interface_records(self.interfaces@.subrange(0, i as int)));
        }
        assert(self.interfaces@.subrange(0, i as int) =~= self.interfaces@);
    }

    /// Whether this device's bus id, zero-padded to 32 bytes, is `bus_id`.
    pub fn bus_id_matches(&self, bus_id: &[u8; 32]) -> (r: bool)
        requires
            self.wf(),
        ensures
            r == (bus_id_field(*self) == bus_id@),
    {
        let own = self.bus_id.as_str().as_bytes();
        let mut i: usize = 0;
        while i < 32
            invariant
                own@ == str_bytes(self.bus_id),
                own@.len() <= 31,
                bus_id@.len() == 32,
                0 <= i <= 32,
                forall|k: int| 0 <= k < i ==> bus_id_field(*self)[k] == #[trigger] bus_id@[k],
            decreases 32 - i,
        {
            let expected: u8 = if i < own.len() { own[i] } else { 0u8 };
            assert(expected == bus_id_field(*self)[i as int]);
            if expected != bus_id[i] {
                return false;
            }
            i = i + 1;
        }
        assert(bus_id_field(*self) =~= bus_id@);
        true
    }

}

} // verus!
