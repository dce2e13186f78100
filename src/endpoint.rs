//! USB endpoints and their descriptors.
use vstd::prelude::*;
use crate::setup::Direction;
use crate::util::{le16, push_u16_le};

verus! {

pub const EP_CONTROL: u8 = 0;
pub const EP_ISOCHRONOUS: u8 = 1;
pub const EP_BULK: u8 = 2;
pub const EP_INTERRUPT: u8 = 3;

/// An endpoint: its 8-bit address (bit 7 set for IN), transfer type,
/// maximum packet size and polling interval.
#[derive(Clone, Copy, Debug, PartialEq, Eq, Structural)]
pub struct UsbEndpoint {
    pub address: u8,
    pub attributes: u8,
    pub max_packet_size: u16,
    pub interval: u8,
}

/// The 7-byte endpoint descriptor.
pub open spec fn endpoint_descriptor(ep: UsbEndpoint) -> Seq<u8> {
    seq![7u8, 5u8, ep.address, ep.attributes] + le16(ep.max_packet_size) + seq![ep.interval]
}

impl UsbEndpoint {
    /// The implicit control endpoint 0 in the given direction.
    pub fn control(dir: Direction) -> (r: UsbEndpoint)
        ensures
            r.address == (if dir == Direction::In { 0x80u8 } else { 0u8 }),
            r.attributes == EP_CONTROL,
            r.max_packet_size == 64,
            r.interval == 0,
    {
        UsbEndpoint {
            address: if dir == Direction::In { 0x80u8 } else { 0u8 },
            attributes: EP_CONTROL,
            max_packet_size: 64,
            interval: 0,
        }
    }

    pub fn direction(&self) -> (r: Direction)
        ensures
            r == (if self.address & 0x80u8 == 0 { Direction::Out } else { Direction::In }),
    {
        if self.address & 0x80u8 == 0 {
            Direction::Out
        } else {
            Direction::In
        }
    }

    /// The endpoint number, the low four bits of the address.
    pub fn number(&self) -> (r: u8)
        ensures
            r == self.address & 0x0fu8,
    {
        self.address & 0x0fu8
    }

    /// Appends the endpoint descriptor.
    pub fn write_descriptor(&self, out: &mut Vec<u8>)
        ensures
            final(out)@ == old(out)@ + endpoint_descriptor(*self),
    {
        let ghost start = out@;
        out.push(7u8);
        out.push(5u8);
        out.push(self.address);
        out.push(self.attributes);
        push_u16_le(out, self.max_packet_size);
        out.push(self.interval);
        assert(out@ =~= start + endpoint_descriptor(*self));
    }
}

} // verus!
