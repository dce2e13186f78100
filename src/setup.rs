//! The 8-byte USB SETUP packet and its classification fields.
use vstd::prelude::*;
use crate::util::le16_value;

verus! {

/// Transfer direction of a control request or endpoint.
#[derive(Clone, Copy, Debug, PartialEq, Eq, Structural)]
pub enum Direction {
    Out,
    In,
}

/// Request type, bits 5 and 6 of `bmRequestType`.
#[derive(Clone, Copy, Debug, PartialEq, Eq, Structural)]
pub enum RequestType {
    Standard,
    Class,
    Vendor,
    Reserved,
}

/// Recipient, bits 0 to 4 of `bmRequestType`.
#[derive(Clone, Copy, Debug, PartialEq, Eq, Structural)]
pub enum Recipient {
    Device,
    Interface,
    Endpoint,
    Other,
}

/// A decoded SETUP packet.
#[derive(Clone, Copy, Debug, PartialEq, Eq, Structural)]
pub struct SetupPacket {
    pub request_type: u8,
    pub request: u8,
    pub value: u16,
    pub index: u16,
    pub length: u16,
}

pub open spec fn direction_of(request_type: u8) -> Direction {
    if request_type & 0x80u8 == 0 { Direction::Out } else { Direction::In }
}

pub open spec fn type_of(request_type: u8) -> RequestType {
    let t = (request_type >> 5u8) & 3u8;
    if t == 0 {
        RequestType::Standard
    } else if t == 1 {
        RequestType::Class
    } else if t == 2 {
        RequestType::Vendor
    } else {
        RequestType::Reserved
    }
}

pub open spec fn recipient_of(request_type: u8) -> Recipient {
    let r = request_type & 0x1fu8;
    if r == 0 {
        Recipient::Device
    } else if r == 1 {
        Recipient::Interface
    } else if r == 2 {
        Recipient::Endpoint
    } else {
        Recipient::Other
    }
}

/// The SETUP packet that the 8 bytes `b` encode.
pub open spec fn setup_of(b: Seq<u8>) -> SetupPacket {
    SetupPacket {
        request_type: b[0],
        request: b[1],
        value: le16_value(b[2], b[3]),
        index: le16_value(b[4], b[5]),
        length: le16_value(b[6], b[7]),
    }
}

impl SetupPacket {
    /// Decodes the 8 bytes `bmRequestType | bRequest | wValue | wIndex | wLength`,
    /// the three 16-bit fields little-endian.
    pub fn parse(b: &[u8; 8]) -> (r: SetupPacket)
        ensures
            r == setup_of(b@),
    {
        SetupPacket {
            request_type: b[0],
            request: b[1],
            value: (b[2] as u16) | ((b[3] as u16) << 8u16),
            index: (b[4] as u16) | ((b[5] as u16) << 8u16),
            length: (b[6] as u16) | ((b[7] as u16) << 8u16),
        }
    }

    pub fn direction(&self) -> (r: Direction)
        ensures
            r == direction_of(self.request_type),
    {
        if self.request_type & 0x80u8 == 0 {
            Direction::Out
        } else {
            Direction::In
        }
    }

    pub fn request_kind(&self) -> (r: RequestType)
        ensures
            r == type_of(self.request_type),
    {
        let t = (self.request_type >> 5u8) & 3u8;
        if t == 0 {
            RequestType::Standard
        } else if t == 1 {
            RequestType::Class
        } else if t == 2 {
            RequestType::Vendor
        } else {
            RequestType::Reserved
        }
    }

    pub fn recipient(&self) -> (r: Recipient)
        ensures
            r == recipient_of(self.request_type),
    {
        let r = self.request_type & 0x1fu8;
        if r == 0 {
            Recipient::Device
        } else if r == 1 {
            Recipient::Interface
        } else if r == 2 {
            Recipient::Endpoint
        } else {
            Recipient::Other
        }
    }
}

} // verus!
