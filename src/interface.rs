//! USB interfaces and the handlers that serve them.
use vstd::prelude::*;
use crate::cdc::{cdc_class_descriptor, cdc_urb, UsbCdcAcmHandler};
use crate::endpoint::{endpoint_descriptor, UsbEndpoint};
use crate::hid::{hid_class_descriptor, hid_urb, UsbHidHandler};
use crate::setup::SetupPacket;

verus! {

/// The behaviour behind an interface.
pub enum InterfaceHandler {
    CdcAcm(UsbCdcAcmHandler),
    Hid(UsbHidHandler),
}

/// What one URB does to the handler `o`, leaving `n` and answering `r`.
pub open spec fn handler_urb(
    o: InterfaceHandler,
    n: InterfaceHandler,
    ep: UsbEndpoint,
    setup: SetupPacket,
    req: Seq<u8>,
    r: Seq<u8>,
) -> bool {
    match (o, n) {
        (InterfaceHandler::CdcAcm(a), InterfaceHandler::CdcAcm(b)) => cdc_urb(a, b, ep, setup, req, r),
        (InterfaceHandler::Hid(a), InterfaceHandler::Hid(b)) => hid_urb(a, b, ep, setup, req, r),
        _ => false,
    }
}

impl InterfaceHandler {
    pub open spec fn wf(&self) -> bool {
        match self {
            InterfaceHandler::Hid(h) => h.wf(),
            InterfaceHandler::CdcAcm(_) => true,
        }
    }

    /// The class-specific descriptor placed after the interface descriptor.
    pub open spec fn class_descriptor_spec(&self) -> Seq<u8> {
        match self {
            InterfaceHandler::CdcAcm(_) => cdc_class_descriptor(),
            InterfaceHandler::Hid(h) => hid_class_descriptor(h.report_descriptor@.len() as u16),
        }
    }

    pub fn class_descriptor(&self) -> (r: Vec<u8>)
        requires
            self.wf(),
        ensures
            r@ == self.class_descriptor_spec(),
    {
        match self {
            InterfaceHandler::CdcAcm(h) => h.class_descriptor(),
            InterfaceHandler::Hid(h) => h.class_descriptor(),
        }
    }

    pub fn handle_urb(&mut self, ep: UsbEndpoint, setup: SetupPacket, req: &[u8]) -> (r: Vec<u8>)
        requires
            old(self).wf(),
        ensures
            final(self).wf(),
            final(self).class_descriptor_spec() == old(self).class_descriptor_spec(),
            handler_urb(*old(self), *final(self), ep, setup, req@, r@),
    {
        match self {
            InterfaceHandler::CdcAcm(h) => h.handle_urb(ep, setup, req),
            InterfaceHandler::Hid(h) => h.handle_urb(ep, setup, req),
        }
    }
}

/// An interface: its class triple, a description, its endpoints (endpoint 0
/// excluded) and its handler.
pub struct UsbInterface {
    pub interface_class: u8,
    pub interface_subclass: u8,
    pub interface_protocol: u8,
    pub description: String,
    pub endpoints: Vec<UsbEndpoint>,
    pub handler: InterfaceHandler,
}

/// The endpoint descriptors of `eps`, in order.
pub open spec fn endpoints_descriptor(eps: Seq<UsbEndpoint>) -> Seq<u8>
    decreases eps.len(),
{
    if eps.len() == 0 {
        Seq::empty()
    } else {
        endpoints_descriptor(eps.drop_last()) + endpoint_descriptor(eps.last())
    }
}

/// The 9-byte interface descriptor of interface `number`.
pub open spec fn interface_descriptor(number: u8, intf: UsbInterface) -> Seq<u8> {
    seq![
        9u8,
        4u8,
        number,
        0u8,
        intf.endpoints@.len() as u8,
        intf.interface_class,
        intf.interface_subclass,
        intf.interface_protocol,
        0u8,
    ]
}

/// The interface descriptor, the class-specific blob, then the endpoint descriptors.
pub open spec fn interface_block(number: u8, intf: UsbInterface) -> Seq<u8> {
    interface_descriptor(number, intf) + intf.handler.class_descriptor_spec()
        + endpoints_descriptor(intf.endpoints@)
}

impl UsbInterface {
    pub open spec fn wf(&self) -> bool {
        &&& self.endpoints@.len() <= 255
        &&& self.handler.wf()
    }

    /// Appends the descriptors of this interface under the given number.
    pub fn write_descriptors(&self, number: u8, out: &mut Vec<u8>)
        requires
            self.wf(),
        ensures
            final(out)@ == old(out)@ + interface_block(number, *self),
    {
        let ghost start = out@;
        out.push(9u8);
        out.push(4u8);
        out.push(number);
        out.push(0u8);
        out.push(self.endpoints.len() as u8);
        out.push(self.interface_class);
        out.push(self.interface_subclass);
        out.push(self.interface_protocol);
        out.push(0u8);
        assert(out@ =~= start + interface_descriptor(number, *self));
        let class = self.handler.class_descriptor();
        crate::util::push_bytes(out, class.as_slice());
        let ghost mid = out@;
        let mut j: usize = 0;
        while j < self.endpoints.len()
            invariant
                0 <= j <= self.endpoints@.len(),
                out@ == mid + endpoints_descriptor(self.endpoints@.subrange(0, j as int)),
            decreases self.endpoints@.len() - j,
        {
            self.endpoints[j].write_descriptor(out);
            assert(self.endpoints@.subrange(0, j + 1).drop_last() =~= self.endpoints@.subrange(
                0,
                j as int,
            ));
            j = j + 1;
        }
        assert(self.endpoints@.subrange(0, j as int) =~= self.endpoints@);
        assert(out@ =~= start + interface_block(number, *self));
    }
}

} // verus!
