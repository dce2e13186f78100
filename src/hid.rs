//! A HID interface handler with one interrupt-IN endpoint.
use vstd::prelude::*;
use crate::endpoint::{UsbEndpoint, EP_CONTROL, EP_INTERRUPT};
use crate::setup::SetupPacket;
use crate::util::{copy_of, le16, push_u16_le};

verus! {

pub const GET_REPORT: u8 = 0x01;
pub const SET_IDLE: u8 = 0x0a;
pub const SET_PROTOCOL: u8 = 0x0b;
pub const GET_DESCRIPTOR: u8 = 0x06;
/// Descriptor type of a HID report descriptor.
pub const REPORT_DESCRIPTOR_TYPE: u8 = 0x22;

/// The 9-byte HID descriptor announcing a report descriptor of `len` bytes.
pub open spec fn hid_class_descriptor(len: u16) -> Seq<u8> {
    seq![0x09u8, 0x21u8, 0x11u8, 0x01u8, 0x00u8, 0x01u8, 0x22u8] + le16(len)
}

/// The state of one HID function: its report descriptor, the reports that
/// wait for the host and the last report handed out.
pub struct UsbHidHandler {
    pub report_descriptor: Vec<u8>,
    pub pending: Vec<Vec<u8>>,
    pub last_report: Vec<u8>,
}

/// What one URB does to the handler `o`, leaving `n` and answering `r`.
pub open spec fn hid_urb(o: UsbHidHandler, n: UsbHidHandler, ep: UsbEndpoint, setup: SetupPacket, req: Seq<u8>, r: Seq<u8>) -> bool {
    &&& (n.report_descriptor == o.report_descriptor)
    &&& (ep.attributes == EP_CONTROL ==> {
                &&& r == (if setup.request == GET_DESCRIPTOR && (setup.value >> 8u16) as u8
                    == REPORT_DESCRIPTOR_TYPE {
                    o.report_descriptor@
                } else if setup.request == GET_REPORT {
                    o.last_report@
                } else {
                    Seq::empty()
                })
                &&& n.pending_view() == o.pending_view()
                &&& n.last_report == o.last_report
            })
    &&& (ep.attributes == EP_INTERRUPT && ep.address & 0x80 != 0 ==> if o.pending@.len() == 0 {
                r.len() == 0 && n.pending_view() == o.pending_view()
                    && n.last_report == o.last_report
            } else {
                &&& r == o.pending_view()[0]
                &&& n.last_report@ == r
                &&& n.pending_view() == o.pending_view().drop_first()
            })
    &&& (ep.attributes != EP_CONTROL && !(ep.attributes == EP_INTERRUPT && ep.address & 0x80
                != 0) ==> r.len() == 0 && n.pending_view() == o.pending_view()
                && n.last_report == o.last_report)
}

impl UsbHidHandler {
    pub open spec fn wf(&self) -> bool {
        self.report_descriptor@.len() <= 0xffff
    }

    pub open spec fn pending_view(&self) -> Seq<Seq<u8>> {
        self.pending@.map_values(|v: Vec<u8>| v@)
    }

    pub fn new(report_descriptor: Vec<u8>) -> (r: UsbHidHandler)
        requires
            report_descriptor@.len() <= 0xffff,
        ensures
            r.wf(),
            r.report_descriptor@ == report_descriptor@,
            r.pending@.len() == 0,
            r.last_report@.len() == 0,
    {
        UsbHidHandler { report_descriptor, pending: Vec::new(), last_report: Vec::new() }
    }

    /// The interrupt-IN endpoint.
    pub fn endpoints() -> (r: Vec<UsbEndpoint>)
        ensures
            r@ == seq![UsbEndpoint { address: 0x81, attributes: EP_INTERRUPT, max_packet_size: 8, interval: 10 }],
    {
        let r = vec![UsbEndpoint { address: 0x81, attributes: EP_INTERRUPT, max_packet_size: 8, interval: 10 }];
        assert(r@ =~= seq![UsbEndpoint { address: 0x81, attributes: EP_INTERRUPT, max_packet_size: 8, interval: 10 }]);
        r
    }

    pub fn class_descriptor(&self) -> (r: Vec<u8>)
        requires
            self.wf(),
        ensures
            r@ == hid_class_descriptor(self.report_descriptor@.len() as u16),
    {
        let mut r: Vec<u8> = vec![0x09u8, 0x21u8, 0x11u8, 0x01u8, 0x00u8, 0x01u8, 0x22u8];
        push_u16_le(&mut r, self.report_descriptor.len() as u16);
        assert(r@ =~= hid_class_descriptor(self.report_descriptor@.len() as u16));
        r
    }

    /// Queues a report for the interrupt-IN endpoint.
    pub fn push_report(&mut self, report: Vec<u8>)
        ensures
            final(self).pending_view() == old(self).pending_view().push(report@),
            final(self).report_descriptor == old(self).report_descriptor,
            final(self).last_report == old(self).last_report,
    {
        self.pending.push(report);
        assert(self.pending_view() =~= old(self).pending_view().push(report@));
    }

    /// Handles one URB addressed to this function.
    ///
    /// On endpoint 0, GET_DESCRIPTOR of type REPORT returns the report
    /// descriptor and GET_REPORT the last report; other requests answer
    /// empty. Interrupt IN hands out the oldest queued report, or nothing.
    pub fn handle_urb(&mut self, ep: UsbEndpoint, setup: SetupPacket, req: &[u8]) -> (r: Vec<u8>)
        ensures
            hid_urb(*old(self), *final(self), ep, setup, req@, r@),
    {
        if ep.attributes == EP_CONTROL {
            if setup.request == GET_DESCRIPTOR && (setup.value >> 8u16) as u8
                == REPORT_DESCRIPTOR_TYPE {
                copy_of(self.report_descriptor.as_slice())
            } else if setup.request == GET_REPORT {
                copy_of(self.last_report.as_slice())
            } else {
                Vec::new()
            }
        } else if ep.attributes == EP_INTERRUPT && ep.address & 0x80 != 0 {
            if self.pending.len() == 0 {
                Vec::new()
            } else {
                let report = self.pending.remove(0);
                assert(self.pending_view() =~= old(self).pending_view().drop_first());
                self.last_report = copy_of(report.as_slice());
                report
            }
        } else {
            Vec::new()
        }
    }
}

} // verus!
