//! A CDC-ACM (serial port) interface handler.
use vstd::prelude::*;
use crate::endpoint::{UsbEndpoint, EP_BULK, EP_CONTROL, EP_INTERRUPT};
use crate::setup::{recipient_of, type_of, Recipient, RequestType, SetupPacket};
use crate::util::{copy_of, push_bytes};

verus! {

/// Interface subclass of the Abstract Control Model.
pub const CDC_ACM_SUBCLASS: u8 = 0x02;

pub const SET_LINE_CODING: u8 = 0x20;
pub const GET_LINE_CODING: u8 = 0x21;
pub const SET_CONTROL_LINE_STATE: u8 = 0x22;
pub const SEND_BREAK: u8 = 0x23;

/// Line coding 9600 baud, one stop bit, no parity, eight data bits.
pub open spec fn default_line_coding() -> Seq<u8> {
    seq![0x80u8, 0x25u8, 0u8, 0u8, 0u8, 0u8, 8u8]
}

/// Header, Call Management, ACM and Union functional descriptors.
pub open spec fn cdc_class_descriptor() -> Seq<u8> {
    seq![
        0x05u8, 0x24u8, 0x00u8, 0x10u8, 0x01u8,
        0x05u8, 0x24u8, 0x01u8, 0x03u8, 0x01u8,
        0x04u8, 0x24u8, 0x02u8, 0x02u8,
        0x05u8, 0x24u8, 0x06u8, 0x00u8, 0x01u8,
    ]
}

/// The state of one CDC-ACM function: its line coding, the control line
/// state, bytes waiting to go to the host (`tx`) and bytes received from it (`rx`).
pub struct UsbCdcAcmHandler {
    pub line_coding: Vec<u8>,
    pub control_line_state: u16,
    pub tx: Vec<u8>,
    pub rx: Vec<u8>,
}

/// A class request addressed to an interface.
pub open spec fn is_class_request(setup: SetupPacket) -> bool {
    type_of(setup.request_type) == RequestType::Class && recipient_of(setup.request_type)
        == Recipient::Interface
}

/// What one URB does to the handler `o`, leaving `n` and answering `r`.
pub open spec fn cdc_urb(o: UsbCdcAcmHandler, n: UsbCdcAcmHandler, ep: UsbEndpoint, setup: SetupPacket, req: Seq<u8>, r: Seq<u8>) -> bool {
    &&& (ep.attributes == EP_CONTROL && !is_class_request(setup) ==> r.len() == 0 && n == o)
    &&& (ep.attributes == EP_CONTROL && is_class_request(setup) ==> {
        &&& setup.request == GET_LINE_CODING ==> r == o.line_coding@
        &&& setup.request != GET_LINE_CODING ==> r.len() == 0
        &&& n.line_coding@ == (if setup.request == SET_LINE_CODING && req.len() == 7 {
            req
        } else {
            o.line_coding@
        })
        &&& n.control_line_state == (if setup.request == SET_CONTROL_LINE_STATE {
            setup.value
        } else {
            o.control_line_state
        })
        &&& n.tx == o.tx
        &&& n.rx == o.rx
    })
    &&& (ep.attributes == EP_BULK && ep.address & 0x80 != 0 ==> {
                &&& r == o.tx@
                &&& n.tx@.len() == 0
                &&& n.rx == o.rx
                &&& n.line_coding == o.line_coding
                &&& n.control_line_state == o.control_line_state
            })
    &&& (ep.attributes == EP_BULK && ep.address & 0x80 == 0 ==> {
                &&& r.len() == 0
                &&& n.rx@ == o.rx@ + req
                &&& n.tx == o.tx
                &&& n.line_coding == o.line_coding
                &&& n.control_line_state == o.control_line_state
            })
    &&& (ep.attributes != EP_CONTROL && ep.attributes != EP_BULK ==> {
                &&& r.len() == 0
                &&& n == o
            })
}

impl UsbCdcAcmHandler {
    pub fn new() -> (r: UsbCdcAcmHandler)
        ensures
            r.line_coding@ == default_line_coding(),
            r.control_line_state == 0,
            r.tx@.len() == 0,
            r.rx@.len() == 0,
    {
        let line_coding: Vec<u8> = vec![0x80u8, 0x25u8, 0u8, 0u8, 0u8, 0u8, 8u8];
        assert(line_coding@ =~= default_line_coding());
        UsbCdcAcmHandler { line_coding, control_line_state: 0, tx: Vec::new(), rx: Vec::new() }
    }

    /// The interrupt-IN notification endpoint, then the bulk IN and bulk OUT pair.
    pub fn endpoints() -> (r: Vec<UsbEndpoint>)
        ensures
            r@ == seq![
                UsbEndpoint { address: 0x81, attributes: EP_INTERRUPT, max_packet_size: 8, interval: 10 },
                UsbEndpoint { address: 0x82, attributes: EP_BULK, max_packet_size: 512, interval: 0 },
                UsbEndpoint { address: 0x02, attributes: EP_BULK, max_packet_size: 512, interval: 0 },
            ],
    {
        let r = vec![
            UsbEndpoint { address: 0x81, attributes: EP_INTERRUPT, max_packet_size: 8, interval: 10 },
            UsbEndpoint { address: 0x82, attributes: EP_BULK, max_packet_size: 512, interval: 0 },
            UsbEndpoint { address: 0x02, attributes: EP_BULK, max_packet_size: 512, interval: 0 },
        ];
        assert(r@ =~= seq![
            UsbEndpoint { address: 0x81, attributes: EP_INTERRUPT, max_packet_size: 8, interval: 10 },
            UsbEndpoint { address: 0x82, attributes: EP_BULK, max_packet_size: 512, interval: 0 },
            UsbEndpoint { address: 0x02, attributes: EP_BULK, max_packet_size: 512, interval: 0 },
        ]);
        r
    }

    pub fn class_descriptor(&self) -> (r: Vec<u8>)
        ensures
            r@ == cdc_class_descriptor(),
    {
        let r: Vec<u8> = vec![
            0x05u8, 0x24u8, 0x00u8, 0x10u8, 0x01u8,
            0x05u8, 0x24u8, 0x01u8, 0x03u8, 0x01u8,
            0x04u8, 0x24u8, 0x02u8, 0x02u8,
            0x05u8, 0x24u8, 0x06u8, 0x00u8, 0x01u8,
        ];
        assert(r@ =~= cdc_class_descriptor());
        r
    }

    /// Queues bytes for the host to read from the bulk IN endpoint.
    pub fn send(&mut self, data: &[u8])
        ensures
            final(self).tx@ == old(self).tx@ + data@,
            final(self).rx == old(self).rx,
            final(self).line_coding == old(self).line_coding,
            final(self).control_line_state == old(self).control_line_state,
    {
        push_bytes(&mut self.tx, data);
    }

    /// Handles one URB addressed to this function.
    ///
    /// On endpoint 0 only class requests to the interface are served:
    /// SET_LINE_CODING stores a 7-byte `req`, GET_LINE_CODING returns the
    /// stored coding, SET_CONTROL_LINE_STATE stores `wValue`; all other
    /// requests, and these but GET_LINE_CODING, answer empty. Bulk IN hands out and clears the queued bytes; bulk
    /// OUT appends `req` to the received bytes; the notification endpoint
    /// answers empty.
    pub fn handle_urb(&mut self, ep: UsbEndpoint, setup: SetupPacket, req: &[u8]) -> (r: Vec<u8>)
        ensures
            cdc_urb(*old(self), *final(self), ep, setup, req@, r@),
    {
        if ep.attributes == EP_CONTROL {
            if setup.request_kind() != RequestType::Class || setup.recipient() != Recipient::Interface {
                Vec::new()
            } else if setup.request == SET_LINE_CODING {
                if req.len() == 7 {
                    self.line_coding = copy_of(req);
                }
                Vec::new()
            } else if setup.request == GET_LINE_CODING {
                copy_of(self.line_coding.as_slice())
            } else if setup.request == SET_CONTROL_LINE_STATE {
                self.control_line_state = setup.value;
                Vec::new()
            } else {
                Vec::new()
            }
        } else if ep.attributes == EP_BULK {
            if ep.address & 0x80 != 0 {
                let out = copy_of(self.tx.as_slice());
                self.tx.clear();
                out
            } else {
                push_bytes(&mut self.rx, req);
                Vec::new()
            }
        } else {
            Vec::new()
        }
    }
}

} // verus!
