//! Pass-through of URBs to a USB device attached to this host.
//!
//! The handler decides which transfer a URB becomes; the caller performs it
//! on the device and hands back what it read.
use vstd::prelude::*;
use crate::endpoint::{UsbEndpoint, EP_BULK, EP_CONTROL, EP_INTERRUPT};
use crate::error::UsbIpError;
use crate::setup::SetupPacket;
use crate::util::copy_of;

verus! {

/// Largest transfer read from the host device at once.
pub const HOST_BUFFER_LEN: usize = 1024;

/// Time allowed for one transfer on the host device, in milliseconds.
pub const HOST_TIMEOUT_MS: u64 = 1000;

/// A transfer to perform on the host device.
pub enum HostTransfer {
    ControlIn { request_type: u8, request: u8, value: u16, index: u16 },
    ControlOut { request_type: u8, request: u8, value: u16, index: u16, data: Vec<u8> },
    InterruptIn { address: u8 },
    InterruptOut { address: u8, data: Vec<u8> },
    BulkIn { address: u8 },
    BulkOut { address: u8, data: Vec<u8> },
    Nothing,
}

impl HostTransfer {
    /// Whether the transfer reads from the device.
    pub open spec fn reads(&self) -> bool {
        self is ControlIn || self is InterruptIn || self is BulkIn
    }
}

/// A handler that forwards URBs to a device on this host through `handle`.
pub struct UsbHostHandler<H> {
    pub handle: H,
}

impl<H> UsbHostHandler<H> {
    pub fn new(handle: H) -> (r: Self)
        ensures
            r.handle == handle,
    {
        UsbHostHandler { handle }
    }

    /// The transfer that a URB for `ep` becomes: control, interrupt or bulk
    /// by the endpoint's type, IN or OUT by its address; OUT transfers carry
    /// `req`. Isochronous endpoints are not served.
    pub fn plan(&self, ep: UsbEndpoint, setup: SetupPacket, req: &[u8]) -> (r: HostTransfer)
        ensures
            ep.attributes == EP_CONTROL && ep.address & 0x80 != 0 ==> r == (HostTransfer::ControlIn {
                request_type: setup.request_type,
                request: setup.request,
                value: setup.value,
                index: setup.index,
            }),
            ep.attributes == EP_CONTROL && ep.address & 0x80 == 0 ==> (r matches HostTransfer::ControlOut {
                request_type,
                request,
                value,
                index,
                data,
            } && request_type == setup.request_type && request == setup.request && value
                == setup.value && index == setup.index && data@ == req@),
            ep.attributes == EP_INTERRUPT && ep.address & 0x80 != 0 ==> r == (HostTransfer::InterruptIn {
                address: ep.address,
            }),
            ep.attributes == EP_INTERRUPT && ep.address & 0x80 == 0 ==> (r matches HostTransfer::InterruptOut {
                address,
                data,
            } && address == ep.address && data@ == req@),
            ep.attributes == EP_BULK && ep.address & 0x80 != 0 ==> r == (HostTransfer::BulkIn {
                address: ep.address,
            }),
            ep.attributes == EP_BULK && ep.address & 0x80 == 0 ==> (r matches HostTransfer::BulkOut {
                address,
                data,
            } && address == ep.address && data@ == req@),
            ep.attributes != EP_CONTROL && ep.attributes != EP_INTERRUPT && ep.attributes
                != EP_BULK ==> r is Nothing,
    {
        let is_in = ep.address & 0x80 != 0;
        if ep.attributes == EP_CONTROL {
            if is_in {
                HostTransfer::ControlIn {
                    request_type: setup.request_type,
                    request: setup.request,
                    value: setup.value,
                    index: setup.index,
                }
            } else {
                HostTransfer::ControlOut {
                    request_type: setup.request_type,
                    request: setup.request,
                    value: setup.value,
                    index: setup.index,
                    data: copy_of(req),
                }
            }
        } else if ep.attributes == EP_INTERRUPT {
            if is_in {
                HostTransfer::InterruptIn { address: ep.address }
            } else {
                HostTransfer::InterruptOut { address: ep.address, data: copy_of(req) }
            }
        } else if ep.attributes == EP_BULK {
            if is_in {
                HostTransfer::BulkIn { address: ep.address }
            } else {
                HostTransfer::BulkOut { address: ep.address, data: copy_of(req) }
            }
        } else {
            HostTransfer::Nothing
        }
    }

    /// The class-specific descriptor of a passed-through interface: none.
    pub fn class_descriptor(&self) -> (r: Vec<u8>)
        ensures
            r@.len() == 0,
    {
        Vec::new()
    }

    /// Time allowed for each transfer on the host device, in milliseconds.
    pub fn timeout_ms(&self) -> (r: u64)
        ensures
            r == HOST_TIMEOUT_MS,
    {
        HOST_TIMEOUT_MS
    }

    /// The URB's answer once `transfer` was performed, reading into `buffer`
    /// of `HOST_BUFFER_LEN` bytes. `outcome` is `Some(len)` when the transfer
    /// succeeded (`len` bytes read, or written) and `None` when it failed.
    /// A failed transfer, or a read that claims more bytes than the buffer
    /// holds, is a handler error; a read answers the first `len` bytes of
    /// `buffer`; a write answers nothing.
    pub fn finish(&self, transfer: &HostTransfer, outcome: Option<usize>, buffer: &[u8]) -> (r:
        Result<Vec<u8>, UsbIpError>)
        requires
            buffer@.len() == HOST_BUFFER_LEN,
        ensures
            transfer is Nothing ==> (r matches Ok(v) && v@.len() == 0),
            !(transfer is Nothing) && outcome is None ==> r == Err::<Vec<u8>, UsbIpError>(
                UsbIpError::HandlerError,
            ),
            !(transfer is Nothing) ==> (outcome matches Some(len) ==> if transfer.reads() {
                if len <= HOST_BUFFER_LEN {
                    (r matches Ok(v) && v@ == buffer@.take(len as int))
                } else {
                    r == Err::<Vec<u8>, UsbIpError>(UsbIpError::HandlerError)
                }
            } else {
                (r matches Ok(v) && v@.len() == 0)
            }),
            r matches Ok(v) ==> v@.len() <= HOST_BUFFER_LEN,
    {
        let reads = match transfer {
            HostTransfer::ControlIn { .. } | HostTransfer::InterruptIn { .. } | HostTransfer::BulkIn { .. } => true,
            _ => false,
        };
        let nothing = match transfer {
            HostTransfer::Nothing => true,
            _ => false,
        };
        if nothing {
            return Ok(Vec::new());
        }
        match outcome {
            Some(len) => {
                if !reads {
                    Ok(Vec::new())
                } else if len <= buffer.len() {
                    let mut r: Vec<u8> = Vec::new();
                    let mut i: usize = 0;
                    while i < len
                        invariant
                            len <= buffer@.len(),
                            0 <= i <= len,
                            r@ == buffer@.take(i as int),
                        decreases len - i,
                    {
                        r.push(buffer[i]);
                        i = i + 1;
                        assert(r@ =~= buffer@.take(i as int));
                    }
                    Ok(r)
                } else {
                    Err(UsbIpError::HandlerError)
                }
            },
            None => Err(UsbIpError::HandlerError),
        }
    }
}

} // verus!
