//! Errors of the USB/IP server.
use vstd::prelude::*;

verus! {

#[derive(Clone, Copy, Debug, PartialEq, Eq, Structural)]
pub enum UsbIpError {
    /// The peer closed the connection.
    Closed,
    /// An unknown opcode, a submit before an import, or a malformed header.
    ProtocolViolation,
    /// A submit for an endpoint that the imported device does not have.
    UnknownEndpoint,
    /// No interface handler could serve the request.
    HandlerError,
    /// An import named a bus id that no device has.
    ImportNotFound,
    /// A device description that breaks the device model's rules.
    InvalidDevice,
}

} // verus!
