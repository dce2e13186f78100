//! A USB/IP server library: the wire protocol, the USB device model and the
//! dispatch of submitted URBs to interface handlers.
//!
//! The library decides and encodes; the caller moves bytes. A connection
//! reads a 4-byte opcode, asks [`body_length`] how many bytes follow, hands
//! the request to [`UsbIpServer::handle_request`] and writes back the bytes
//! it returns.
use vstd::prelude::*;

pub mod cdc;
pub mod device;
pub mod endpoint;
pub mod error;
pub mod hid;
pub mod host;
pub mod interface;
pub mod setup;
pub mod util;

use crate::device::{
    bus_id_field, bytes_result, device_record, dispatched, interface_records, same_endpoints, UsbDevice,
};
use crate::endpoint::UsbEndpoint;
use crate::error::UsbIpError;
use crate::setup::{setup_of, SetupPacket};
use crate::util::{be32, be32_value, lemma_be32_value, lemma_endpoint_number, push_bytes, push_u32_be, read_u32_be};

verus! {

pub const OP_REQ_DEVLIST: u32 = 0x01118005;
pub const OP_REP_DEVLIST: u32 = 0x01110005;
pub const OP_REQ_IMPORT: u32 = 0x01118003;
pub const OP_REP_IMPORT: u32 = 0x01110003;
pub const USBIP_CMD_SUBMIT: u32 = 0x00000001;
pub const USBIP_CMD_UNLINK: u32 = 0x00000002;
pub const USBIP_RET_SUBMIT: u32 = 0x00000003;
/// `-EPIPE` as an unsigned 32-bit status.
pub const STATUS_EPIPE: u32 = 0xFFFFFF8D;
/// Bytes after the opcode of a CMD_SUBMIT or CMD_UNLINK header.
pub const SUBMIT_HEADER_LEN: usize = 48;
/// Bytes after the opcode of an OP_REQ_IMPORT.
pub const IMPORT_BODY_LEN: usize = 36;
/// Bytes after the opcode of an OP_REQ_DEVLIST.
pub const DEVLIST_BODY_LEN: usize = 4;

/// The main struct of a USB/IP server: the devices it exports.
pub struct UsbIpServer {
    pub devices: Vec<UsbDevice>,
}

/// The state of one connection: the index of the imported device, if any.
#[derive(Clone, Copy, Debug, PartialEq, Eq, Structural)]
pub struct Connection {
    pub imported: Option<usize>,
}

/// The header of a USBIP_CMD_SUBMIT, after its opcode.
#[derive(Clone, Copy, Debug)]
pub struct SubmitCommand {
    pub seq_num: u32,
    pub dev_id: u32,
    pub direction: u32,
    pub ep: u32,
    pub transfer_flags: u32,
    pub transfer_buffer_length: u32,
    pub start_frame: u32,
    pub number_of_packets: u32,
    pub interval: u32,
    pub setup: [u8; 8],
}

/// A USBIP_RET_SUBMIT reply.
pub struct SubmitReply {
    pub seq_num: u32,
    pub dev_id: u32,
    pub direction: u32,
    pub ep: u32,
    pub status: u32,
    pub setup: [u8; 8],
    pub data: Vec<u8>,
}

/// A request read from a connection.
pub enum Request {
    DevList,
    Import([u8; 32]),
    Submit(SubmitCommand, Vec<u8>),
    Unlink,
}

/// The opcode of a request.
#[derive(Clone, Copy, Debug, PartialEq, Eq, Structural)]
pub enum Opcode {
    DevList,
    Import,
    Submit,
    Unlink,
}

pub open spec fn opcode_of(op: u32) -> Option<Opcode> {
    if op == OP_REQ_DEVLIST {
        Some(Opcode::DevList)
    } else if op == OP_REQ_IMPORT {
        Some(Opcode::Import)
    } else if op == USBIP_CMD_SUBMIT {
        Some(Opcode::Submit)
    } else if op == USBIP_CMD_UNLINK {
        Some(Opcode::Unlink)
    } else {
        None
    }
}

/// Decodes the big-endian 4-byte opcode that starts every request; an
/// unknown one is a protocol violation.
pub fn decode_opcode(b: &[u8; 4]) -> (r: Result<Opcode, UsbIpError>)
    ensures
        match opcode_of(be32_value(b@[0], b@[1], b@[2], b@[3])) {
            Some(op) => r == Ok::<Opcode, UsbIpError>(op),
            None => r == Err::<Opcode, UsbIpError>(UsbIpError::ProtocolViolation),
        },
{
    let op = read_u32_be(b, 0);
    if op == OP_REQ_DEVLIST {
        Ok(Opcode::DevList)
    } else if op == OP_REQ_IMPORT {
        Ok(Opcode::Import)
    } else if op == USBIP_CMD_SUBMIT {
        Ok(Opcode::Submit)
    } else if op == USBIP_CMD_UNLINK {
        Ok(Opcode::Unlink)
    } else {
        Err(UsbIpError::ProtocolViolation)
    }
}

/// How many bytes follow the opcode before any OUT payload.
pub fn body_length(op: Opcode) -> (r: usize)
    ensures
        r == match op {
            Opcode::DevList => DEVLIST_BODY_LEN,
            Opcode::Import => IMPORT_BODY_LEN,
            Opcode::Submit => SUBMIT_HEADER_LEN,
            Opcode::Unlink => SUBMIT_HEADER_LEN,
        },
{
    match op {
        Opcode::DevList => DEVLIST_BODY_LEN,
        Opcode::Import => IMPORT_BODY_LEN,
        Opcode::Submit => SUBMIT_HEADER_LEN,
        Opcode::Unlink => SUBMIT_HEADER_LEN,
    }
}

/// The field at word `k` of a submit header.
pub open spec fn header_word(b: Seq<u8>, k: int) -> u32 {
    be32_value(b[4 * k], b[4 * k + 1], b[4 * k + 2], b[4 * k + 3])
}

impl SubmitCommand {
    /// Decodes the 48 bytes after the opcode: nine big-endian words, then the setup bytes.
    pub fn parse(b: &[u8; 48]) -> (r: SubmitCommand)
        ensures
            r.seq_num == header_word(b@, 0),
            r.dev_id == header_word(b@, 1),
            r.direction == header_word(b@, 2),
            r.ep == header_word(b@, 3),
            r.transfer_flags == header_word(b@, 4),
            r.transfer_buffer_length == header_word(b@, 5),
            r.start_frame == header_word(b@, 6),
            r.number_of_packets == header_word(b@, 7),
            r.interval == header_word(b@, 8),
            r.setup@ == b@.subrange(36, 44),
    {
        let setup: [u8; 8] = [b[36], b[37], b[38], b[39], b[40], b[41], b[42], b[43]];
        assert(setup@ =~= b@.subrange(36, 44));
        SubmitCommand {
            seq_num: read_u32_be(b, 0),
            dev_id: read_u32_be(b, 4),
            direction: read_u32_be(b, 8),
            ep: read_u32_be(b, 12),
            transfer_flags: read_u32_be(b, 16),
            transfer_buffer_length: read_u32_be(b, 20),
            start_frame: read_u32_be(b, 24),
            number_of_packets: read_u32_be(b, 28),
            interval: read_u32_be(b, 32),
            setup,
        }
    }

    /// Bytes of OUT payload that follow the header.
    pub fn payload_length(&self) -> (r: u32)
        ensures
            r == (if self.direction == 0 { self.transfer_buffer_length } else { 0 }),
    {
        if self.direction == 0 {
            self.transfer_buffer_length
        } else {
            0
        }
    }

    /// The endpoint address to look up: the raw number, with bit 7 set for IN.
    pub open spec fn address_spec(&self) -> u8 {
        if self.direction == 0 { self.ep as u8 } else { (self.ep | 0x80u32) as u8 }
    }
}

/// The bytes of a RET_SUBMIT reply.
pub open spec fn ret_submit_bytes(r: SubmitReply) -> Seq<u8> {
    be32(USBIP_RET_SUBMIT) + be32(r.seq_num) + be32(r.dev_id) + be32(r.direction) + be32(r.ep)
        + be32(r.status) + be32(r.data@.len() as u32) + be32(0) + be32(0) + be32(0) + r.setup@
        + r.data@
}

/// The `actual_length` field of a RET_SUBMIT reply equals the number of
/// data bytes that follow the 48-byte header, and those bytes are the data.
pub proof fn lemma_reply_length(reply: SubmitReply)
    requires
        reply.wf(),
    ensures
        ({
            let b = ret_submit_bytes(reply);
            &&& be32_value(b[24], b[25], b[26], b[27]) == b.len() - 48
            &&& b.subrange(48, b.len() as int) == reply.data@
        }),
{
    let b = ret_submit_bytes(reply);
    lemma_be32_value(reply.data@.len() as u32);
    assert(b.subrange(48, b.len() as int) =~= reply.data@);
}

impl SubmitReply {
    pub open spec fn wf(&self) -> bool {
        self.data@.len() <= u32::MAX
    }

    /// The reply bytes: header, `actual_length` equal to the data's length, the
    /// echoed setup, then the data.
    pub fn encode(&self) -> (r: Vec<u8>)
        requires
            self.wf(),
        ensures
            r@ == ret_submit_bytes(*self),
    {
        let mut r: Vec<u8> = Vec::new();
        push_u32_be(&mut r, USBIP_RET_SUBMIT);
        push_u32_be(&mut r, self.seq_num);
        push_u32_be(&mut r, self.dev_id);
        push_u32_be(&mut r, self.direction);
        push_u32_be(&mut r, self.ep);
        push_u32_be(&mut r, self.status);
        push_u32_be(&mut r, self.data.len() as u32);
        push_u32_be(&mut r, 0);
        push_u32_be(&mut r, 0);
        push_u32_be(&mut r, 0);
        push_bytes(&mut r, &self.setup);
        push_bytes(&mut r, self.data.as_slice());
        assert(r@ =~= ret_submit_bytes(*self));
        r
    }
}

/// Device records, each followed by its interface records.
pub open spec fn devices_records(devs: Seq<UsbDevice>) -> Seq<u8>
    decreases devs.len(),
{
    if devs.len() == 0 {
        Seq::empty()
    } else {
        devices_records(devs.drop_last()) + device_record(devs.last()) + interface_records(
            devs.last().interfaces@,
        )
    }
}

/// The first device whose padded bus id is `bus_id`.
pub open spec fn first_match(devs: Seq<UsbDevice>, bus_id: Seq<u8>, r: Option<usize>) -> bool {
    match r {
        Some(i) => i < devs.len() && bus_id_field(devs[i as int]) == bus_id && forall|k: int|
            0 <= k < i ==> bus_id_field(#[trigger] devs[k]) != bus_id,
        None => forall|k: int| 0 <= k < devs.len() ==> bus_id_field(#[trigger] devs[k]) != bus_id,
    }
}

/// `reply` answers `cmd` on device `o`, which it leaves as `n`: the
/// endpoint is looked up; an unknown one gives status `-EPIPE` and no data;
/// a known one is dispatched with `payload`, and its answer is the data with
/// status 0, or status `-EPIPE` and no data when dispatch fails.
pub open spec fn submit_outcome(
    o: UsbDevice,
    n: UsbDevice,
    cmd: SubmitCommand,
    payload: Seq<u8>,
    reply: SubmitReply,
) -> bool {
    &&& reply.seq_num == cmd.seq_num
    &&& reply.dev_id == cmd.dev_id
    &&& reply.direction == cmd.direction
    &&& reply.ep == cmd.ep
    &&& reply.setup@ == cmd.setup@
    &&& reply.wf()
    &&& exists|loc: Option<(UsbEndpoint, Option<usize>)>|
        #[trigger] o.located(cmd.address_spec(), loc) && match loc {
            None => reply.status == STATUS_EPIPE && reply.data@.len() == 0 && n == o,
            Some((e, ix)) => exists|res: Result<Seq<u8>, UsbIpError>|
                #[trigger] dispatched(o, n, e, ix, setup_of(cmd.setup@), payload, res) && match res {
                    Ok(v) => if v.len() <= u32::MAX {
                        reply.status == 0 && reply.data@ == v
                    } else {
                        reply.status == STATUS_EPIPE && reply.data@.len() == 0
                    },
                    Err(_) => reply.status == STATUS_EPIPE && reply.data@.len() == 0,
                },
        }
}

/// The connection is bound to a device of `devs`.
pub open spec fn bound(conn: Connection, devs: Seq<UsbDevice>) -> bool {
    conn.imported matches Some(i) && i < devs.len()
}

/// An OUT submit for an endpoint number that `d` has only as IN.
pub open spec fn out_to_in_endpoint(d: UsbDevice, cmd: SubmitCommand) -> bool {
    &&& cmd.direction == 0
    &&& cmd.ep != 0
    &&& forall|i: int, j: int| d.has_endpoint(i, j) ==> #[trigger] d.endpoint_at(i, j).address != cmd.ep as u8
    &&& exists|i: int, j: int|
        d.has_endpoint(i, j) && #[trigger] d.endpoint_at(i, j).address == (cmd.ep | 0x80u32) as u8
}

/// A submit header that a bound connection to `d` accepts: an endpoint
/// number below 16, a direction of 0 or 1, and no OUT transfer to an IN
/// endpoint.
pub open spec fn accepted_submit(d: UsbDevice, cmd: SubmitCommand) -> bool {
    &&& cmd.ep <= 15
    &&& cmd.direction <= 1
    &&& !out_to_in_endpoint(d, cmd)
}

/// Each device of `b` has the interfaces and endpoints of the same device of `a`.
pub open spec fn same_layout(a: Seq<UsbDevice>, b: Seq<UsbDevice>) -> bool {
    &&& a.len() == b.len()
    &&& forall|k: int| 0 <= k < a.len() ==> same_endpoints(#[trigger] a[k], b[k])
}

/// `states` runs from one device list to the next as the submits `cmds`
/// are served in order on device `i`: step `k` answers `cmds[k]` with
/// `replies[k]` and touches no other device.
pub open spec fn submit_run(
    states: Seq<Seq<UsbDevice>>,
    i: int,
    cmds: Seq<SubmitCommand>,
    payloads: Seq<Vec<u8>>,
    replies: Seq<SubmitReply>,
) -> bool {
    &&& states.len() == cmds.len() + 1
    &&& replies.len() == cmds.len()
    &&& forall|k: int|
        0 <= k < cmds.len() ==> {
            &&& (#[trigger] states[k + 1]).len() == states[k].len()
            &&& forall|m: int|
                0 <= m < states[k].len() && m != i ==> states[k + 1][m] == states[k][m]
            &&& submit_outcome(states[k][i], states[k + 1][i], cmds[k], payloads[k]@, replies[k])
        }
}

/// Devices with the same endpoints accept the same submits.
pub proof fn lemma_accepted_same(a: UsbDevice, b: UsbDevice, cmd: SubmitCommand)
    requires
        same_endpoints(a, b),
    ensures
        accepted_submit(a, cmd) == accepted_submit(b, cmd),
{
    assert forall|i: int, j: int| #[trigger] a.has_endpoint(i, j) == b.has_endpoint(i, j) by {
        if 0 <= i < a.interfaces@.len() {
            assert(b.interfaces@[i].endpoints == a.interfaces@[i].endpoints);
        }
    }
    assert forall|i: int, j: int| a.has_endpoint(i, j) implies #[trigger] a.endpoint_at(i, j)
        == b.endpoint_at(i, j) by {
        assert(b.interfaces@[i].endpoints == a.interfaces@[i].endpoints);
    }
    if out_to_in_endpoint(a, cmd) {
        let (i, j) = choose|i: int, j: int|
            a.has_endpoint(i, j) && #[trigger] a.endpoint_at(i, j).address == (cmd.ep | 0x80u32) as u8;
        assert(b.has_endpoint(i, j) && b.endpoint_at(i, j).address == (cmd.ep | 0x80u32) as u8);
        assert forall|i: int, j: int| b.has_endpoint(i, j) implies #[trigger] b.endpoint_at(i, j).address
            != cmd.ep as u8 by {
            assert(a.has_endpoint(i, j));
            assert(a.endpoint_at(i, j).address != cmd.ep as u8);
        }
    }
    if out_to_in_endpoint(b, cmd) {
        let (i, j) = choose|i: int, j: int|
            b.has_endpoint(i, j) && #[trigger] b.endpoint_at(i, j).address == (cmd.ep | 0x80u32) as u8;
        assert(a.has_endpoint(i, j) && a.endpoint_at(i, j).address == (cmd.ep | 0x80u32) as u8);
        assert forall|i: int, j: int| a.has_endpoint(i, j) implies #[trigger] a.endpoint_at(i, j).address
            != cmd.ep as u8 by {
            assert(b.has_endpoint(i, j));
            assert(b.endpoint_at(i, j).address != cmd.ep as u8);
        }
    }
}

impl UsbIpServer {
    pub open spec fn wf(&self) -> bool {
        &&& self.devices@.len() <= u32::MAX
        &&& forall|i: int| 0 <= i < self.devices@.len() ==> #[trigger] self.devices@[i].wf()
        &&& forall|i: int, j: int|
            0 <= i < self.devices@.len() && 0 <= j < self.devices@.len() && i != j
                ==> #[trigger] self.devices@[i].bus_id@ != #[trigger] self.devices@[j].bus_id@
    }

    /// The OP_REP_DEVLIST reply: version and code, status 0, the device
    /// count, then each device record with its interface records.
    pub fn devlist_reply(&self) -> (r: Vec<u8>)
        requires
            self.wf(),
        ensures
            r@ == be32(OP_REP_DEVLIST) + be32(0) + be32(self.devices@.len() as u32)
                + devices_records(self.devices@),
    {
        let mut r: Vec<u8> = Vec::new();
        push_u32_be(&mut r, OP_REP_DEVLIST);
        push_u32_be(&mut r, 0);
        push_u32_be(&mut r, self.devices.len() as u32);
        let ghost head = r@;
        let mut i: usize = 0;
        while i < self.devices.len()
            invariant
                self.wf(),
                0 <= i <= self.devices@.len(),
                r@ == head + devices_records(self.devices@.subrange(0, i as int)),
            decreases self.devices@.len() - i,
        {
            assert(self.devices@[i as int].wf());
            self.devices[i].write_dev_with_interfaces(&mut r);
            assert(self.devices@.subrange(0, i + 1).drop_last() =~= self.devices@.subrange(
                0,
                i as int,
            ));
            i = i + 1;
        }
        assert(self.devices@.subrange(0, i as int) =~= self.devices@);
        r
    }

    /// Finds the first device whose zero-padded bus id is `bus_id`.
    pub fn find_device(&self, bus_id: &[u8; 32]) -> (r: Option<usize>)
        requires
            self.wf(),
        ensures
            first_match(self.devices@, bus_id@, r),
    {
        let mut i: usize = 0;
        while i < self.devices.len()
            invariant
                self.wf(),
                0 <= i <= self.devices@.len(),
                forall|k: int| 0 <= k < i ==> bus_id_field(#[trigger] self.devices@[k]) != bus_id@,
            decreases self.devices@.len() - i,
        {
            assert(self.devices@[i as int].wf());
            if self.devices[i].bus_id_matches(bus_id) {
                return Some(i);
            }
            i = i + 1;
        }
        None
    }

    /// Serves OP_REQ_IMPORT: binds the connection to the device with this
    /// bus id, or unbinds it when there is none, and returns the reply:
    /// status 0 and the device record, or status 1 alone.
    pub fn import(&self, conn: &mut Connection, bus_id: &[u8; 32]) -> (r: Vec<u8>)
        requires
            self.wf(),
        ensures
            first_match(self.devices@, bus_id@, final(conn).imported),
            match final(conn).imported {
                Some(i) => r@ == be32(OP_REP_IMPORT) + be32(0) + device_record(self.devices@[i as int]),
                None => r@ == be32(OP_REP_IMPORT) + be32(1),
            },
    {
        let found = self.find_device(bus_id);
        conn.imported = found;
        let mut r: Vec<u8> = Vec::new();
        push_u32_be(&mut r, OP_REP_IMPORT);
        match found {
            Some(i) => {
                push_u32_be(&mut r, 0);
                assert(self.devices@[i as int].wf());
                self.devices[i].write_dev(&mut r);
            },
            None => {
                push_u32_be(&mut r, 1);
            },
        }
        r
    }

    /// Serves USBIP_CMD_SUBMIT on a bound connection.
    pub fn handle_submit(&mut self, conn: &Connection, cmd: &SubmitCommand, payload: &[u8]) -> (r:
        Result<SubmitReply, UsbIpError>)
        requires
            old(self).wf(),
        ensures
            final(self).wf(),
            same_layout(old(self).devices@, final(self).devices@),
            r is Ok <==> bound(*conn, old(self).devices@) && accepted_submit(
                old(self).devices@[conn.imported->Some_0 as int],
                *cmd,
            ),
            r is Err ==> r == Err::<SubmitReply, UsbIpError>(UsbIpError::ProtocolViolation)
                && final(self).devices@ == old(self).devices@,
            r matches Ok(reply) ==> {
                let i = conn.imported->Some_0 as int;
                &&& final(self).devices@.len() == old(self).devices@.len()
                &&& forall|k: int|
                    0 <= k < old(self).devices@.len() && k != i ==> final(self).devices@[k]
                        == old(self).devices@[k]
                &&& submit_outcome(
                    old(self).devices@[i],
                    final(self).devices@[i],
                    *cmd,
                    payload@,
                    reply,
                )
            },
    {
        let i = match conn.imported {
            Some(i) => i,
            None => {
                return Err(UsbIpError::ProtocolViolation);
            },
        };
        if i >= self.devices.len() || cmd.ep > 15 || cmd.direction > 1 {
            return Err(UsbIpError::ProtocolViolation);
        }
        let addr: u8 = if cmd.direction == 0 {
            cmd.ep as u8
        } else {
            (cmd.ep | 0x80u32) as u8
        };
        let ghost before = self.devices@;
        let mut dev = self.devices.remove(i);
        assert(before[i as int].wf());
        let found = dev.find_ep(addr);
        if found.is_none() && cmd.direction == 0 && cmd.ep != 0 {
            let as_in = dev.find_ep(addr | 0x80u8);
            if as_in.is_some() {
                proof {
                    assert(dev.located(addr, found));
                    assert(dev.located(addr | 0x80u8, as_in));
                    lemma_endpoint_number(cmd.ep);
                    let (e, ix) = as_in->Some_0;
                    assert(ix is Some);
                    let ii = ix->Some_0 as int;
                    let jj = choose|j: int| dev.has_endpoint(ii, j) && #[trigger] dev.endpoint_at(ii, j) == e;
                    assert(dev.endpoint_at(ii, jj).address == (cmd.ep | 0x80u32) as u8);
                    assert(out_to_in_endpoint(dev, *cmd));
                }
                self.devices.insert(i, dev);
                assert(self.devices@ =~= before);
                return Err(UsbIpError::ProtocolViolation);
            }
            proof {
                assert(dev.located(addr | 0x80u8, as_in));
                lemma_endpoint_number(cmd.ep);
            }
        }
        proof {
            assert(dev.located(addr, found));
            if found is Some && cmd.direction == 0 && cmd.ep != 0 {
                lemma_endpoint_number(cmd.ep);
                let (e, ix) = found->Some_0;
                let ii = ix->Some_0 as int;
                let jj = choose|j: int| dev.has_endpoint(ii, j) && #[trigger] dev.endpoint_at(ii, j) == e;
                assert(dev.endpoint_at(ii, jj).address == cmd.ep as u8);
            }
            assert(!out_to_in_endpoint(dev, *cmd));
        }
        let mut status: u32 = STATUS_EPIPE;
        let mut data: Vec<u8> = Vec::new();
        match found {
            None => {},
            Some((e, ix)) => {
                let setup = SetupPacket::parse(&cmd.setup);
                let res = dev.handle_urb(e, ix, setup, payload);
                match res {
                    Ok(v) => {
                        if v.len() <= u32::MAX as usize {
                            status = 0;
                            data = v;
                        }
                    },
                    Err(_) => {},
                }
                assert(dispatched(before[i as int], dev, e, ix, setup_of(cmd.setup@), payload@, bytes_result(res)));
            },
        }
        self.devices.insert(i, dev);
        let reply = SubmitReply {
            seq_num: cmd.seq_num,
            dev_id: cmd.dev_id,
            direction: cmd.direction,
            ep: cmd.ep,
            status,
            setup: cmd.setup,
            data,
        };
        proof {
            assert(self.devices@ =~= before.update(i as int, dev));
            assert(before[i as int].located(cmd.address_spec(), found));
            assert forall|k: int| 0 <= k < self.devices@.len() implies #[trigger] self.devices@[k].wf() by {
                if k != i {
                    assert(before[k].wf());
                }
            }
        }
        Ok(reply)
    }

    /// Serves a run of submits in order, one reply per command; stops at the
    /// first one that breaks the protocol.
    pub fn handle_submits(
        &mut self,
        conn: &Connection,
        cmds: &Vec<SubmitCommand>,
        payloads: &Vec<Vec<u8>>,
    ) -> (r: Result<Vec<SubmitReply>, UsbIpError>)
        requires
            old(self).wf(),
            cmds@.len() == payloads@.len(),
        ensures
            final(self).wf(),
            r is Ok <==> bound(*conn, old(self).devices@) && forall|k: int|
                0 <= k < cmds@.len() ==> accepted_submit(
                    old(self).devices@[conn.imported->Some_0 as int],
                    #[trigger] cmds@[k],
                ),
            r is Err ==> r == Err::<Vec<SubmitReply>, UsbIpError>(UsbIpError::ProtocolViolation),
            r matches Ok(replies) ==> replies@.len() == cmds@.len() && forall|k: int|
                0 <= k < cmds@.len() ==> (#[trigger] replies@[k]).seq_num == cmds@[k].seq_num,
            r matches Ok(replies) ==> exists|states: Seq<Seq<UsbDevice>>|
                #[trigger] submit_run(
                    states,
                    conn.imported->Some_0 as int,
                    cmds@,
                    payloads@,
                    replies@,
                ) && states[0] == old(self).devices@ && states.last() == final(self).devices@,
    {
        let mut replies: Vec<SubmitReply> = Vec::new();
        let mut k: usize = 0;
        let ghost mut states: Seq<Seq<UsbDevice>> = seq![self.devices@];
        while k < cmds.len()
            invariant
                self.wf(),
                self.devices@.len() == old(self).devices@.len(),
                cmds@.len() == payloads@.len(),
                0 <= k <= cmds@.len(),
                same_layout(old(self).devices@, self.devices@),
                bound(*conn, old(self).devices@) || k == 0,
                forall|m: int|
                    0 <= m < k ==> accepted_submit(
                        old(self).devices@[conn.imported->Some_0 as int],
                        #[trigger] cmds@[m],
                    ),
                replies@.len() == k,
                forall|m: int| 0 <= m < k ==> (#[trigger] replies@[m]).seq_num == cmds@[m].seq_num,
                states.len() == k + 1,
                states[0] == old(self).devices@,
                states[k as int] == self.devices@,
                submit_run(
                    states,
                    conn.imported->Some_0 as int,
                    cmds@.take(k as int),
                    payloads@.take(k as int),
                    replies@,
                ),
            decreases cmds@.len() - k,
        {
            let ghost cur = self.devices@;
            let res = self.handle_submit(conn, &cmds[k], payloads[k].as_slice());
            proof {
                if bound(*conn, cur) {
                    let i = conn.imported->Some_0 as int;
                    assert(same_endpoints(old(self).devices@[i], cur[i]));
                    lemma_accepted_same(old(self).devices@[i], cur[i], cmds@[k as int]);
                }
                assert forall|m: int| 0 <= m < old(self).devices@.len() implies same_endpoints(
                    #[trigger] old(self).devices@[m],
                    self.devices@[m],
                ) by {
                    assert(same_endpoints(old(self).devices@[m], cur[m]));
                    assert(same_endpoints(cur[m], self.devices@[m]));
                }
            }
            match res {
                Ok(reply) => {
                    let ghost prev_states = states;
                    let ghost prev_replies = replies@;
                    replies.push(reply);
                    proof {
                        states = states.push(self.devices@);
                        let i = conn.imported->Some_0 as int;
                        assert forall|q: int| 0 <= q < k + 1 implies {
                            &&& (#[trigger] states[q + 1]).len() == states[q].len()
                            &&& forall|m: int|
                                0 <= m < states[q].len() && m != i ==> states[q + 1][m] == states[q][m]
                            &&& submit_outcome(
                                states[q][i],
                                states[q + 1][i],
                                cmds@.take(k + 1)[q],
                                payloads@.take(k + 1)[q]@,
                                replies@[q],
                            )
                        } by {
                            if q < k {
                                assert(cmds@.take(k + 1)[q] == cmds@.take(k as int)[q]);
                                assert(payloads@.take(k + 1)[q] == payloads@.take(k as int)[q]);
                                assert(replies@[q] == prev_replies[q]);
                                assert(states[q] == prev_states[q]);
                                assert(states[q + 1] == prev_states[q + 1]);
                            }
                        }
                    }
                },
                Err(e) => {
                    proof {
                        if bound(*conn, old(self).devices@) {
                            assert(!accepted_submit(
                                old(self).devices@[conn.imported->Some_0 as int],
                                cmds@[k as int],
                            ));
                        }
                    }
                    return Err(e);
                },
            }
            k = k + 1;
        }
        if k == 0 && !(match conn.imported {
            Some(i) => i < self.devices.len(),
            None => false,
        }) {
            return Err(UsbIpError::ProtocolViolation);
        }
        assert(cmds@.take(k as int) =~= cmds@);
        assert(payloads@.take(k as int) =~= payloads@);
        assert(submit_run(states, conn.imported->Some_0 as int, cmds@, payloads@, replies@));
        assert(states.last() == self.devices@);
        Ok(replies)
    }

    /// One step of a connection: serves a request and returns the bytes to
    /// send back. DEVLIST and IMPORT are served in any state; a submit needs
    /// an imported device; an unlink is acknowledged without a reply.
    pub fn handle_request(&mut self, conn: &mut Connection, req: &Request) -> (r: Result<
        Vec<u8>,
        UsbIpError,
    >)
        requires
            old(self).wf(),
        ensures
            final(self).wf(),
            match *req {
                Request::DevList => *final(conn) == *old(conn) && final(self).devices@ == old(
                    self,
                ).devices@ && (r matches Ok(v) && v@ == be32(OP_REP_DEVLIST) + be32(0) + be32(
                    old(self).devices@.len() as u32,
                ) + devices_records(old(self).devices@)),
                Request::Import(b) => final(self).devices@ == old(self).devices@ && first_match(
                    old(self).devices@,
                    b@,
                    final(conn).imported,
                ) && (r matches Ok(v) && match final(conn).imported {
                    Some(i) => v@ == be32(OP_REP_IMPORT) + be32(0) + device_record(
                        old(self).devices@[i as int],
                    ),
                    None => v@ == be32(OP_REP_IMPORT) + be32(1),
                }),
                Request::Submit(cmd, payload) => *final(conn) == *old(conn) && if bound(
                    *old(conn),
                    old(self).devices@,
                ) && accepted_submit(old(self).devices@[old(conn).imported->Some_0 as int], cmd) {
                    let i = old(conn).imported->Some_0 as int;
                    &&& final(self).devices@.len() == old(self).devices@.len()
                    &&& forall|k: int|
                        0 <= k < old(self).devices@.len() && k != i ==> final(self).devices@[k]
                            == old(self).devices@[k]
                    &&& exists|reply: SubmitReply|
                        submit_outcome(
                            old(self).devices@[i],
                            final(self).devices@[i],
                            cmd,
                            payload@,
                            reply,
                        ) && (r matches Ok(v) && v@ == ret_submit_bytes(reply))
                } else {
                    r == Err::<Vec<u8>, UsbIpError>(UsbIpError::ProtocolViolation)
                        && final(self).devices@ == old(self).devices@
                },
                Request::Unlink => *final(conn) == *old(conn) && final(self).devices@ == old(
                    self,
                ).devices@ && (r matches Ok(v) && v@.len() == 0),
            },
    {
        match req {
            Request::DevList => Ok(self.devlist_reply()),
            Request::Import(b) => Ok(self.import(conn, b)),
            Request::Submit(cmd, payload) => {
                match self.handle_submit(conn, cmd, payload.as_slice()) {
                    Ok(reply) => Ok(reply.encode()),
                    Err(e) => Err(e),
                }
            },
            Request::Unlink => Ok(Vec::new()),
        }
    }

}

} // verus!
