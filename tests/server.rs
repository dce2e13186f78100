use usbip::cdc::{UsbCdcAcmHandler, CDC_ACM_SUBCLASS};
use usbip::device::UsbDevice;
use usbip::endpoint::UsbEndpoint;
use usbip::error::UsbIpError;
use usbip::hid::UsbHidHandler;
use usbip::host::{HostTransfer, UsbHostHandler, HOST_BUFFER_LEN};
use usbip::interface::InterfaceHandler;
use usbip::setup::SetupPacket;
use usbip::{
    decode_opcode, body_length, Connection, Opcode, Request, SubmitCommand, SubmitReply,
    UsbIpServer, STATUS_EPIPE,
};

fn cdc_device() -> UsbDevice {
    let mut d = UsbDevice::new("/sys/devices/usb/1-1".to_string(), "0-0-0".to_string()).unwrap();
    d.device_class = 0x02;
    d.with_interface(
        0x02,
        CDC_ACM_SUBCLASS,
        0x00,
        "Test CDC ACM".to_string(),
        UsbCdcAcmHandler::endpoints(),
        InterfaceHandler::CdcAcm(UsbCdcAcmHandler::new()),
    )
    .unwrap()
}

fn bus_id(s: &str) -> [u8; 32] {
    let mut b = [0u8; 32];
    b[..s.len()].copy_from_slice(s.as_bytes());
    b
}

fn submit(seq_num: u32, direction: u32, ep: u32, len: u32, setup: [u8; 8]) -> SubmitCommand {
    SubmitCommand {
        seq_num,
        dev_id: 0x10002,
        direction,
        ep,
        transfer_flags: 0,
        transfer_buffer_length: len,
        start_frame: 0,
        number_of_packets: 0,
        interval: 0,
        setup,
    }
}

fn bound_server() -> (UsbIpServer, Connection) {
    let server = UsbIpServer { devices: vec![cdc_device()] };
    let conn = Connection { imported: Some(0) };
    (server, conn)
}

#[test]
fn req_devlist() {
    let mut server = UsbIpServer { devices: vec![cdc_device()] };
    let mut conn = Connection { imported: None };
    let input = [0x01u8, 0x00, 0x80, 0x05, 0x00, 0x00, 0x00, 0x00];
    let op = decode_opcode(&[input[0], input[1], input[2], input[3]]);
    assert_eq!(op, Err(UsbIpError::ProtocolViolation));
    let out = server.handle_request(&mut conn, &Request::DevList).unwrap();
    println!("{:?}", out);
}

#[test]
fn devlist_on_empty_server() {
    let mut server = UsbIpServer { devices: vec![] };
    let mut conn = Connection { imported: None };
    assert_eq!(decode_opcode(&[0x01, 0x11, 0x80, 0x05]), Ok(Opcode::DevList));
    assert_eq!(body_length(Opcode::DevList), 4);
    let out = server.handle_request(&mut conn, &Request::DevList).unwrap();
    assert_eq!(out, vec![0x01, 0x11, 0x00, 0x05, 0, 0, 0, 0, 0, 0, 0, 0]);
    assert_eq!(conn.imported, None);
}

#[test]
fn devlist_with_one_cdc_device() {
    let mut server = UsbIpServer { devices: vec![cdc_device()] };
    let mut conn = Connection { imported: None };
    let out = server.handle_request(&mut conn, &Request::DevList).unwrap();
    assert_eq!(out.len(), 12 + 312 + 4);
    assert_eq!(&out[0..12], &[0x01, 0x11, 0x00, 0x05, 0, 0, 0, 0, 0, 0, 0, 1]);
    let rec = &out[12..12 + 312];
    assert_eq!(&rec[256..262], &[0x30, 0x2D, 0x30, 0x2D, 0x30, 0x00]);
    assert_eq!(&rec[0..20], b"/sys/devices/usb/1-1");
    assert_eq!(rec[20], 0);
    assert_eq!(&rec[296..300], &[0, 0, 0, 3]);
    assert_eq!(rec[306], 0x02);
    assert_eq!(&rec[309..312], &[1, 1, 1]);
    assert_eq!(&out[324..328], &[0x02, 0x02, 0x00, 0x00]);
}

#[test]
fn import_known_device() {
    let mut server = UsbIpServer { devices: vec![cdc_device()] };
    let mut conn = Connection { imported: None };
    assert_eq!(body_length(Opcode::Import), 36);
    let out = server.handle_request(&mut conn, &Request::Import(bus_id("0-0-0"))).unwrap();
    assert_eq!(&out[0..8], &[0x01, 0x11, 0x00, 0x03, 0, 0, 0, 0]);
    assert_eq!(out.len(), 8 + 312);
    assert_eq!(&out[8 + 256..8 + 261], b"0-0-0");
    assert_eq!(conn.imported, Some(0));
}

#[test]
fn import_unknown_device() {
    let mut server = UsbIpServer { devices: vec![cdc_device()] };
    let mut conn = Connection { imported: Some(0) };
    let out = server.handle_request(&mut conn, &Request::Import(bus_id("nope"))).unwrap();
    assert_eq!(out, vec![0x01, 0x11, 0x00, 0x03, 0, 0, 0, 1]);
    assert_eq!(conn.imported, None);
}

#[test]
fn get_device_descriptor_after_import() {
    let mut server = UsbIpServer { devices: vec![cdc_device()] };
    let mut conn = Connection { imported: None };
    server.handle_request(&mut conn, &Request::Import(bus_id("0-0-0"))).unwrap();
    let setup = [0x80, 0x06, 0x00, 0x01, 0x00, 0x00, 0x40, 0x00];
    let cmd = submit(1, 1, 0, 64, setup);
    let out = server.handle_request(&mut conn, &Request::Submit(cmd, vec![])).unwrap();
    assert_eq!(&out[0..4], &[0, 0, 0, 3]);
    assert_eq!(&out[4..8], &[0, 0, 0, 1]);
    assert_eq!(&out[20..24], &[0, 0, 0, 0]);
    assert_eq!(&out[24..28], &[0, 0, 0, 18]);
    assert_eq!(&out[40..48], &setup);
    assert_eq!(out.len(), 48 + 18);
    assert_eq!(
        &out[48..],
        &[0x12, 0x01, 0x00, 0x02, 0x02, 0x00, 0x00, 0x40, 0, 0, 0, 0, 0, 0, 0, 0, 0, 1]
    );
}

#[test]
fn cdc_set_then_get_line_coding() {
    let (mut server, conn) = bound_server();
    let set = submit(1, 0, 0, 7, [0x21, 0x20, 0x00, 0x00, 0x00, 0x00, 0x07, 0x00]);
    assert_eq!(set.payload_length(), 7);
    let coding = vec![0x00, 0xC2, 0x01, 0x00, 0x00, 0x00, 0x08];
    let r1 = server.handle_submit(&conn, &set, &coding).unwrap();
    assert_eq!(r1.status, 0);
    assert!(r1.data.is_empty());
    let get = submit(2, 1, 0, 7, [0xA1, 0x21, 0x00, 0x00, 0x00, 0x00, 0x07, 0x00]);
    let r2 = server.handle_submit(&conn, &get, &[]).unwrap();
    assert_eq!(r2.data, coding);
}

#[test]
fn cdc_default_line_coding() {
    let (mut server, conn) = bound_server();
    let get = submit(2, 1, 0, 7, [0xA1, 0x21, 0x00, 0x00, 0x00, 0x00, 0x07, 0x00]);
    let r = server.handle_submit(&conn, &get, &[]).unwrap();
    assert_eq!(r.data, vec![0x80, 0x25, 0x00, 0x00, 0, 0, 8]);
}

#[test]
fn descriptor_cut_to_requested_length() {
    let (mut server, conn) = bound_server();
    let cmd = submit(5, 1, 0, 8, [0x80, 0x06, 0x00, 0x01, 0x00, 0x00, 0x08, 0x00]);
    let r = server.handle_submit(&conn, &cmd, &[]).unwrap();
    assert_eq!(r.data, vec![0x12, 0x01, 0x00, 0x02, 0x02, 0x00, 0x00, 0x40]);
    let cmd = submit(6, 1, 0, 0x400, [0x80, 0x06, 0x00, 0x02, 0x00, 0x00, 0x00, 0x04]);
    let r = server.handle_submit(&conn, &cmd, &[]).unwrap();
    let total = 9 + 9 + 19 + 3 * 7;
    assert_eq!(r.data.len(), total);
    assert_eq!(&r.data[0..5], &[0x09, 0x02, total as u8, 0x00, 0x01]);
    assert_eq!(&r.data[9..18], &[0x09, 0x04, 0x00, 0x00, 0x03, 0x02, 0x02, 0x00, 0x00]);
    assert_eq!(&r.data[18..23], &[0x05, 0x24, 0x00, 0x10, 0x01]);
    assert_eq!(&r.data[37..44], &[0x07, 0x05, 0x81, 0x03, 0x08, 0x00, 0x0a]);
}

#[test]
fn string_descriptors() {
    let (mut server, conn) = bound_server();
    let langs = submit(1, 1, 0, 255, [0x80, 0x06, 0x00, 0x03, 0x00, 0x00, 0xff, 0x00]);
    let r = server.handle_submit(&conn, &langs, &[]).unwrap();
    assert_eq!(r.data, vec![4, 3, 0x09, 0x04]);
    let desc = submit(2, 1, 0, 255, [0x80, 0x06, 0x01, 0x03, 0x09, 0x04, 0xff, 0x00]);
    let r = server.handle_submit(&conn, &desc, &[]).unwrap();
    let mut expected = vec![2 + 2 * 12, 3];
    for c in "Test CDC ACM".bytes() {
        expected.push(c);
        expected.push(0);
    }
    assert_eq!(r.data, expected);
}

#[test]
fn reply_length_matches_data() {
    let reply = SubmitReply {
        seq_num: 9,
        dev_id: 1,
        direction: 1,
        ep: 2,
        status: 0,
        setup: [0; 8],
        data: vec![1, 2, 3, 4, 5],
    };
    let b = reply.encode();
    assert_eq!(b.len(), 48 + 5);
    assert_eq!(&b[24..28], &[0, 0, 0, 5]);
    assert_eq!(&b[48..], &[1, 2, 3, 4, 5]);
    assert_eq!(&b[4..8], &[0, 0, 0, 9]);
}

#[test]
fn submits_keep_sequence_order() {
    let (mut server, conn) = bound_server();
    let status = [0x80, 0x00, 0x00, 0x00, 0x00, 0x00, 0x02, 0x00];
    let cmds = vec![submit(7, 1, 0, 2, status), submit(3, 1, 0, 2, status), submit(9, 1, 2, 64, [0; 8])];
    let replies = server.handle_submits(&conn, &cmds, &vec![vec![], vec![], vec![]]).unwrap();
    let seqs: Vec<u32> = replies.iter().map(|r| r.seq_num).collect();
    assert_eq!(seqs, vec![7, 3, 9]);
    assert_eq!(replies[0].data, vec![0, 0]);
}

#[test]
fn endpoint_lookup() {
    let d = cdc_device();
    let (ep, intf) = d.find_ep(0x82).unwrap();
    assert_eq!(ep.attributes, 2);
    assert_eq!(intf, Some(0));
    let (ep0, none) = d.find_ep(0x80).unwrap();
    assert_eq!(ep0.address, 0x80);
    assert_eq!(ep0.max_packet_size, 64);
    assert_eq!(none, None);
    assert!(d.find_ep(0x83).is_none());
}

#[test]
fn submit_before_import_is_violation() {
    let mut server = UsbIpServer { devices: vec![cdc_device()] };
    let mut conn = Connection { imported: None };
    let cmd = submit(1, 1, 0, 18, [0x80, 0x06, 0x00, 0x01, 0x00, 0x00, 0x12, 0x00]);
    let r = server.handle_request(&mut conn, &Request::Submit(cmd, vec![]));
    assert_eq!(r, Err(UsbIpError::ProtocolViolation));
    assert_eq!(decode_opcode(&[0, 0, 0, 9]), Err(UsbIpError::ProtocolViolation));
}

#[test]
fn unknown_endpoint_gives_epipe() {
    let (mut server, conn) = bound_server();
    let cmd = submit(4, 1, 5, 64, [0; 8]);
    let r = server.handle_submit(&conn, &cmd, &[]).unwrap();
    assert_eq!(r.status, STATUS_EPIPE);
    assert!(r.data.is_empty());
    assert_eq!(r.seq_num, 4);
    let b = r.encode();
    assert_eq!(&b[20..24], &[0xFF, 0xFF, 0xFF, 0x8D]);
    assert_eq!(&b[24..28], &[0, 0, 0, 0]);
}

#[test]
fn request_for_missing_interface_gives_epipe() {
    let (mut server, conn) = bound_server();
    let cmd = submit(4, 1, 0, 7, [0xA1, 0x21, 0x00, 0x00, 0x05, 0x00, 0x07, 0x00]);
    let r = server.handle_submit(&conn, &cmd, &[]).unwrap();
    assert_eq!(r.status, STATUS_EPIPE);
}

#[test]
fn bulk_transfers_reach_cdc_queues() {
    let (mut server, conn) = bound_server();
    let out = submit(1, 0, 2, 3, [0; 8]);
    let r = server.handle_submit(&conn, &out, &[b'a', b'b', b'c']).unwrap();
    assert!(r.data.is_empty());
    match &server.devices[0].interfaces[0].handler {
        InterfaceHandler::CdcAcm(h) => assert_eq!(h.rx, b"abc".to_vec()),
        _ => panic!("not a CDC handler"),
    }
    if let InterfaceHandler::CdcAcm(h) = &mut server.devices[0].interfaces[0].handler {
        h.send(b"xyz");
    }
    let inp = submit(2, 1, 2, 64, [0; 8]);
    let r = server.handle_submit(&conn, &inp, &[]).unwrap();
    assert_eq!(r.data, b"xyz".to_vec());
    let r = server.handle_submit(&conn, &inp, &[]).unwrap();
    assert!(r.data.is_empty());
}

#[test]
fn duplicate_endpoint_is_rejected() {
    let d = cdc_device();
    let r = d.with_interface(
        3,
        0,
        0,
        "HID".to_string(),
        UsbHidHandler::endpoints(),
        InterfaceHandler::Hid(UsbHidHandler::new(vec![0x05, 0x01])),
    );
    assert_eq!(r.err(), Some(UsbIpError::InvalidDevice));
    let d = UsbDevice::new("/p".to_string(), "1-1".to_string()).unwrap();
    let zero = vec![UsbEndpoint { address: 0x80, attributes: 3, max_packet_size: 8, interval: 1 }];
    let r = d.with_interface(3, 0, 0, "x".to_string(), zero, InterfaceHandler::CdcAcm(UsbCdcAcmHandler::new()));
    assert_eq!(r.err(), Some(UsbIpError::InvalidDevice));
    assert!(UsbDevice::new("p".to_string(), "a-very-long-bus-id-of-more-than-31".to_string()).is_none());
}

#[test]
fn hid_reports_and_descriptors() {
    let report_desc = vec![0x05, 0x01, 0x09, 0x06, 0xa1, 0x01, 0xc0];
    let d = UsbDevice::new("/p".to_string(), "1-1".to_string()).unwrap();
    let mut hid = UsbHidHandler::new(report_desc.clone());
    hid.push_report(vec![1, 2, 3]);
    hid.push_report(vec![4]);
    let d = d
        .with_interface(3, 0, 0, "Keyboard".to_string(), UsbHidHandler::endpoints(), InterfaceHandler::Hid(hid))
        .unwrap();
    let mut server = UsbIpServer { devices: vec![d] };
    let conn = Connection { imported: Some(0) };
    let get_report_desc = submit(1, 1, 0, 64, [0x81, 0x06, 0x00, 0x22, 0x00, 0x00, 0x40, 0x00]);
    let r = server.handle_submit(&conn, &get_report_desc, &[]).unwrap();
    assert_eq!(r.data, report_desc);
    let cut = submit(1, 1, 0, 4, [0x81, 0x06, 0x00, 0x22, 0x00, 0x00, 0x04, 0x00]);
    let r = server.handle_submit(&conn, &cut, &[]).unwrap();
    assert_eq!(r.data, report_desc[..4].to_vec());
    let intr = submit(2, 1, 1, 8, [0; 8]);
    assert_eq!(server.handle_submit(&conn, &intr, &[]).unwrap().data, vec![1, 2, 3]);
    let get_report = submit(3, 1, 0, 8, [0xA1, 0x01, 0x00, 0x01, 0x00, 0x00, 0x08, 0x00]);
    assert_eq!(server.handle_submit(&conn, &get_report, &[]).unwrap().data, vec![1, 2, 3]);
    assert_eq!(server.handle_submit(&conn, &intr, &[]).unwrap().data, vec![4]);
    assert!(server.handle_submit(&conn, &intr, &[]).unwrap().data.is_empty());
    let set_idle = submit(4, 0, 0, 0, [0x21, 0x0A, 0x00, 0x00, 0x00, 0x00, 0x00, 0x00]);
    assert!(server.handle_submit(&conn, &set_idle, &[]).unwrap().data.is_empty());
    let config = submit(5, 1, 0, 255, [0x80, 0x06, 0x00, 0x02, 0x00, 0x00, 0xff, 0x00]);
    let c = server.handle_submit(&conn, &config, &[]).unwrap().data;
    assert_eq!(&c[18..27], &[0x09, 0x21, 0x11, 0x01, 0x00, 0x01, 0x22, 7, 0]);
}

#[test]
fn setup_packet_fields() {
    let s = SetupPacket::parse(&[0xA1, 0x21, 0x34, 0x12, 0x02, 0x00, 0x07, 0x00]);
    assert_eq!(s.value, 0x1234);
    assert_eq!(s.index, 2);
    assert_eq!(s.length, 7);
    assert_eq!(s.direction(), usbip::setup::Direction::In);
    assert_eq!(s.request_kind(), usbip::setup::RequestType::Class);
    assert_eq!(s.recipient(), usbip::setup::Recipient::Interface);
}

#[test]
fn submit_header_parse() {
    let mut b = [0u8; 48];
    b[3] = 7;
    b[11] = 1;
    b[15] = 2;
    b[20..24].copy_from_slice(&[0, 0, 1, 0]);
    b[36..44].copy_from_slice(&[1, 2, 3, 4, 5, 6, 7, 8]);
    let c = SubmitCommand::parse(&b);
    assert_eq!(c.seq_num, 7);
    assert_eq!(c.direction, 1);
    assert_eq!(c.ep, 2);
    assert_eq!(c.transfer_buffer_length, 256);
    assert_eq!(c.setup, [1, 2, 3, 4, 5, 6, 7, 8]);
    assert_eq!(c.payload_length(), 0);
}

#[test]
fn host_handler_plans_transfers() {
    let h = UsbHostHandler::new(17u32);
    assert_eq!(h.handle, 17);
    let bulk_out = UsbEndpoint { address: 0x02, attributes: 2, max_packet_size: 512, interval: 0 };
    let s = SetupPacket::parse(&[0; 8]);
    match h.plan(bulk_out, s, &[9, 8]) {
        HostTransfer::BulkOut { address, data } => {
            assert_eq!(address, 2);
            assert_eq!(data, vec![9, 8]);
        }
        _ => panic!("expected a bulk OUT transfer"),
    }
    let ctrl_in = UsbEndpoint { address: 0x80, attributes: 0, max_packet_size: 64, interval: 0 };
    let t = h.plan(ctrl_in, SetupPacket::parse(&[0x80, 6, 0, 1, 0, 0, 18, 0]), &[]);
    assert!(matches!(t, HostTransfer::ControlIn { request: 6, value: 0x100, .. }));
    let mut buffer = vec![0u8; HOST_BUFFER_LEN];
    buffer[..3].copy_from_slice(&[5, 6, 7]);
    assert_eq!(h.finish(&t, Some(2), &buffer), Ok(vec![5, 6]));
    assert_eq!(h.timeout_ms(), 1000);
    assert!(h.class_descriptor().is_empty());
}

#[test]
fn failed_host_transfer_is_handler_error() {
    let h = UsbHostHandler::new(());
    let buffer = vec![0u8; HOST_BUFFER_LEN];
    let s = SetupPacket::parse(&[0; 8]);
    let bulk_in = UsbEndpoint { address: 0x81, attributes: 2, max_packet_size: 512, interval: 0 };
    let read = h.plan(bulk_in, s, &[]);
    assert_eq!(h.finish(&read, None, &buffer), Err(UsbIpError::HandlerError));
    assert_eq!(h.finish(&read, Some(HOST_BUFFER_LEN + 1), &buffer), Err(UsbIpError::HandlerError));
    let bulk_out = UsbEndpoint { address: 0x01, attributes: 2, max_packet_size: 512, interval: 0 };
    let write = h.plan(bulk_out, s, &[1, 2]);
    assert_eq!(h.finish(&write, None, &buffer), Err(UsbIpError::HandlerError));
    assert_eq!(h.finish(&write, Some(2), &buffer), Ok(vec![]));
}

#[test]
fn cdc_ignores_requests_that_are_not_class_to_interface() {
    let (mut server, conn) = bound_server();
    // vendor request with the GET_LINE_CODING code
    let vendor = submit(1, 1, 0, 7, [0xC1, 0x21, 0x00, 0x00, 0x00, 0x00, 0x07, 0x00]);
    let r = server.handle_submit(&conn, &vendor, &[]).unwrap();
    assert_eq!(r.status, 0);
    assert!(r.data.is_empty());
    // SET_LINE_CODING with a short payload leaves the coding alone
    let short = submit(2, 0, 0, 3, [0x21, 0x20, 0x00, 0x00, 0x00, 0x00, 0x03, 0x00]);
    server.handle_submit(&conn, &short, &[1, 2, 3]).unwrap();
    let get = submit(3, 1, 0, 7, [0xA1, 0x21, 0x00, 0x00, 0x00, 0x00, 0x07, 0x00]);
    let r = server.handle_submit(&conn, &get, &[]).unwrap();
    assert_eq!(r.data, vec![0x80, 0x25, 0x00, 0x00, 0, 0, 8]);
}

#[test]
fn forwarded_answers_are_cut_to_requested_length() {
    let (mut server, conn) = bound_server();
    let get = submit(1, 1, 0, 3, [0xA1, 0x21, 0x00, 0x00, 0x00, 0x00, 0x03, 0x00]);
    let r = server.handle_submit(&conn, &get, &[]).unwrap();
    assert_eq!(r.data, vec![0x80, 0x25, 0x00]);
}

#[test]
fn endpoint_recipient_goes_to_owning_interface() {
    let (mut server, conn) = bound_server();
    let to_owned = submit(1, 0, 0, 0, [0x22, 0x40, 0x00, 0x00, 0x82, 0x00, 0x00, 0x00]);
    let r = server.handle_submit(&conn, &to_owned, &[]).unwrap();
    assert_eq!(r.status, 0);
    let to_missing = submit(2, 0, 0, 0, [0x22, 0x40, 0x00, 0x00, 0x83, 0x00, 0x00, 0x00]);
    let r = server.handle_submit(&conn, &to_missing, &[]).unwrap();
    assert_eq!(r.status, STATUS_EPIPE);
}

#[test]
fn out_submit_to_in_endpoint_is_violation() {
    let (mut server, conn) = bound_server();
    let cmd = submit(8, 0, 1, 4, [0; 8]);
    let r = server.handle_submit(&conn, &cmd, &[1, 2, 3, 4]);
    assert_eq!(r.err(), Some(UsbIpError::ProtocolViolation));
    let bad_dir = submit(9, 2, 2, 0, [0; 8]);
    assert_eq!(server.handle_submit(&conn, &bad_dir, &[]).err(), Some(UsbIpError::ProtocolViolation));
    let bad_ep = submit(10, 1, 16, 0, [0; 8]);
    assert_eq!(server.handle_submit(&conn, &bad_ep, &[]).err(), Some(UsbIpError::ProtocolViolation));
}

#[test]
fn string_descriptor_uses_surrogate_pairs() {
    let d = UsbDevice::new("/p".to_string(), "1-1".to_string()).unwrap();
    let d = d
        .with_interface(
            0x02,
            CDC_ACM_SUBCLASS,
            0,
            "\u{e9}\u{1F600}".to_string(),
            UsbCdcAcmHandler::endpoints(),
            InterfaceHandler::CdcAcm(UsbCdcAcmHandler::new()),
        )
        .unwrap();
    assert_eq!(d.string_descriptor(1), vec![8, 3, 0xE9, 0x00, 0x3D, 0xD8, 0x00, 0xDE]);
    assert!(d.string_descriptor(2).is_empty());
}
