use photon_decode::{EventData, Message};
use photon_sniffer::frame::{filter_frame, filter_frames, TARGET_PORT};
use std::collections::HashMap;
use photon_sniffer::ifaces::{select_capture_interfaces, InterfaceInfo};
use photon_sniffer::pump::{new_decoder, pump_payload, pump_payloads};
use std::cell::RefCell;

/// Builds an Ethernet/IPv4/UDP frame with the given ports and payload.
fn build_frame(source_port: u16, destination_port: u16, payload: &[u8]) -> Vec<u8> {
    let mut frame = vec![0u8; 12];
    frame.extend_from_slice(&[0x08, 0x00]);
    let total_len = (20 + 8 + payload.len()) as u16;
    frame.push(0x45);
    frame.push(0);
    frame.extend_from_slice(&total_len.to_be_bytes());
    frame.extend_from_slice(&[0, 0, 0, 0, 64, 17, 0, 0]);
    frame.extend_from_slice(&[10, 0, 0, 1, 10, 0, 0, 2]);
    frame.extend_from_slice(&source_port.to_be_bytes());
    frame.extend_from_slice(&destination_port.to_be_bytes());
    frame.extend_from_slice(&((8 + payload.len()) as u16).to_be_bytes());
    frame.extend_from_slice(&[0, 0]);
    frame.extend_from_slice(payload);
    frame
}

/// Builds a one-command stream-decoder packet carrying a single event
/// message with the given code and no parameters.
fn build_event_packet(code: u8) -> Vec<u8> {
    let mut packet = vec![0u8, 0]; // peer id
    packet.push(0); // crc disabled
    packet.push(1); // one command
    packet.extend_from_slice(&[0, 0, 0, 0]); // timestamp
    packet.extend_from_slice(&[0, 0, 0, 0]); // challenge
    packet.push(6); // command type: send reliable
    packet.push(1); // channel id
    packet.push(0); // flags
    packet.push(0); // reserved
    packet.extend_from_slice(&17u32.to_be_bytes()); // command length
    packet.extend_from_slice(&1u32.to_be_bytes()); // sequence number
    packet.push(0); // message signature byte
    packet.push(4); // message type: event
    packet.push(code); // event code
    packet.extend_from_slice(&[0, 0]); // no parameters
    packet
}

#[test]
fn selects_only_non_loopback_interfaces() {
    let all = vec![
        InterfaceInfo { index: 0, is_loopback: true },
        InterfaceInfo { index: 1, is_loopback: false },
        InterfaceInfo { index: 2, is_loopback: false },
        InterfaceInfo { index: 3, is_loopback: true },
    ];
    let selected = select_capture_interfaces(&all);
    assert_eq!(
        selected,
        vec![
            InterfaceInfo { index: 1, is_loopback: false },
            InterfaceInfo { index: 2, is_loopback: false },
        ]
    );
}

#[test]
fn selects_nothing_from_loopback_only_list() {
    let all = vec![InterfaceInfo { index: 0, is_loopback: true }];
    assert_eq!(select_capture_interfaces(&all), vec![]);
}

#[test]
fn per_interface_order_reaches_stub_decoder() {
    // Payloads sent from one interface in sequence must reach the decoder
    // in the same sequence: the worker's filter keeps order, and the fan-in
    // consumer feeds payloads in receipt order.
    let frames = vec![
        build_frame(1, TARGET_PORT, b"P1"),
        build_frame(1, TARGET_PORT, b"P2"),
        build_frame(1, TARGET_PORT, b"P3"),
    ];
    let fed: RefCell<Vec<Vec<u8>>> = RefCell::new(Vec::new());
    for payload in filter_frames(&frames) {
        fed.borrow_mut().push(payload); // the pump feeds in receipt order
    }
    assert_eq!(
        *fed.borrow(),
        vec![b"P1".to_vec(), b"P2".to_vec(), b"P3".to_vec()]
    );
}

#[test]
fn failed_interface_does_not_block_another() {
    // Interface A's capture channel fails to open: it contributes no
    // frames. Interface B's worker still runs and its payload still gets
    // through the shared filter path.
    let frames_a: Vec<Vec<u8>> = Vec::new(); // open failure: no capture loop
    let frames_b = vec![build_frame(TARGET_PORT, 2, &[0x42])];
    let mut delivered = filter_frames(&frames_a);
    delivered.extend(filter_frames(&frames_b));
    assert_eq!(delivered, vec![vec![0x42]]);
}

#[test]
fn one_matching_frame_one_stub_message() {
    // End-to-end with a decoder stub that echoes one message per payload:
    // one matching frame must produce exactly one handler invocation whose
    // message wraps the frame's UDP payload.
    let frame = build_frame(40000, TARGET_PORT, &[0x01, 0x02, 0x03]);
    let handled: RefCell<Vec<Vec<u8>>> = RefCell::new(Vec::new());
    let stub_decode = |payload: &[u8]| vec![payload.to_vec()]; // echoes one message
    if let Some(payload) = filter_frame(&frame) {
        for message in stub_decode(&payload) {
            handled.borrow_mut().push(message);
        }
    }
    assert_eq!(*handled.borrow(), vec![vec![0x01, 0x02, 0x03]]);
}

#[test]
fn non_matching_frame_reaches_no_handler() {
    // The same frame with both ports off-target must never reach the
    // decoder or the handler.
    let frame = build_frame(9999, 9999, &[0x01, 0x02, 0x03]);
    let handled: RefCell<Vec<Vec<u8>>> = RefCell::new(Vec::new());
    let stub_decode = |payload: &[u8]| vec![payload.to_vec()];
    if let Some(payload) = filter_frame(&frame) {
        for message in stub_decode(&payload) {
            handled.borrow_mut().push(message);
        }
    }
    assert_eq!(handled.borrow().len(), 0);
}

#[test]
fn two_interfaces_deliver_both_payloads() {
    // Two interfaces each emit one distinct matching frame; whatever the
    // arrival interleaving at the fan-in queue, exactly the set of both
    // payloads is delivered.
    let frame_a = build_frame(TARGET_PORT, 1, &[0xaa]);
    let frame_b = build_frame(2, TARGET_PORT, &[0xbb]);
    for (first, second) in [(&frame_a, &frame_b), (&frame_b, &frame_a)] {
        let mut delivered = Vec::new();
        delivered.extend(filter_frames(&vec![first.clone()]));
        delivered.extend(filter_frames(&vec![second.clone()]));
        assert_eq!(delivered.len(), 2);
        assert!(delivered.contains(&vec![0xaa]));
        assert!(delivered.contains(&vec![0xbb]));
    }
}

#[test]
fn pump_delivers_decoded_event_message() {
    // A full pass through the real decoder: a frame whose UDP payload is a
    // one-event decoder packet must invoke the handler exactly once.
    let frame = build_frame(40000, TARGET_PORT, &build_event_packet(42));
    let handled: RefCell<Vec<u8>> = RefCell::new(Vec::new());
    let handler = |message: Message| {
        if let Message::Event(event) = message {
            handled.borrow_mut().push(event.code);
        }
    };
    let mut decoder = new_decoder();
    let payload = filter_frame(&frame).expect("the frame matches the target port");
    let delivered = pump_payload(&mut decoder, &payload, &handler);
    assert_eq!(delivered, 1);
    assert_eq!(*handled.borrow(), vec![42]);
}

#[test]
fn dispatch_invokes_handler_once_per_message() {
    let handled: RefCell<Vec<u8>> = RefCell::new(Vec::new());
    let handler = |message: Message| {
        if let Message::Event(event) = message {
            handled.borrow_mut().push(event.code);
        }
    };
    let messages = vec![
        Message::Event(EventData { code: 5, parameters: HashMap::new() }),
        Message::Event(EventData { code: 6, parameters: HashMap::new() }),
    ];
    let delivered = photon_sniffer::pump::dispatch_messages(messages, &handler);
    assert_eq!(delivered, 2);
    assert_eq!(*handled.borrow(), vec![5, 6]);
}

#[test]
fn pump_delivers_messages_in_emission_order() {
    let handled: RefCell<Vec<u8>> = RefCell::new(Vec::new());
    let handler = |message: Message| {
        if let Message::Event(event) = message {
            handled.borrow_mut().push(event.code);
        }
    };
    let mut decoder = new_decoder();
    let payloads = vec![build_event_packet(1), build_event_packet(2), build_event_packet(3)];
    pump_payloads(&mut decoder, &payloads, &handler);
    assert_eq!(*handled.borrow(), vec![1, 2, 3]);
}

#[test]
fn pump_survives_undecodable_payload() {
    // Arbitrary bytes that do not decode must produce no messages and must
    // not stop the pump: a later decodable payload still gets through.
    let handled: RefCell<Vec<u8>> = RefCell::new(Vec::new());
    let handler = |message: Message| {
        if let Message::Event(event) = message {
            handled.borrow_mut().push(event.code);
        }
    };
    let mut decoder = new_decoder();
    let first = pump_payload(&mut decoder, &[0x01, 0x02, 0x03], &handler);
    assert_eq!(first, 0);
    assert_eq!(handled.borrow().len(), 0);
    let second = pump_payload(&mut decoder, &build_event_packet(7), &handler);
    assert_eq!(second, 1);
    assert_eq!(*handled.borrow(), vec![7]);
}
