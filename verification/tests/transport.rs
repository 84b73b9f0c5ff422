use taptap::link::{Address, Frame, GatewayID, Type};
use taptap::pv::network::ReceivedPackets;
use taptap::pv::{LongAddress, SlotCounter};
use taptap::transport::{
    Counters,
    IdentifyResponse,
    Receiver,
    ReceiveRequest,
    ReceiveResponse,
    TransportEvent,
};

#[test]
fn rx_request_from_bytes() {
    let q = ReceiveRequest::read_from_bytes(&[0x00, 0x01, 0x18, 0x83, 0x04]).unwrap();
    assert_eq!(q.unknown_1, [0x00, 0x01]);
    assert_eq!(q.packet_number, 0x1883);
    assert_eq!(q.unknown_2, 0x04);
    assert!(ReceiveRequest::read_from_bytes(&[0x00, 0x01, 0x18, 0x83]).is_none());
}

#[test]
fn rx_response_from_bytes() {
    let (record, packets) = ReceiveResponse::read_from_bytes(
        &[0x00, 0xE0, 0x04, 0x0E, 0x00, 0x01, 0x02, 0x00, 0x40, 0xFB, 0x21, 0x1B, 1, 2, 3],
        0x40FB,
    )
    .unwrap();
    assert_eq!(
        record,
        ReceiveResponse {
            rx_buffers_used: Some(0x04),
            tx_buffers_free: Some(0x0E),
            unknown_1: Some([0x00, 0x01]),
            unknown_2: Some([0x02, 0x00]),
            packet_number: 0x40FB,
            slot_counter: SlotCounter(0x211B),
        }
    );
    assert_eq!(packets.0, vec![1, 2, 3]);

    let (record, packets) =
        ReceiveResponse::read_from_bytes(&[0x00, 0xFE, 0x02, 0xFF, 0x21, 0x22, 4], 0x40FB)
            .unwrap();
    assert_eq!(
        record,
        ReceiveResponse {
            rx_buffers_used: Some(0x02),
            tx_buffers_free: None,
            unknown_1: None,
            unknown_2: None,
            packet_number: 0x40FF,
            slot_counter: SlotCounter(0x2122),
        }
    );
    assert_eq!(packets.0, vec![4]);

    let (record, packets) =
        ReceiveResponse::read_from_bytes(&[0x00, 0xEE, 0x00, 0x41, 0x01, 0x21, 0x27], 0x40FB)
            .unwrap();
    assert_eq!(
        record,
        ReceiveResponse {
            rx_buffers_used: Some(0x00),
            tx_buffers_free: None,
            unknown_1: None,
            unknown_2: None,
            packet_number: 0x4101,
            slot_counter: SlotCounter(0x2127),
        }
    );
    assert_eq!(packets.0, Vec::<u8>::new());

    let (record, packets) =
        ReceiveResponse::read_from_bytes(&[0x00, 0xFF, 0x03, 0x21, 0x31], 0x40FB).unwrap();
    assert_eq!(
        record,
        ReceiveResponse {
            rx_buffers_used: None,
            tx_buffers_free: None,
            unknown_1: None,
            unknown_2: None,
            packet_number: 0x4103,
            slot_counter: SlotCounter(0x2131),
        }
    );
    assert_eq!(packets.0, Vec::<u8>::new());
}

#[test]
fn rx_response_rejects_bad_status() {
    assert!(ReceiveResponse::read_from_bytes(&[0x01, 0xFF, 0x03, 0x21, 0x31], 0).is_err());
    assert!(ReceiveResponse::read_from_bytes(&[0x00, 0xFF], 0).is_err());
}

#[test]
fn identify_response_payload() {
    let response = IdentifyResponse::read_from_bytes(&[
        0x04, 0xC0, 0x5B, 0x30, 0x00, 0x02, 0xBE, 0x16, 0x12, 0x01,
    ])
    .unwrap();
    assert_eq!(
        response.pv_long_address,
        LongAddress([0x04, 0xC0, 0x5B, 0x30, 0x00, 0x02, 0xBE, 0x16])
    );
    assert_eq!(response.gateway_address, [0x12, 0x01]);
    assert_eq!(response.gateway_id(), Some(GatewayID(0x1201)));
}

#[test]
fn unhandled_frame_type() {
    let mut rx = Receiver::new();
    let events = rx.frame(&Frame {
        address: Address::from_word(0x1201),
        frame_type: Type(0xffff),
        payload: vec![],
    });

    assert!(events.is_empty());
    assert_eq!(
        rx.counters(),
        &Counters { unhandled_frame_type: 1, ..Default::default() }
    );
}

#[test]
fn reset_counters() {
    let mut rx = Receiver::new();

    assert_eq!(rx.counters(), &Counters::default());

    rx.frame(&Frame {
        address: Address::from_word(0x1201),
        frame_type: Type(0xffff),
        payload: vec![],
    });
    assert_ne!(rx.counters(), &Counters::default());

    rx.reset_counters();
    assert_eq!(rx.counters(), &Counters::default());
}

#[test]
fn receive_pairing_and_packet_split() {
    let mut rx = Receiver::new();

    // The request stores the per-gateway packet number and captures the slot
    // counter.
    let events = rx.frame(&Frame {
        address: Address::ToGateway(GatewayID(0x1201)),
        frame_type: Type(0x0148),
        payload: vec![0x00, 0x01, 0x40, 0xFB, 0x04],
    });
    assert_eq!(events.len(), 1);
    assert!(matches!(
        events[0],
        TransportEvent::GatewaySlotCounterCaptured { gateway_id: GatewayID(0x1201) }
    ));

    // The response carries a compressed packet number, the slot counter, and
    // one inline packet of three data bytes.
    let events = rx.frame(&Frame {
        address: Address::FromGateway(GatewayID(0x1201)),
        frame_type: Type(0x0149),
        payload: vec![
            0x00, 0xFE, 0x02, 0xFF, 0x21, 0x22, 0x31, 0x00, 0x02, 0x12, 0x34, 0x63, 0x03, 0xAA,
            0xBB, 0xCC,
        ],
    });
    assert_eq!(events.len(), 2);
    assert!(matches!(
        events[0],
        TransportEvent::GatewaySlotCounterObserved {
            gateway_id: GatewayID(0x1201),
            slot_counter: SlotCounter(0x2122),
        }
    ));
    match &events[1] {
        TransportEvent::PacketReceived { gateway_id, header, data } => {
            assert_eq!(*gateway_id, GatewayID(0x1201));
            assert_eq!(header.packet_type.0, 0x31);
            assert_eq!(header.node_address.0, 0x0002);
            assert_eq!(header.short_address.0, 0x1234);
            assert_eq!(header.dsn.0, 0x63);
            assert_eq!(header.data_length, 3);
            assert_eq!(data, &vec![0xAA, 0xBB, 0xCC]);
        }
        other => panic!("unexpected event: {:?}", other),
    }
    assert_eq!(rx.counters().receive_requests, 1);
    assert_eq!(rx.counters().receive_responses, 1);
    assert_eq!(rx.counters().receive_packets, 1);
    assert_eq!(rx.counters().receive_packet_too_short, 0);
}

#[test]
fn command_pairing_with_retransmissions() {
    let mut rx = Receiver::new();
    let request = Frame {
        address: Address::ToGateway(GatewayID(0x1201)),
        frame_type: Type(0x0B0F),
        payload: vec![0x00, 0x00, 0x00, 0x26, 0x07, 0x00, 0x02],
    };

    assert!(rx.frame(&request).is_empty());
    assert_eq!(rx.counters().command_requests, 1);

    // The same sequence number again counts as a retransmission.
    assert!(rx.frame(&request).is_empty());
    assert_eq!(rx.counters().retransmitted_command_requests, 1);

    let events = rx.frame(&Frame {
        address: Address::FromGateway(GatewayID(0x1201)),
        frame_type: Type(0x0B10),
        payload: vec![0x00, 0x0E, 0x00, 0x27, 0x07, 0x00, 0x00],
    });
    assert_eq!(events.len(), 1);
    match &events[0] {
        TransportEvent::CommandExecuted {
            gateway_id,
            request_type,
            request,
            response_type,
            response,
        } => {
            assert_eq!(*gateway_id, GatewayID(0x1201));
            assert_eq!(request_type.0, 0x26);
            assert_eq!(request, &vec![0x00, 0x02]);
            assert_eq!(response_type.0, 0x27);
            assert_eq!(response, &vec![0x00, 0x00]);
        }
        other => panic!("unexpected event: {:?}", other),
    }

    // A response with no pending request counts as retransmitted.
    let events = rx.frame(&Frame {
        address: Address::FromGateway(GatewayID(0x1201)),
        frame_type: Type(0x0B10),
        payload: vec![0x00, 0x0E, 0x00, 0x27, 0x07, 0x00, 0x00],
    });
    assert!(events.is_empty());
    assert_eq!(rx.counters().retransmitted_command_responses, 1);
}

#[test]
fn version_response_requires_utf8() {
    let mut rx = Receiver::new();
    let events = rx.frame(&Frame {
        address: Address::FromGateway(GatewayID(0x1201)),
        frame_type: Type(0x000B),
        payload: b"Mgate Version G8.59\r".to_vec(),
    });
    assert_eq!(events.len(), 1);
    match &events[0] {
        TransportEvent::GatewayVersionObserved { gateway_id, version } => {
            assert_eq!(*gateway_id, GatewayID(0x1201));
            assert_eq!(version, "Mgate Version G8.59\r");
        }
        other => panic!("unexpected event: {:?}", other),
    }

    let events = rx.frame(&Frame {
        address: Address::FromGateway(GatewayID(0x1201)),
        frame_type: Type(0x000B),
        payload: vec![0xFF, 0xFE],
    });
    assert!(events.is_empty());
    assert_eq!(rx.counters().invalid_version_responses, 1);

    let events = rx.frame(&Frame {
        address: Address::FromGateway(GatewayID(0x1201)),
        frame_type: Type(0x000B),
        payload: vec![],
    });
    assert!(events.is_empty());
    assert_eq!(rx.counters().invalid_version_responses, 2);
}

#[test]
fn packet_number_wrap() {
    assert_eq!(taptap::transport::interpret_packet_number_lo(0xFF, 0x40FB), 0x40FF);
    assert_eq!(taptap::transport::interpret_packet_number_lo(0x01, 0x40FB), 0x4101);
    assert_eq!(taptap::transport::interpret_packet_number_lo(0x00, 0xFFFF), 0x0000);
}

#[test]
fn truncated_inline_packet_counts() {
    let mut packets = ReceivedPackets(vec![0x31, 0x00, 0x02, 0x12, 0x34]);
    assert!(matches!(packets.next(), Some(Err(_))));
    assert!(packets.next().is_none());
}
