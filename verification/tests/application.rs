use taptap::link::GatewayID;
use taptap::pv::application::{
    AppEvent,
    NodeTableRequest,
    NodeTableResponse,
    PowerReport,
    Receiver,
    TopologyReport,
};
use taptap::pv::network::{NodeAddress, ReceivedPacketHeader};
use taptap::pv::{LongAddress, NodeID, PacketType, ShortAddress, DSN};
use taptap::transport::TransportEvent;

#[test]
fn request() {
    let q = NodeTableRequest::read_from_bytes(b"\x00\x02").unwrap();
    assert_eq!(q.start_at, NodeAddress(2));
    assert!(NodeTableRequest::read_from_bytes(b"\x00").is_none());
    assert!(NodeTableRequest::read_from_bytes(b"\x00\x02\x00").is_none());
}

#[test]
fn response() {
    let response = NodeTableResponse::read_from_bytes(b"\x00\x00").unwrap();
    assert_eq!(response.entries_count, 0);
    assert_eq!(response.entries.len(), 0);

    let response = NodeTableResponse::read_from_bytes(
        b"\x00\x0C\x04\xC0\x5B\x40\x00\xA2\x34\x6F\x00\x02\x04\xC0\x5B\x40\x00\xA2\x34\x71\x00\x03",
    )
    .unwrap();
    assert_eq!(response.entries_count, 0x000c);
    assert_eq!(response.entries.len(), 2);
    assert_eq!(
        response.entries[0].long_address,
        LongAddress([0x04, 0xC0, 0x5B, 0x40, 0x00, 0xA2, 0x34, 0x6F])
    );
    assert_eq!(response.entries[0].node_id, NodeAddress(0x0002));
    assert_eq!(
        response.entries[1].long_address,
        LongAddress([0x04, 0xC0, 0x5B, 0x40, 0x00, 0xA2, 0x34, 0x71])
    );
    assert_eq!(response.entries[1].node_id, NodeAddress(0x0003));
}

#[test]
fn power_report_packet_layout() {
    let report = PowerReport::read_from_bytes(&[
        0x2b, 0x61, 0x58, 0xFF, 0x0c, 0x80, 0x01, 0x00, 0x00, 0x00, 0x21, 0x22, 0x64,
    ])
    .unwrap();
    assert_eq!(report.voltage_in_and_voltage_out.unpack(), (0x2b6, 0x158));
    assert_eq!(report.dc_dc_duty_cycle, 0xFF);
    assert_eq!(report.current_and_temperature.unpack(), (0x0c8, 0x001));
    assert_eq!(report.slot_counter.0, 0x2122);
    assert_eq!(report.rssi.0, 0x64);
    assert!(PowerReport::read_from_bytes(&[0; 12]).is_none());
    assert!(PowerReport::read_from_bytes(&[0; 14]).is_none());
}

#[test]
fn topology_report_packet_layout() {
    let report = TopologyReport::read_from_bytes(&[
        0x12, 0x34, 0x00, 0x02, 0x00, 0x01, 0xAA, 0xBB, 0x04, 0xC0, 0x5B, 0x40, 0x00, 0x9A, 0x57,
        0xA2, 0x64, 0x01, 0x02, 0x03, 0x04, 0x05,
    ])
    .unwrap();
    assert_eq!(report.short_address, ShortAddress(0x1234));
    assert_eq!(report.pv_node_id, NodeAddress(0x0002));
    assert_eq!(report.next_hop, NodeAddress(0x0001));
    assert_eq!(report.unknown_1, [0xAA, 0xBB]);
    assert_eq!(
        report.long_address,
        LongAddress([0x04, 0xC0, 0x5B, 0x40, 0x00, 0x9A, 0x57, 0xA2])
    );
    assert_eq!(report.rssi.0, 0x64);
    assert_eq!(report.unknown_2, [0x01, 0x02, 0x03, 0x04, 0x05]);
    assert!(TopologyReport::read_from_bytes(&[0; 21]).is_none());
}

fn packet(packet_type: u8, node: u16, data: Vec<u8>) -> TransportEvent {
    TransportEvent::PacketReceived {
        gateway_id: GatewayID(0x1201),
        header: ReceivedPacketHeader {
            packet_type: PacketType(packet_type),
            node_address: NodeAddress(node),
            short_address: ShortAddress(0x1234),
            dsn: DSN(0x63),
            data_length: data.len() as u8,
        },
        data,
    }
}

#[test]
fn string_response_packet_decodes() {
    let mut rx = Receiver::new();
    let out = rx.on_event(packet(0x07, 0x0002, b"hello".to_vec()));
    assert_eq!(out.len(), 2);
    assert!(matches!(out[0], AppEvent::Transport(_)));
    match &out[1] {
        AppEvent::StringResponse { gateway_id, pv_node_id, response } => {
            assert_eq!(*gateway_id, GatewayID(0x1201));
            assert_eq!(*pv_node_id, NodeID(2));
            assert_eq!(response, "hello");
        }
        other => panic!("unexpected event: {:?}", other),
    }
    assert_eq!(rx.counters().string_responses, 1);

    // A packet from the reserved zero address is counted and not decoded.
    let out = rx.on_event(packet(0x07, 0x0000, b"hello".to_vec()));
    assert_eq!(out.len(), 1);
    assert_eq!(rx.counters().invalid_received_packet_node_ids, 1);
}

#[test]
fn power_report_packet_decodes() {
    let mut rx = Receiver::new();
    let out = rx.on_event(packet(
        0x31,
        0x0002,
        vec![0x2b, 0x61, 0x58, 0xFF, 0x0c, 0x80, 0x01, 0x00, 0x00, 0x00, 0x21, 0x22, 0x64],
    ));
    assert_eq!(out.len(), 2);
    match &out[1] {
        AppEvent::PowerReport { pv_node_id, report, .. } => {
            assert_eq!(*pv_node_id, NodeID(2));
            assert_eq!(report.slot_counter.0, 0x2122);
        }
        other => panic!("unexpected event: {:?}", other),
    }
    assert_eq!(rx.counters().power_reports, 1);

    // A wrong-sized payload only bumps the counter.
    let out = rx.on_event(packet(0x31, 0x0002, vec![0x00; 12]));
    assert_eq!(out.len(), 1);
    assert_eq!(rx.counters().invalid_power_reports, 1);
}

fn command(request_type: u8, request: Vec<u8>, response_type: u8, response: Vec<u8>) -> TransportEvent {
    TransportEvent::CommandExecuted {
        gateway_id: GatewayID(0x1201),
        request_type: PacketType(request_type),
        request,
        response_type: PacketType(response_type),
        response,
    }
}

#[test]
fn node_table_command_decodes() {
    let mut rx = Receiver::new();
    let out = rx.on_event(command(
        0x26,
        vec![0x00, 0x02],
        0x27,
        vec![
            0x00, 0x02, 0x04, 0xC0, 0x5B, 0x40, 0x00, 0xA2, 0x34, 0x6F, 0x00, 0x02, 0x04, 0xC0,
            0x5B, 0x40, 0x00, 0xA2, 0x34, 0x71, 0x00, 0x03,
        ],
    ));
    assert_eq!(out.len(), 2);
    match &out[1] {
        AppEvent::NodeTablePage { start_address, nodes, .. } => {
            assert_eq!(*start_address, NodeAddress(2));
            assert_eq!(nodes.len(), 2);
            assert_eq!(nodes[1].node_id, NodeAddress(3));
        }
        other => panic!("unexpected event: {:?}", other),
    }

    // A count that does not match the page size is rejected.
    let out = rx.on_event(command(
        0x26,
        vec![0x00, 0x02],
        0x27,
        vec![0x00, 0x0C, 0x04, 0xC0, 0x5B, 0x40, 0x00, 0xA2, 0x34, 0x6F, 0x00, 0x02],
    ));
    assert_eq!(out.len(), 1);
    assert_eq!(rx.counters().invalid_node_table_responses, 1);
}

#[test]
fn string_command_decodes() {
    let mut rx = Receiver::new();
    let out = rx.on_event(command(0x06, b"\x00\x02agc?".to_vec(), 0x07, vec![]));
    assert_eq!(out.len(), 2);
    match &out[1] {
        AppEvent::StringRequest { pv_node_id, request, .. } => {
            assert_eq!(*pv_node_id, NodeID(2));
            assert_eq!(request, "agc?");
        }
        other => panic!("unexpected event: {:?}", other),
    }
    assert_eq!(rx.counters().string_commands, 1);

    // A non-empty response rejects the pair.
    let out = rx.on_event(command(0x06, b"\x00\x02agc?".to_vec(), 0x07, vec![1]));
    assert_eq!(out.len(), 1);
    assert_eq!(rx.counters().invalid_string_commands, 1);
}
