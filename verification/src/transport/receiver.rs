//! The transport receiver: a demultiplexer by frame type with three stateful
//! subprotocols — per-gateway packet-number tracking, command request and
//! response pairing, and enumeration progress.

use super::{
    spec_receive_response,
    CommandRequest,
    CommandResponse,
    EnumerationStartRequest,
    IdentifyResponse,
    ReceiveRequest,
    ReceiveResponse,
};
use crate::link::{Address, Frame, FrameModel, GatewayID};
use crate::pv::network::{spec_packets, ReceivedPacketHeader};
use crate::pv::{LongAddress, PacketType, SlotCounter};
use crate::text;
use std::collections::BTreeMap;
use vstd::prelude::*;
use vstd::utf8::{decode_utf8, valid_utf8};

verus! {

/// Counters describing the decode outcomes a transport receiver has seen.
#[derive(Debug, Copy, Clone, Eq, PartialEq, Structural)]
pub struct Counters {
    /// The number of received frames with an unknown frame type.
    pub unhandled_frame_type: u64,
    pub invalid_receive_request: u64,
    pub receive_requests: u64,
    pub invalid_receive_responses: u64,
    pub receive_response_from_unknown_gateway: u64,
    pub receive_responses: u64,
    pub receive_packets: u64,
    pub receive_packet_too_short: u64,
    pub invalid_command_requests: u64,
    pub retransmitted_command_requests: u64,
    pub command_requests: u64,
    pub invalid_command_responses: u64,
    pub retransmitted_command_responses: u64,
    pub command_responses: u64,
    pub ping_requests: u64,
    pub ping_responses: u64,
    pub enumeration_start_requests: u64,
    pub invalid_enumeration_start_request: u64,
    pub enumeration_start_responses: u64,
    pub enumeration_requests: u64,
    pub enumeration_responses: u64,
    pub invalid_enumeration_responses: u64,
    pub version_requests: u64,
    pub version_responses: u64,
    pub invalid_version_responses: u64,
    pub enumeration_end_requests: u64,
    pub enumeration_end_responses: u64,
    pub invalid_enumeration_end_responses: u64,
    pub assign_gateway_id_requests: u64,
    pub assign_gateway_id_responses: u64,
    pub identify_requests: u64,
    pub identify_responses: u64,
    pub invalid_identify_responses: u64,
}

impl Counters {
    /// Whether all counters are zero.
    pub open spec fn spec_is_zero(self) -> bool {
        self == Counters::spec_zero()
    }

    /// All counters at zero.
    pub open spec fn spec_zero() -> Counters {
        Counters {
            unhandled_frame_type: 0,
            invalid_receive_request: 0,
            receive_requests: 0,
            invalid_receive_responses: 0,
            receive_response_from_unknown_gateway: 0,
            receive_responses: 0,
            receive_packets: 0,
            receive_packet_too_short: 0,
            invalid_command_requests: 0,
            retransmitted_command_requests: 0,
            command_requests: 0,
            invalid_command_responses: 0,
            retransmitted_command_responses: 0,
            command_responses: 0,
            ping_requests: 0,
            ping_responses: 0,
            enumeration_start_requests: 0,
            invalid_enumeration_start_request: 0,
            enumeration_start_responses: 0,
            enumeration_requests: 0,
            enumeration_responses: 0,
            invalid_enumeration_responses: 0,
            version_requests: 0,
            version_responses: 0,
            invalid_version_responses: 0,
            enumeration_end_requests: 0,
            enumeration_end_responses: 0,
            invalid_enumeration_end_responses: 0,
            assign_gateway_id_requests: 0,
            assign_gateway_id_responses: 0,
            identify_requests: 0,
            identify_responses: 0,
            invalid_identify_responses: 0,
        }
    }

    /// Whether every counter can absorb `n` more events without overflowing.
    pub open spec fn room_for(self, n: nat) -> bool {
        &&& self.unhandled_frame_type + n <= u64::MAX
        &&& self.invalid_receive_request + n <= u64::MAX
        &&& self.receive_requests + n <= u64::MAX
        &&& self.invalid_receive_responses + n <= u64::MAX
        &&& self.receive_response_from_unknown_gateway + n <= u64::MAX
        &&& self.receive_responses + n <= u64::MAX
        &&& self.receive_packets + n <= u64::MAX
        &&& self.receive_packet_too_short + n <= u64::MAX
        &&& self.invalid_command_requests + n <= u64::MAX
        &&& self.retransmitted_command_requests + n <= u64::MAX
        &&& self.command_requests + n <= u64::MAX
        &&& self.invalid_command_responses + n <= u64::MAX
        &&& self.retransmitted_command_responses + n <= u64::MAX
        &&& self.command_responses + n <= u64::MAX
        &&& self.ping_requests + n <= u64::MAX
        &&& self.ping_responses + n <= u64::MAX
        &&& self.enumeration_start_requests + n <= u64::MAX
        &&& self.invalid_enumeration_start_request + n <= u64::MAX
        &&& self.enumeration_start_responses + n <= u64::MAX
        &&& self.enumeration_requests + n <= u64::MAX
        &&& self.enumeration_responses + n <= u64::MAX
        &&& self.invalid_enumeration_responses + n <= u64::MAX
        &&& self.version_requests + n <= u64::MAX
        &&& self.version_responses + n <= u64::MAX
        &&& self.invalid_version_responses + n <= u64::MAX
        &&& self.enumeration_end_requests + n <= u64::MAX
        &&& self.enumeration_end_responses + n <= u64::MAX
        &&& self.invalid_enumeration_end_responses + n <= u64::MAX
        &&& self.assign_gateway_id_requests + n <= u64::MAX
        &&& self.assign_gateway_id_responses + n <= u64::MAX
        &&& self.identify_requests + n <= u64::MAX
        &&& self.identify_responses + n <= u64::MAX
        &&& self.invalid_identify_responses + n <= u64::MAX
    }
}

impl Default for Counters {
    /// All counters at zero.
    fn default() -> (r: Counters)
        ensures
            r == Counters::spec_zero(),
    {
        Counters {
            unhandled_frame_type: 0,
            invalid_receive_request: 0,
            receive_requests: 0,
            invalid_receive_responses: 0,
            receive_response_from_unknown_gateway: 0,
            receive_responses: 0,
            receive_packets: 0,
            receive_packet_too_short: 0,
            invalid_command_requests: 0,
            retransmitted_command_requests: 0,
            command_requests: 0,
            invalid_command_responses: 0,
            retransmitted_command_responses: 0,
            command_responses: 0,
            ping_requests: 0,
            ping_responses: 0,
            enumeration_start_requests: 0,
            invalid_enumeration_start_request: 0,
            enumeration_start_responses: 0,
            enumeration_requests: 0,
            enumeration_responses: 0,
            invalid_enumeration_responses: 0,
            version_requests: 0,
            version_responses: 0,
            invalid_version_responses: 0,
            enumeration_end_requests: 0,
            enumeration_end_responses: 0,
            invalid_enumeration_end_responses: 0,
            assign_gateway_id_requests: 0,
            assign_gateway_id_responses: 0,
            identify_requests: 0,
            identify_responses: 0,
            invalid_identify_responses: 0,
        }
    }
}

/// A semantic event decoded from one frame.
#[derive(Debug, Clone)]
pub enum TransportEvent {
    /// Enumeration started, using the indicated transient gateway ID.
    EnumerationStarted { enumeration_gateway_id: GatewayID },
    /// A gateway's hardware address was observed.
    GatewayIdentityObserved { gateway_id: GatewayID, address: LongAddress },
    /// A gateway's version text was observed.
    GatewayVersionObserved { gateway_id: GatewayID, version: String },
    /// Enumeration ended.
    EnumerationEnded { gateway_id: GatewayID },
    /// A gateway captured its slot counter while answering a receive request.
    GatewaySlotCounterCaptured { gateway_id: GatewayID },
    /// The captured slot counter value was observed.
    GatewaySlotCounterObserved { gateway_id: GatewayID, slot_counter: SlotCounter },
    /// A PV network packet was received from a gateway.
    PacketReceived { gateway_id: GatewayID, header: ReceivedPacketHeader, data: Vec<u8> },
    /// A command was executed by a gateway: the request and its response.
    CommandExecuted {
        gateway_id: GatewayID,
        request_type: PacketType,
        request: Vec<u8>,
        response_type: PacketType,
        response: Vec<u8>,
    },
}

/// The mathematical content of a transport event.
#[verifier::ext_equal]
pub enum TransportEventModel {
    EnumerationStarted { enumeration_gateway_id: GatewayID },
    GatewayIdentityObserved { gateway_id: GatewayID, address: Seq<u8> },
    GatewayVersionObserved { gateway_id: GatewayID, version: Seq<char> },
    EnumerationEnded { gateway_id: GatewayID },
    GatewaySlotCounterCaptured { gateway_id: GatewayID },
    GatewaySlotCounterObserved { gateway_id: GatewayID, slot_counter: SlotCounter },
    PacketReceived { gateway_id: GatewayID, header: ReceivedPacketHeader, data: Seq<u8> },
    CommandExecuted {
        gateway_id: GatewayID,
        request_type: PacketType,
        request: Seq<u8>,
        response_type: PacketType,
        response: Seq<u8>,
    },
}

impl View for TransportEvent {
    type V = TransportEventModel;

    open spec fn view(&self) -> TransportEventModel {
        match self {
            TransportEvent::EnumerationStarted { enumeration_gateway_id } => {
                TransportEventModel::EnumerationStarted {
                    enumeration_gateway_id: *enumeration_gateway_id,
                }
            },
            TransportEvent::GatewayIdentityObserved { gateway_id, address } => {
                TransportEventModel::GatewayIdentityObserved {
                    gateway_id: *gateway_id,
                    address: address@,
                }
            },
            TransportEvent::GatewayVersionObserved { gateway_id, version } => {
                TransportEventModel::GatewayVersionObserved {
                    gateway_id: *gateway_id,
                    version: version@,
                }
            },
            TransportEvent::EnumerationEnded { gateway_id } => {
                TransportEventModel::EnumerationEnded { gateway_id: *gateway_id }
            },
            TransportEvent::GatewaySlotCounterCaptured { gateway_id } => {
                TransportEventModel::GatewaySlotCounterCaptured { gateway_id: *gateway_id }
            },
            TransportEvent::GatewaySlotCounterObserved { gateway_id, slot_counter } => {
                TransportEventModel::GatewaySlotCounterObserved {
                    gateway_id: *gateway_id,
                    slot_counter: *slot_counter,
                }
            },
            TransportEvent::PacketReceived { gateway_id, header, data } => {
                TransportEventModel::PacketReceived {
                    gateway_id: *gateway_id,
                    header: *header,
                    data: data@,
                }
            },
            TransportEvent::CommandExecuted {
                gateway_id,
                request_type,
                request,
                response_type,
                response,
            } => {
                TransportEventModel::CommandExecuted {
                    gateway_id: *gateway_id,
                    request_type: *request_type,
                    request: request@,
                    response_type: *response_type,
                    response: response@,
                }
            },
        }
    }
}

/// The models of a sequence of transport events.
pub open spec fn events_view(s: Seq<TransportEvent>) -> Seq<TransportEventModel> {
    s.map_values(|e: TransportEvent| e@)
}

/// The abstract state of a transport receiver.
#[verifier::ext_equal]
pub struct TransportModel {
    /// The packet-number expectation per gateway ID.
    pub rx_packet_numbers: Map<u16, u16>,
    /// The last command sequence number seen per gateway ID.
    pub command_sequence_numbers: Map<u16, u8>,
    /// Commands awaiting their response, keyed by gateway ID and sequence
    /// number.
    pub pending: Map<u32, (PacketType, Seq<u8>)>,
    pub counters: Counters,
}

/// The key a gateway ID and a command sequence number form in the pending
/// map.
pub open spec fn spec_pending_key(gw: u16, seq: u8) -> u32 {
    ((gw as u32) * 256 + (seq as u32)) as u32
}

/// The content of the pending map: each payload as a byte sequence.
pub open spec fn pending_view(m: Map<u32, (PacketType, Vec<u8>)>) -> Map<
    u32,
    (PacketType, Seq<u8>),
> {
    m.map_values(|v: (PacketType, Vec<u8>)| (v.0, v.1@))
}

/// The per-packet events a receive response tail yields.
pub open spec fn spec_packet_events(gw: GatewayID, pkts: Seq<(ReceivedPacketHeader, Seq<u8>)>) -> Seq<
    TransportEventModel,
> {
    pkts.map_values(
        |p: (ReceivedPacketHeader, Seq<u8>)|
            TransportEventModel::PacketReceived { gateway_id: gw, header: p.0, data: p.1 },
    )
}

/// One step of the transport receiver on a receive request frame.
pub open spec fn spec_receive_request_step(s: TransportModel, f: FrameModel) -> (
    TransportModel,
    Seq<TransportEventModel>,
) {
    match f.address {
        Address::FromGateway(_) => (
            TransportModel {
                counters: Counters {
                    invalid_receive_request: (s.counters.invalid_receive_request + 1) as u64,
                    ..s.counters
                },
                ..s
            },
            Seq::empty(),
        ),
        Address::ToGateway(gw) => {
            if f.payload.len() != 5 {
                (
                    TransportModel {
                        counters: Counters {
                            invalid_receive_request: (s.counters.invalid_receive_request
                                + 1) as u64,
                            ..s.counters
                        },
                        ..s
                    },
                    Seq::empty(),
                )
            } else {
                let pn = ((f.payload[2] as u16) << 8 | (f.payload[3] as u16)) as u16;
                (
                    TransportModel {
                        rx_packet_numbers: s.rx_packet_numbers.insert(gw.0, pn),
                        counters: Counters {
                            receive_requests: (s.counters.receive_requests + 1) as u64,
                            ..s.counters
                        },
                        ..s
                    },
                    seq![TransportEventModel::GatewaySlotCounterCaptured { gateway_id: gw }],
                )
            }
        },
    }
}

/// One step of the transport receiver on a receive response frame.
pub open spec fn spec_receive_response_step(s: TransportModel, f: FrameModel) -> (
    TransportModel,
    Seq<TransportEventModel>,
) {
    match f.address {
        Address::ToGateway(_) => (
            TransportModel {
                counters: Counters {
                    invalid_receive_responses: (s.counters.invalid_receive_responses + 1) as u64,
                    ..s.counters
                },
                ..s
            },
            Seq::empty(),
        ),
        Address::FromGateway(gw) => {
            if !s.rx_packet_numbers.contains_key(gw.0) {
                (
                    TransportModel {
                        counters: Counters {
                            receive_response_from_unknown_gateway: (
                            s.counters.receive_response_from_unknown_gateway + 1) as u64,
                            ..s.counters
                        },
                        ..s
                    },
                    Seq::empty(),
                )
            } else {
                match spec_receive_response(f.payload, s.rx_packet_numbers[gw.0]) {
                    Err(_) => (
                        TransportModel {
                            counters: Counters {
                                invalid_receive_responses: (s.counters.invalid_receive_responses
                                    + 1) as u64,
                                ..s.counters
                            },
                            ..s
                        },
                        Seq::empty(),
                    ),
                    Ok((record, tail)) => {
                        let (pkts, cut) = spec_packets(tail);
                        (
                            TransportModel {
                                rx_packet_numbers: s.rx_packet_numbers.insert(
                                    gw.0,
                                    record.packet_number,
                                ),
                                counters: Counters {
                                    receive_responses: (s.counters.receive_responses + 1) as u64,
                                    receive_packets: (s.counters.receive_packets
                                        + pkts.len()) as u64,
                                    receive_packet_too_short: (s.counters.receive_packet_too_short
                                        + (if cut {
                                        1nat
                                    } else {
                                        0nat
                                    })) as u64,
                                    ..s.counters
                                },
                                ..s
                            },
                            seq![
                                TransportEventModel::GatewaySlotCounterObserved {
                                    gateway_id: gw,
                                    slot_counter: record.slot_counter,
                                },
                            ] + spec_packet_events(gw, pkts),
                        )
                    },
                }
            }
        },
    }
}

/// One step of the transport receiver on a command request frame.
pub open spec fn spec_command_request_step(s: TransportModel, f: FrameModel) -> (
    TransportModel,
    Seq<TransportEventModel>,
) {
    match f.address {
        Address::FromGateway(_) => (
            TransportModel {
                counters: Counters {
                    invalid_command_requests: (s.counters.invalid_command_requests + 1) as u64,
                    ..s.counters
                },
                ..s
            },
            Seq::empty(),
        ),
        Address::ToGateway(gw) => {
            if f.payload.len() < 5 {
                (
                    TransportModel {
                        counters: Counters {
                            invalid_command_requests: (s.counters.invalid_command_requests
                                + 1) as u64,
                            ..s.counters
                        },
                        ..s
                    },
                    Seq::empty(),
                )
            } else {
                let packet_type = PacketType(f.payload[3]);
                let seq_no = f.payload[4];
                let retransmission = s.command_sequence_numbers.contains_key(gw.0)
                    && s.command_sequence_numbers[gw.0] == seq_no;
                if retransmission {
                    (
                        TransportModel {
                            counters: Counters {
                                retransmitted_command_requests: (
                                s.counters.retransmitted_command_requests + 1) as u64,
                                ..s.counters
                            },
                            ..s
                        },
                        Seq::empty(),
                    )
                } else {
                    (
                        TransportModel {
                            pending: s.pending.insert(
                                spec_pending_key(gw.0, seq_no),
                                (packet_type, f.payload.skip(5)),
                            ),
                            command_sequence_numbers: s.command_sequence_numbers.insert(
                                gw.0,
                                seq_no,
                            ),
                            counters: Counters {
                                command_requests: (s.counters.command_requests + 1) as u64,
                                ..s.counters
                            },
                            ..s
                        },
                        Seq::empty(),
                    )
                }
            }
        },
    }
}

/// One step of the transport receiver on a command response frame.
pub open spec fn spec_command_response_step(s: TransportModel, f: FrameModel) -> (
    TransportModel,
    Seq<TransportEventModel>,
) {
    match f.address {
        Address::ToGateway(_) => (
            TransportModel {
                counters: Counters {
                    invalid_command_responses: (s.counters.invalid_command_responses + 1) as u64,
                    ..s.counters
                },
                ..s
            },
            Seq::empty(),
        ),
        Address::FromGateway(gw) => {
            if f.payload.len() < 5 {
                (
                    TransportModel {
                        counters: Counters {
                            invalid_command_responses: (s.counters.invalid_command_responses
                                + 1) as u64,
                            ..s.counters
                        },
                        ..s
                    },
                    Seq::empty(),
                )
            } else {
                let key = spec_pending_key(gw.0, f.payload[4]);
                if !s.pending.contains_key(key) {
                    (
                        TransportModel {
                            counters: Counters {
                                retransmitted_command_responses: (
                                s.counters.retransmitted_command_responses + 1) as u64,
                                ..s.counters
                            },
                            ..s
                        },
                        Seq::empty(),
                    )
                } else {
                    let (request_type, request_tail) = s.pending[key];
                    (
                        TransportModel {
                            pending: s.pending.remove(key),
                            counters: Counters {
                                command_responses: (s.counters.command_responses + 1) as u64,
                                ..s.counters
                            },
                            ..s
                        },
                        seq![
                            TransportEventModel::CommandExecuted {
                                gateway_id: gw,
                                request_type: request_type,
                                request: request_tail,
                                response_type: PacketType(f.payload[3]),
                                response: f.payload.skip(5),
                            },
                        ],
                    )
                }
            }
        },
    }
}

/// One step of the transport receiver on an enumeration start request frame.
pub open spec fn spec_enumeration_start_request_step(s: TransportModel, f: FrameModel) -> (
    TransportModel,
    Seq<TransportEventModel>,
) {
    let invalid = (
        TransportModel {
            counters: Counters {
                invalid_enumeration_start_request: (s.counters.invalid_enumeration_start_request
                    + 1) as u64,
                ..s.counters
            },
            ..s
        },
        Seq::<TransportEventModel>::empty(),
    );
    match f.address {
        Address::FromGateway(_) => invalid,
        Address::ToGateway(gw) => {
            if gw.0 != 0 || f.payload.len() != 6 {
                invalid
            } else {
                let word = ((f.payload[4] as u16) << 8 | (f.payload[5] as u16)) as u16;
                match crate::link::spec_address_of_word(word) {
                    Address::FromGateway(_) => invalid,
                    Address::ToGateway(enum_gw) => (
                        TransportModel {
                            counters: Counters {
                                enumeration_start_requests: (s.counters.enumeration_start_requests
                                    + 1) as u64,
                                ..s.counters
                            },
                            ..s
                        },
                        seq![
                            TransportEventModel::EnumerationStarted {
                                enumeration_gateway_id: enum_gw,
                            },
                        ],
                    ),
                }
            }
        },
    }
}

/// One step of the transport receiver on an identify or enumeration response
/// frame; the two differ only in the counters they bump.
pub open spec fn spec_identity_response_step(
    s: TransportModel,
    f: FrameModel,
    enumeration: bool,
) -> (TransportModel, Seq<TransportEventModel>) {
    let invalid = (
        TransportModel {
            counters: if enumeration {
                Counters {
                    invalid_enumeration_responses: (s.counters.invalid_enumeration_responses
                        + 1) as u64,
                    ..s.counters
                }
            } else {
                Counters {
                    invalid_identify_responses: (s.counters.invalid_identify_responses + 1) as u64,
                    ..s.counters
                }
            },
            ..s
        },
        Seq::<TransportEventModel>::empty(),
    );
    match f.address {
        Address::ToGateway(_) => invalid,
        Address::FromGateway(gw) => {
            if f.payload.len() != 10 {
                invalid
            } else {
                (
                    TransportModel {
                        counters: if enumeration {
                            Counters {
                                enumeration_responses: (s.counters.enumeration_responses
                                    + 1) as u64,
                                ..s.counters
                            }
                        } else {
                            Counters {
                                identify_responses: (s.counters.identify_responses + 1) as u64,
                                ..s.counters
                            }
                        },
                        ..s
                    },
                    seq![
                        TransportEventModel::GatewayIdentityObserved {
                            gateway_id: gw,
                            address: f.payload.subrange(0, 8),
                        },
                    ],
                )
            }
        },
    }
}

/// One step of the transport receiver on a version response frame.
pub open spec fn spec_version_response_step(s: TransportModel, f: FrameModel) -> (
    TransportModel,
    Seq<TransportEventModel>,
) {
    let invalid = (
        TransportModel {
            counters: Counters {
                invalid_version_responses: (s.counters.invalid_version_responses + 1) as u64,
                ..s.counters
            },
            ..s
        },
        Seq::<TransportEventModel>::empty(),
    );
    match f.address {
        Address::ToGateway(_) => invalid,
        Address::FromGateway(gw) => {
            if f.payload.len() == 0 || !valid_utf8(f.payload) {
                invalid
            } else {
                (
                    TransportModel {
                        counters: Counters {
                            version_responses: (s.counters.version_responses + 1) as u64,
                            ..s.counters
                        },
                        ..s
                    },
                    seq![
                        TransportEventModel::GatewayVersionObserved {
                            gateway_id: gw,
                            version: decode_utf8(f.payload),
                        },
                    ],
                )
            }
        },
    }
}

/// One step of the transport receiver on an enumeration end response frame.
pub open spec fn spec_enumeration_end_response_step(s: TransportModel, f: FrameModel) -> (
    TransportModel,
    Seq<TransportEventModel>,
) {
    match f.address {
        Address::FromGateway(gw) => (
            TransportModel {
                counters: Counters {
                    enumeration_end_responses: (s.counters.enumeration_end_responses + 1) as u64,
                    ..s.counters
                },
                ..s
            },
            seq![TransportEventModel::EnumerationEnded { gateway_id: gw }],
        ),
        Address::ToGateway(_) => (
            TransportModel {
                counters: Counters {
                    invalid_enumeration_end_responses: (
                    s.counters.invalid_enumeration_end_responses + 1) as u64,
                    ..s.counters
                },
                ..s
            },
            Seq::empty(),
        ),
    }
}

/// One step of the transport receiver on any frame: dispatch by frame type.
pub open spec fn transport_step(s: TransportModel, f: FrameModel) -> (
    TransportModel,
    Seq<TransportEventModel>,
) {
    if f.frame_type == 0x0148 {
        spec_receive_request_step(s, f)
    } else if f.frame_type == 0x0149 {
        spec_receive_response_step(s, f)
    } else if f.frame_type == 0x0B0F {
        spec_command_request_step(s, f)
    } else if f.frame_type == 0x0B10 {
        spec_command_response_step(s, f)
    } else if f.frame_type == 0x0B00 {
        (
            TransportModel {
                counters: Counters {
                    ping_requests: (s.counters.ping_requests + 1) as u64,
                    ..s.counters
                },
                ..s
            },
            Seq::empty(),
        )
    } else if f.frame_type == 0x0B01 {
        (
            TransportModel {
                counters: Counters {
                    ping_responses: (s.counters.ping_responses + 1) as u64,
                    ..s.counters
                },
                ..s
            },
            Seq::empty(),
        )
    } else if f.frame_type == 0x0014 {
        spec_enumeration_start_request_step(s, f)
    } else if f.frame_type == 0x0015 {
        (
            TransportModel {
                counters: Counters {
                    enumeration_start_responses: (s.counters.enumeration_start_responses
                        + 1) as u64,
                    ..s.counters
                },
                ..s
            },
            Seq::empty(),
        )
    } else if f.frame_type == 0x0038 {
        (
            TransportModel {
                counters: Counters {
                    enumeration_requests: (s.counters.enumeration_requests + 1) as u64,
                    ..s.counters
                },
                ..s
            },
            Seq::empty(),
        )
    } else if f.frame_type == 0x0039 {
        spec_identity_response_step(s, f, true)
    } else if f.frame_type == 0x003C {
        (
            TransportModel {
                counters: Counters {
                    assign_gateway_id_requests: (s.counters.assign_gateway_id_requests + 1) as u64,
                    ..s.counters
                },
                ..s
            },
            Seq::empty(),
        )
    } else if f.frame_type == 0x003D {
        (
            TransportModel {
                counters: Counters {
                    assign_gateway_id_responses: (s.counters.assign_gateway_id_responses
                        + 1) as u64,
                    ..s.counters
                },
                ..s
            },
            Seq::empty(),
        )
    } else if f.frame_type == 0x003A {
        (
            TransportModel {
                counters: Counters {
                    identify_requests: (s.counters.identify_requests + 1) as u64,
                    ..s.counters
                },
                ..s
            },
            Seq::empty(),
        )
    } else if f.frame_type == 0x003B {
        spec_identity_response_step(s, f, false)
    } else if f.frame_type == 0x000A {
        (
            TransportModel {
                counters: Counters {
                    version_requests: (s.counters.version_requests + 1) as u64,
                    ..s.counters
                },
                ..s
            },
            Seq::empty(),
        )
    } else if f.frame_type == 0x000B {
        spec_version_response_step(s, f)
    } else if f.frame_type == 0x0E02 {
        (
            TransportModel {
                counters: Counters {
                    enumeration_end_requests: (s.counters.enumeration_end_requests + 1) as u64,
                    ..s.counters
                },
                ..s
            },
            Seq::empty(),
        )
    } else if f.frame_type == 0x0006 {
        spec_enumeration_end_response_step(s, f)
    } else {
        (
            TransportModel {
                counters: Counters {
                    unhandled_frame_type: (s.counters.unhandled_frame_type + 1) as u64,
                    ..s.counters
                },
                ..s
            },
            Seq::empty(),
        )
    }
}

/// A receiver which converts a series of frames into a series of semantic
/// transport events, pairing commands and tracking packet numbers per
/// gateway.
pub struct Receiver {
    pub rx_packet_numbers: BTreeMap<u16, u16>,
    pub command_sequence_numbers: BTreeMap<u16, u8>,
    pub commands_awaiting_response: BTreeMap<u32, (PacketType, Vec<u8>)>,
    pub counters: Counters,
}

impl Receiver {
    /// The abstract state this receiver is in.
    pub open spec fn model(self) -> TransportModel {
        TransportModel {
            rx_packet_numbers: self.rx_packet_numbers@,
            command_sequence_numbers: self.command_sequence_numbers@,
            pending: pending_view(self.commands_awaiting_response@),
            counters: self.counters,
        }
    }

    /// Instantiate a new receiver.
    pub fn new() -> (r: Receiver)
        ensures
            r.model().rx_packet_numbers == Map::<u16, u16>::empty(),
            r.model().command_sequence_numbers == Map::<u16, u8>::empty(),
            r.model().pending == Map::<u32, (PacketType, Seq<u8>)>::empty(),
            r.model().counters == Counters::spec_zero(),
    {
        let r = Receiver {
            rx_packet_numbers: BTreeMap::new(),
            command_sequence_numbers: BTreeMap::new(),
            commands_awaiting_response: BTreeMap::new(),
            counters: Counters::default(),
        };
        proof {
            assert(pending_view(r.commands_awaiting_response@) =~= Map::<
                u32,
                (PacketType, Seq<u8>),
            >::empty());
        }
        r
    }

    /// Retrieve the current counters describing the receiver's activity.
    pub fn counters(&self) -> (r: &Counters)
        ensures
            r == self.counters,
    {
        &self.counters
    }

    /// Reset the counters; the protocol state is kept.
    pub fn reset_counters(&mut self)
        ensures
            final(self).model() == (TransportModel {
                counters: Counters::spec_zero(),
                ..old(self).model()
            }),
    {
        self.counters = Counters::default();
    }

    /// Consume one frame: decode it by its frame type, update the protocol
    /// state and the counters, and return the events it yields.
    pub fn frame(&mut self, frame: &Frame) -> (events: Vec<TransportEvent>)
        requires
            old(self).counters.room_for(2 + frame@.payload.len()),
            frame@.payload.len() + 2 <= usize::MAX,
        ensures
            ({
                let (m2, evs) = transport_step(old(self).model(), frame@);
                &&& final(self).model() == m2
                &&& events_view(events@) == evs
            }),
    {
        let mut events: Vec<TransportEvent> = Vec::new();
        match frame.frame_type.0 {
            0x0148 => self.receive_request(frame, &mut events),
            0x0149 => self.receive_response(frame, &mut events),
            0x0B0F => self.command_request(frame),
            0x0B10 => self.command_response(frame, &mut events),
            0x0B00 => {
                self.counters.ping_requests = self.counters.ping_requests + 1;
            },
            0x0B01 => {
                self.counters.ping_responses = self.counters.ping_responses + 1;
            },
            0x0014 => self.enumeration_start_request(frame, &mut events),
            0x0015 => {
                self.counters.enumeration_start_responses = self.counters.enumeration_start_responses
                    + 1;
            },
            0x0038 => {
                self.counters.enumeration_requests = self.counters.enumeration_requests + 1;
            },
            0x0039 => self.identity_response(frame, &mut events, true),
            0x003C => {
                self.counters.assign_gateway_id_requests = self.counters.assign_gateway_id_requests
                    + 1;
            },
            0x003D => {
                self.counters.assign_gateway_id_responses =
                    self.counters.assign_gateway_id_responses + 1;
            },
            0x003A => {
                self.counters.identify_requests = self.counters.identify_requests + 1;
            },
            0x003B => self.identity_response(frame, &mut events, false),
            0x000A => {
                self.counters.version_requests = self.counters.version_requests + 1;
            },
            0x000B => self.version_response(frame, &mut events),
            0x0E02 => {
                self.counters.enumeration_end_requests = self.counters.enumeration_end_requests
                    + 1;
            },
            0x0006 => {
                match frame.address {
                    Address::FromGateway(gw) => {
                        self.counters.enumeration_end_responses =
                            self.counters.enumeration_end_responses + 1;
                        events.push(TransportEvent::EnumerationEnded { gateway_id: gw });
                    },
                    Address::ToGateway(_) => {
                        self.counters.invalid_enumeration_end_responses =
                            self.counters.invalid_enumeration_end_responses + 1;
                    },
                }
            },
            _ => {
                self.counters.unhandled_frame_type = self.counters.unhandled_frame_type + 1;
            },
        }
        proof {
            let (m2, evs) = transport_step(old(self).model(), frame@);
            assert(self.model() =~= m2);
            assert(events_view(events@) =~= evs);
        }
        events
    }

    /// Handle a receive request: record the packet-number expectation and
    /// note that the gateway captured its slot counter.
    fn receive_request(&mut self, frame: &Frame, events: &mut Vec<TransportEvent>)
        requires
            frame@.frame_type == 0x0148,
            old(self).counters.room_for(1),
        ensures
            ({
                let (m2, evs) = spec_receive_request_step(old(self).model(), frame@);
                &&& final(self).model() == m2
                &&& events_view(final(events)@) == events_view(old(events)@) + evs
            }),
    {
        let gateway_id = match frame.address {
            Address::ToGateway(gw) => gw,
            Address::FromGateway(_) => {
                self.counters.invalid_receive_request = self.counters.invalid_receive_request + 1;
                proof {
                    assert(events_view(events@) =~= events_view(events@) + Seq::<
                        TransportEventModel,
                    >::empty());
                }
                return ;
            },
        };
        let payload = match ReceiveRequest::read_from_bytes(frame.payload.as_slice()) {
            Some(p) => p,
            None => {
                self.counters.invalid_receive_request = self.counters.invalid_receive_request + 1;
                proof {
                    assert(events_view(events@) =~= events_view(events@) + Seq::<
                        TransportEventModel,
                    >::empty());
                }
                return ;
            },
        };
        events.push(TransportEvent::GatewaySlotCounterCaptured { gateway_id });
        self.counters.receive_requests = self.counters.receive_requests + 1;
        self.rx_packet_numbers.insert(gateway_id.0, payload.packet_number);
        proof {
            let (m2, evs) = spec_receive_request_step(old(self).model(), frame@);
            assert(self.model() =~= m2);
            assert(events_view(events@) =~= events_view(old(events)@) + evs);
        }
    }

    /// Handle a receive response: reconstruct the packet number, observe the
    /// slot counter and split out the inline packets.
    fn receive_response(&mut self, frame: &Frame, events: &mut Vec<TransportEvent>)
        requires
            frame@.frame_type == 0x0149,
            old(self).counters.room_for(2 + frame@.payload.len()),
            frame@.payload.len() + 2 <= usize::MAX,
        ensures
            ({
                let (m2, evs) = spec_receive_response_step(old(self).model(), frame@);
                &&& final(self).model() == m2
                &&& events_view(final(events)@) == events_view(old(events)@) + evs
            }),
    {
        let gateway_id = match frame.address {
            Address::FromGateway(gw) => gw,
            Address::ToGateway(_) => {
                self.counters.invalid_receive_responses = self.counters.invalid_receive_responses
                    + 1;
                proof {
                    assert(events_view(events@) =~= events_view(events@) + Seq::<
                        TransportEventModel,
                    >::empty());
                }
                return ;
            },
        };
        let previous: u16 = match self.rx_packet_numbers.get(&gateway_id.0) {
            Some(n) => *n,
            None => {
                self.counters.receive_response_from_unknown_gateway =
                    self.counters.receive_response_from_unknown_gateway + 1;
                proof {
                    assert(events_view(events@) =~= events_view(events@) + Seq::<
                        TransportEventModel,
                    >::empty());
                }
                return ;
            },
        };
        let (record, mut packets) = match ReceiveResponse::read_from_bytes(
            frame.payload.as_slice(),
            previous,
        ) {
            Ok(v) => v,
            Err(_) => {
                self.counters.invalid_receive_responses = self.counters.invalid_receive_responses
                    + 1;
                proof {
                    assert(events_view(events@) =~= events_view(events@) + Seq::<
                        TransportEventModel,
                    >::empty());
                }
                return ;
            },
        };
        self.counters.receive_responses = self.counters.receive_responses + 1;
        self.rx_packet_numbers.insert(gateway_id.0, record.packet_number);
        events.push(
            TransportEvent::GatewaySlotCounterObserved {
                gateway_id,
                slot_counter: record.slot_counter,
            },
        );

        let ghost tail = packets@;
        let ghost all_pkts = spec_packets(tail).0;
        let ghost all_cut = spec_packets(tail).1;
        proof {
            lemma_spec_packets_len(tail);
        }
        let ghost evs0 = events@;
        let mut done: bool = false;
        let mut cut: bool = false;
        let ghost mut consumed: int = 0;
        while !done
            invariant
                all_pkts == spec_packets(tail).0,
                all_cut == spec_packets(tail).1,
                all_pkts.len() <= tail.len(),
                0 <= consumed <= all_pkts.len(),
                !done ==> {
                    &&& all_pkts.skip(consumed) =~= spec_packets(packets@).0
                    &&& all_cut == spec_packets(packets@).1
                    &&& !cut
                },
                done ==> consumed == all_pkts.len() && cut == all_cut,
                old(self).counters.room_for(2 + frame@.payload.len()),
                tail.len() <= frame@.payload.len(),
                events_view(events@) =~= events_view(evs0) + spec_packet_events(
                    gateway_id,
                    all_pkts.take(consumed),
                ),
                self.rx_packet_numbers@ == old(self).rx_packet_numbers@.insert(
                    gateway_id.0,
                    record.packet_number,
                ),
                self.command_sequence_numbers@ == old(self).command_sequence_numbers@,
                self.commands_awaiting_response@ == old(self).commands_awaiting_response@,
                self.counters == (Counters {
                    receive_responses: (old(self).counters.receive_responses + 1) as u64,
                    receive_packets: (old(self).counters.receive_packets + consumed) as u64,
                    receive_packet_too_short: (old(self).counters.receive_packet_too_short + (
                    if cut {
                        1nat
                    } else {
                        0nat
                    })) as u64,
                    ..old(self).counters
                }),
            decreases packets@.len() + (if done {
                0int
            } else {
                1int
            }),
        {
            let ghost pre_tail = packets@;
            match packets.next() {
                None => {
                    done = true;
                    proof {
                        assert(all_pkts.skip(consumed) =~= Seq::empty());
                    }
                },
                Some(Err(_)) => {
                    cut = true;
                    done = true;
                    self.counters.receive_packet_too_short = self.counters.receive_packet_too_short
                        + 1;
                    proof {
                        assert(all_pkts.skip(consumed) =~= Seq::empty());
                    }
                },
                Some(Ok((header, data))) => {
                    proof {
                        let dl = header.data_length as int;
                        assert(pre_tail.skip(7).skip(dl) =~= pre_tail.skip(7 + data@.len() as int));
                        assert(spec_packets(pre_tail).0 == seq![(header, data@)] + spec_packets(
                            packets@,
                        ).0);
                        assert(all_pkts[consumed] == (header, data@));
                        assert(all_pkts.skip(consumed + 1) =~= all_pkts.skip(consumed).skip(1));
                        assert((seq![(header, data@)] + spec_packets(packets@).0).skip(1) =~=
                            spec_packets(packets@).0);
                        assert(all_pkts.skip(consumed + 1) =~= spec_packets(packets@).0);
                        assert(all_pkts.take(consumed + 1) =~= all_pkts.take(consumed).push(
                            all_pkts[consumed],
                        ));
                    }
                    self.counters.receive_packets = self.counters.receive_packets + 1;
                    let ghost ev_model = TransportEventModel::PacketReceived {
                        gateway_id,
                        header,
                        data: data@,
                    };
                    let ghost evs_pre = events@;
                    events.push(TransportEvent::PacketReceived { gateway_id, header, data });
                    proof {
                        assert(events@ == evs_pre.push(
                            TransportEvent::PacketReceived { gateway_id, header, data },
                        ));
                        assert(spec_packet_events(gateway_id, all_pkts.take(consumed + 1)) =~=
                            spec_packet_events(gateway_id, all_pkts.take(consumed)).push(ev_model));
                        assert(events_view(evs_pre.push(
                            TransportEvent::PacketReceived { gateway_id, header, data },
                        )) =~= events_view(evs_pre).push(ev_model));
                        consumed = consumed + 1;
                        assert(events_view(events@) =~= events_view(evs0) + spec_packet_events(
                            gateway_id,
                            all_pkts.take(consumed),
                        ));
                    }
                },
            }
        }
        proof {
            let (m2, evs) = spec_receive_response_step(old(self).model(), frame@);
            assert(all_pkts.take(consumed) =~= all_pkts);
            assert(self.model() =~= m2);
            assert(events_view(events@) =~= events_view(old(events)@) + evs);
        }
    }

    /// Handle a command request: record it as awaiting a response, unless it
    /// repeats the sequence number last seen for the gateway.
    fn command_request(&mut self, frame: &Frame)
        requires
            frame@.frame_type == 0x0B0F,
            old(self).counters.room_for(1),
        ensures
            ({
                let (m2, evs) = spec_command_request_step(old(self).model(), frame@);
                &&& final(self).model() == m2
                &&& evs =~= Seq::<TransportEventModel>::empty()
            }),
    {
        let gateway_id = match frame.address {
            Address::ToGateway(gw) => gw,
            Address::FromGateway(_) => {
                self.counters.invalid_command_requests = self.counters.invalid_command_requests
                    + 1;
                return ;
            },
        };
        let header = match CommandRequest::read_from_prefix(frame.payload.as_slice()) {
            Some(h) => h,
            None => {
                self.counters.invalid_command_requests = self.counters.invalid_command_requests
                    + 1;
                return ;
            },
        };
        let retransmission = match self.command_sequence_numbers.get(&gateway_id.0) {
            Some(last) => *last == header.sequence_number.0,
            None => false,
        };
        if retransmission {
            self.counters.retransmitted_command_requests =
                self.counters.retransmitted_command_requests + 1;
            return ;
        }
        let mut tail: Vec<u8> = Vec::new();
        let mut i: usize = 5;
        while i < frame.payload.len()
            invariant
                5 <= i <= frame.payload@.len(),
                frame.payload@.len() >= 5,
                tail@ == frame.payload@.subrange(5, i as int),
            decreases frame.payload@.len() - i,
        {
            tail.push(frame.payload[i]);
            i = i + 1;
        }
        proof {
            assert(tail@ =~= frame.payload@.skip(5));
        }
        let key: u32 = (gateway_id.0 as u32) * 256 + (header.sequence_number.0 as u32);
        self.commands_awaiting_response.insert(key, (header.packet_type, tail));
        self.command_sequence_numbers.insert(gateway_id.0, header.sequence_number.0);
        self.counters.command_requests = self.counters.command_requests + 1;
        proof {
            let (m2, _) = spec_command_request_step(old(self).model(), frame@);
            assert(pending_view(self.commands_awaiting_response@) =~= m2.pending);
            assert(self.model() =~= m2);
        }
    }

    /// Handle a command response: pair it with the pending request and report
    /// the executed command.
    fn command_response(&mut self, frame: &Frame, events: &mut Vec<TransportEvent>)
        requires
            frame@.frame_type == 0x0B10,
            old(self).counters.room_for(1),
        ensures
            ({
                let (m2, evs) = spec_command_response_step(old(self).model(), frame@);
                &&& final(self).model() == m2
                &&& events_view(final(events)@) == events_view(old(events)@) + evs
            }),
    {
        let gateway_id = match frame.address {
            Address::FromGateway(gw) => gw,
            Address::ToGateway(_) => {
                self.counters.invalid_command_responses = self.counters.invalid_command_responses
                    + 1;
                proof {
                    assert(events_view(events@) =~= events_view(events@) + Seq::<
                        TransportEventModel,
                    >::empty());
                }
                return ;
            },
        };
        let header = match CommandResponse::read_from_prefix(frame.payload.as_slice()) {
            Some(h) => h,
            None => {
                self.counters.invalid_command_responses = self.counters.invalid_command_responses
                    + 1;
                proof {
                    assert(events_view(events@) =~= events_view(events@) + Seq::<
                        TransportEventModel,
                    >::empty());
                }
                return ;
            },
        };
        let key: u32 = (gateway_id.0 as u32) * 256 + (header.command_sequence_number.0 as u32);
        let (request_type, request_tail) = match self.commands_awaiting_response.remove(&key) {
            Some(v) => v,
            None => {
                self.counters.retransmitted_command_responses =
                    self.counters.retransmitted_command_responses + 1;
                proof {
                    assert(pending_view(self.commands_awaiting_response@) =~= pending_view(
                        old(self).commands_awaiting_response@,
                    ));
                    assert(self.model() =~= old(self).model().spec_bump_retransmitted_responses());
                    assert(events_view(events@) =~= events_view(events@) + Seq::<
                        TransportEventModel,
                    >::empty());
                }
                return ;
            },
        };
        self.counters.command_responses = self.counters.command_responses + 1;
        let mut tail: Vec<u8> = Vec::new();
        let mut i: usize = 5;
        while i < frame.payload.len()
            invariant
                5 <= i <= frame.payload@.len(),
                frame.payload@.len() >= 5,
                tail@ == frame.payload@.subrange(5, i as int),
            decreases frame.payload@.len() - i,
        {
            tail.push(frame.payload[i]);
            i = i + 1;
        }
        proof {
            assert(tail@ =~= frame.payload@.skip(5));
        }
        events.push(
            TransportEvent::CommandExecuted {
                gateway_id,
                request_type,
                request: request_tail,
                response_type: header.packet_type,
                response: tail,
            },
        );
        proof {
            let (m2, evs) = spec_command_response_step(old(self).model(), frame@);
            assert(pending_view(self.commands_awaiting_response@) =~= m2.pending);
            assert(self.model() =~= m2);
            assert(events_view(events@) =~= events_view(old(events)@) + evs);
        }
    }

    /// Handle an enumeration start request addressed to the all-zeroes
    /// gateway: report the ID enumeration will hand out.
    fn enumeration_start_request(&mut self, frame: &Frame, events: &mut Vec<TransportEvent>)
        requires
            frame@.frame_type == 0x0014,
            old(self).counters.room_for(1),
        ensures
            ({
                let (m2, evs) = spec_enumeration_start_request_step(old(self).model(), frame@);
                &&& final(self).model() == m2
                &&& events_view(final(events)@) == events_view(old(events)@) + evs
            }),
    {
        let ok = match frame.address {
            Address::ToGateway(gw) => gw.0 == 0,
            Address::FromGateway(_) => false,
        };
        if !ok {
            self.counters.invalid_enumeration_start_request =
                self.counters.invalid_enumeration_start_request + 1;
            proof {
                assert(events_view(events@) =~= events_view(events@) + Seq::<
                    TransportEventModel,
                >::empty());
            }
            return ;
        }
        let request = match EnumerationStartRequest::read_from_bytes(frame.payload.as_slice()) {
            Some(p) => p,
            None => {
                self.counters.invalid_enumeration_start_request =
                    self.counters.invalid_enumeration_start_request + 1;
                proof {
                    assert(events_view(events@) =~= events_view(events@) + Seq::<
                        TransportEventModel,
                    >::empty());
                }
                return ;
            },
        };
        let enumeration_gateway_id = match request.enumeration_gateway_id() {
            Some(id) => id,
            None => {
                self.counters.invalid_enumeration_start_request =
                    self.counters.invalid_enumeration_start_request + 1;
                proof {
                    assert(events_view(events@) =~= events_view(events@) + Seq::<
                        TransportEventModel,
                    >::empty());
                }
                return ;
            },
        };
        self.counters.enumeration_start_requests = self.counters.enumeration_start_requests + 1;
        events.push(TransportEvent::EnumerationStarted { enumeration_gateway_id });
        proof {
            let (m2, evs) = spec_enumeration_start_request_step(old(self).model(), frame@);
            assert(self.model() =~= m2);
            assert(events_view(events@) =~= events_view(old(events)@) + evs);
        }
    }

    /// Handle an identify or enumeration response: report the gateway's
    /// hardware address.
    fn identity_response(
        &mut self,
        frame: &Frame,
        events: &mut Vec<TransportEvent>,
        enumeration: bool,
    )
        requires
            enumeration ==> frame@.frame_type == 0x0039,
            !enumeration ==> frame@.frame_type == 0x003B,
            old(self).counters.room_for(1),
        ensures
            ({
                let (m2, evs) = spec_identity_response_step(old(self).model(), frame@, enumeration);
                &&& final(self).model() == m2
                &&& events_view(final(events)@) == events_view(old(events)@) + evs
            }),
    {
        let gateway_id = match frame.address {
            Address::FromGateway(gw) => Some(gw),
            Address::ToGateway(_) => None,
        };
        let response = match IdentifyResponse::read_from_bytes(frame.payload.as_slice()) {
            Some(p) => Some(p),
            None => None,
        };
        match (gateway_id, response) {
            (Some(gw), Some(response)) => {
                if enumeration {
                    self.counters.enumeration_responses = self.counters.enumeration_responses + 1;
                } else {
                    self.counters.identify_responses = self.counters.identify_responses + 1;
                }
                events.push(
                    TransportEvent::GatewayIdentityObserved {
                        gateway_id: gw,
                        address: response.pv_long_address,
                    },
                );
            },
            _ => {
                if enumeration {
                    self.counters.invalid_enumeration_responses =
                        self.counters.invalid_enumeration_responses + 1;
                } else {
                    self.counters.invalid_identify_responses =
                        self.counters.invalid_identify_responses + 1;
                }
            },
        }
        proof {
            let (m2, evs) = spec_identity_response_step(old(self).model(), frame@, enumeration);
            assert(self.model() =~= m2);
            assert(events_view(events@) =~= events_view(old(events)@) + evs);
        }
    }

    /// Handle a version response: report the gateway's version text when the
    /// payload is non-empty valid UTF-8.
    fn version_response(&mut self, frame: &Frame, events: &mut Vec<TransportEvent>)
        requires
            frame@.frame_type == 0x000B,
            old(self).counters.room_for(1),
        ensures
            ({
                let (m2, evs) = spec_version_response_step(old(self).model(), frame@);
                &&& final(self).model() == m2
                &&& events_view(final(events)@) == events_view(old(events)@) + evs
            }),
    {
        let gateway_id = match frame.address {
            Address::FromGateway(gw) => gw,
            Address::ToGateway(_) => {
                self.counters.invalid_version_responses = self.counters.invalid_version_responses
                    + 1;
                proof {
                    assert(events_view(events@) =~= events_view(events@) + Seq::<
                        TransportEventModel,
                    >::empty());
                }
                return ;
            },
        };
        let version = if frame.payload.len() == 0 {
            None
        } else {
            text::utf8_to_string(frame.payload.as_slice())
        };
        match version {
            Some(version) => {
                self.counters.version_responses = self.counters.version_responses + 1;
                proof {
                    vstd::utf8::encode_utf8_decode_utf8(version@);
                }
                events.push(TransportEvent::GatewayVersionObserved { gateway_id, version });
                proof {
                    let (m2, evs) = spec_version_response_step(old(self).model(), frame@);
                    assert(self.model() =~= m2);
                    assert(events_view(events@) =~= events_view(old(events)@) + evs);
                }
            },
            None => {
                self.counters.invalid_version_responses = self.counters.invalid_version_responses
                    + 1;
                proof {
                    assert(events_view(events@) =~= events_view(events@) + Seq::<
                        TransportEventModel,
                    >::empty());
                }
            },
        }
    }
}

impl TransportModel {
    /// The same state with one more retransmitted command response counted.
    pub open spec fn spec_bump_retransmitted_responses(self) -> TransportModel {
        TransportModel {
            counters: Counters {
                retransmitted_command_responses: (self.counters.retransmitted_command_responses
                    + 1) as u64,
                ..self.counters
            },
            ..self
        }
    }
}

/// A receive-response tail of `n` bytes carries at most `n` packets.
pub proof fn lemma_spec_packets_len(data: Seq<u8>)
    ensures
        spec_packets(data).0.len() <= data.len(),
    decreases data.len(),
{
    if data.len() >= 7 {
        let header = crate::pv::network::spec_packet_header(data);
        let rest = data.skip(7);
        if rest.len() >= header.data_length {
            lemma_spec_packets_len(rest.skip(header.data_length as int));
        }
    }
}

} // verus!
