//! The application receiver: interposes on the transport event stream and
//! adds typed events for the mesh packet payloads it can decode.

use super::super::network::NodeID;
use super::super::NodeAddress;
use super::{
    spec_node_table_entry_of,
    spec_node_table_response_shape,
    spec_power_report_of,
    spec_topology_report_of,
    NodeTableRequest,
    NodeTableResponse,
    NodeTableResponseEntry,
    PowerReport,
    TopologyReport,
};
use crate::link::GatewayID;
use crate::text;
use crate::transport::{TransportEvent, TransportEventModel};
use vstd::prelude::*;
use vstd::utf8::{decode_utf8, valid_utf8};

verus! {

/// Counters describing the decode outcomes an application receiver has seen.
#[derive(Debug, Copy, Clone, Eq, PartialEq, Structural)]
pub struct Counters {
    pub invalid_received_packet_node_ids: u64,
    pub invalid_power_reports: u64,
    pub power_reports: u64,
    pub invalid_topology_reports: u64,
    pub topology_reports: u64,
    pub invalid_node_table_requests: u64,
    pub invalid_node_table_responses: u64,
    pub invalid_string_commands: u64,
    pub string_commands: u64,
    pub invalid_string_responses: u64,
    pub string_responses: u64,
}

impl Counters {
    /// All counters at zero.
    pub open spec fn spec_zero() -> Counters {
        Counters {
            invalid_received_packet_node_ids: 0,
            invalid_power_reports: 0,
            power_reports: 0,
            invalid_topology_reports: 0,
            topology_reports: 0,
            invalid_node_table_requests: 0,
            invalid_node_table_responses: 0,
            invalid_string_commands: 0,
            string_commands: 0,
            invalid_string_responses: 0,
            string_responses: 0,
        }
    }

    /// Whether every counter can absorb `n` more events without overflowing.
    pub open spec fn room_for(self, n: nat) -> bool {
        &&& self.invalid_received_packet_node_ids + n <= u64::MAX
        &&& self.invalid_power_reports + n <= u64::MAX
        &&& self.power_reports + n <= u64::MAX
        &&& self.invalid_topology_reports + n <= u64::MAX
        &&& self.topology_reports + n <= u64::MAX
        &&& self.invalid_node_table_requests + n <= u64::MAX
        &&& self.invalid_node_table_responses + n <= u64::MAX
        &&& self.invalid_string_commands + n <= u64::MAX
        &&& self.string_commands + n <= u64::MAX
        &&& self.invalid_string_responses + n <= u64::MAX
        &&& self.string_responses + n <= u64::MAX
    }
}

impl Default for Counters {
    /// All counters at zero.
    fn default() -> (r: Counters)
        ensures
            r == Counters::spec_zero(),
    {
        Counters {
            invalid_received_packet_node_ids: 0,
            invalid_power_reports: 0,
            power_reports: 0,
            invalid_topology_reports: 0,
            topology_reports: 0,
            invalid_node_table_requests: 0,
            invalid_node_table_responses: 0,
            invalid_string_commands: 0,
            string_commands: 0,
            invalid_string_responses: 0,
            string_responses: 0,
        }
    }
}

/// An application-layer event: the transport event stream with typed events
/// interposed after the packets and commands they decode.
#[derive(Debug)]
pub enum AppEvent {
    /// A transport event, forwarded unchanged.
    Transport(TransportEvent),
    /// A string command sent to a node, observed with its (empty) response.
    StringRequest { gateway_id: GatewayID, pv_node_id: NodeID, request: String },
    /// A string response packet from a node.
    StringResponse { gateway_id: GatewayID, pv_node_id: NodeID, response: String },
    /// One page of a gateway's node table, observed as a command pair.
    NodeTablePage {
        gateway_id: GatewayID,
        start_address: NodeAddress,
        nodes: Vec<NodeTableResponseEntry>,
    },
    /// A topology report packet from a node.
    TopologyReport { gateway_id: GatewayID, pv_node_id: NodeID, report: TopologyReport },
    /// A power report packet from a node.
    PowerReport { gateway_id: GatewayID, pv_node_id: NodeID, report: PowerReport },
}

/// The mathematical content of an application event.
#[verifier::ext_equal]
pub enum AppEventModel {
    Transport(TransportEventModel),
    StringRequest { gateway_id: GatewayID, pv_node_id: NodeID, request: Seq<char> },
    StringResponse { gateway_id: GatewayID, pv_node_id: NodeID, response: Seq<char> },
    NodeTablePage {
        gateway_id: GatewayID,
        start_address: NodeAddress,
        nodes: Seq<NodeTableResponseEntry>,
    },
    TopologyReport { gateway_id: GatewayID, pv_node_id: NodeID, report: TopologyReport },
    PowerReport { gateway_id: GatewayID, pv_node_id: NodeID, report: PowerReport },
}

impl View for AppEvent {
    type V = AppEventModel;

    open spec fn view(&self) -> AppEventModel {
        match self {
            AppEvent::Transport(e) => AppEventModel::Transport(e@),
            AppEvent::StringRequest { gateway_id, pv_node_id, request } => {
                AppEventModel::StringRequest {
                    gateway_id: *gateway_id,
                    pv_node_id: *pv_node_id,
                    request: request@,
                }
            },
            AppEvent::StringResponse { gateway_id, pv_node_id, response } => {
                AppEventModel::StringResponse {
                    gateway_id: *gateway_id,
                    pv_node_id: *pv_node_id,
                    response: response@,
                }
            },
            AppEvent::NodeTablePage { gateway_id, start_address, nodes } => {
                AppEventModel::NodeTablePage {
                    gateway_id: *gateway_id,
                    start_address: *start_address,
                    nodes: nodes@,
                }
            },
            AppEvent::TopologyReport { gateway_id, pv_node_id, report } => {
                AppEventModel::TopologyReport {
                    gateway_id: *gateway_id,
                    pv_node_id: *pv_node_id,
                    report: *report,
                }
            },
            AppEvent::PowerReport { gateway_id, pv_node_id, report } => {
                AppEventModel::PowerReport {
                    gateway_id: *gateway_id,
                    pv_node_id: *pv_node_id,
                    report: *report,
                }
            },
        }
    }
}

/// The models of a sequence of application events.
pub open spec fn app_events_view(s: Seq<AppEvent>) -> Seq<AppEventModel> {
    s.map_values(|e: AppEvent| e@)
}

/// The counter change and extra events one transport event induces at the
/// application layer. The first output event always forwards the transport
/// event itself.
pub open spec fn app_step(
    c: Counters,
    e: TransportEventModel,
    c2: Counters,
    out: Seq<AppEventModel>,
) -> bool {
    &&& out.len() >= 1
    &&& out[0] == AppEventModel::Transport(e)
    &&& match e {
        TransportEventModel::PacketReceived { gateway_id, header, data } => {
            if header.node_address.0 == 0 {
                &&& c2 == Counters {
                    invalid_received_packet_node_ids: (c.invalid_received_packet_node_ids
                        + 1) as u64,
                    ..c
                }
                &&& out.len() == 1
            } else {
                let node = NodeID(header.node_address.0);
                if header.packet_type.0 == 0x07 {
                    if valid_utf8(data) {
                        &&& c2 == Counters { string_responses: (c.string_responses + 1) as u64, ..c }
                        &&& out.len() == 2
                        &&& out[1] == AppEventModel::StringResponse {
                            gateway_id,
                            pv_node_id: node,
                            response: decode_utf8(data),
                        }
                    } else {
                        &&& c2 == Counters {
                            invalid_string_responses: (c.invalid_string_responses + 1) as u64,
                            ..c
                        }
                        &&& out.len() == 1
                    }
                } else if header.packet_type.0 == 0x09 {
                    if data.len() == 22 {
                        &&& c2 == Counters { topology_reports: (c.topology_reports + 1) as u64, ..c }
                        &&& out.len() == 2
                        &&& (out[1] matches AppEventModel::TopologyReport {
                            gateway_id: g,
                            pv_node_id: n,
                            report,
                        } && g == gateway_id && n == node && spec_topology_report_of(data, report))
                    } else {
                        &&& c2 == Counters {
                            invalid_topology_reports: (c.invalid_topology_reports + 1) as u64,
                            ..c
                        }
                        &&& out.len() == 1
                    }
                } else if header.packet_type.0 == 0x31 {
                    if data.len() == 13 {
                        &&& c2 == Counters { power_reports: (c.power_reports + 1) as u64, ..c }
                        &&& out.len() == 2
                        &&& (out[1] matches AppEventModel::PowerReport {
                            gateway_id: g,
                            pv_node_id: n,
                            report,
                        } && g == gateway_id && n == node && spec_power_report_of(data, report))
                    } else {
                        &&& c2 == Counters {
                            invalid_power_reports: (c.invalid_power_reports + 1) as u64,
                            ..c
                        }
                        &&& out.len() == 1
                    }
                } else {
                    c2 == c && out.len() == 1
                }
            }
        },
        TransportEventModel::CommandExecuted {
            gateway_id,
            request_type,
            request,
            response_type,
            response,
        } => {
            if request_type.0 == 0x26 && response_type.0 == 0x27 {
                if request.len() != 2 {
                    &&& c2 == Counters {
                        invalid_node_table_requests: (c.invalid_node_table_requests + 1) as u64,
                        ..c
                    }
                    &&& out.len() == 1
                } else if !spec_node_table_response_shape(response) || ((response[0] as u16) << 8
                    | (response[1] as u16)) != (response.len() - 2) / 10 {
                    &&& c2 == Counters {
                        invalid_node_table_responses: (c.invalid_node_table_responses + 1) as u64,
                        ..c
                    }
                    &&& out.len() == 1
                } else {
                    &&& c2 == c
                    &&& out.len() == 2
                    &&& (out[1] matches AppEventModel::NodeTablePage {
                        gateway_id: g,
                        start_address,
                        nodes,
                    } && g == gateway_id && start_address.0 == ((request[0] as u16) << 8 | (
                    request[1] as u16)) as u16 && nodes.len() == (response.len() - 2) / 10
                        && forall|k: int|
                        0 <= k < nodes.len() ==> spec_node_table_entry_of(
                            response.subrange(2 + 10 * k, 12 + 10 * k),
                            #[trigger] nodes[k],
                        ))
                }
            } else if request_type.0 == 0x06 && response_type.0 == 0x07 {
                let word = ((request[0] as u16) << 8 | (request[1] as u16)) as u16;
                if request.len() < 2 || word == 0 || !valid_utf8(request.skip(2)) || response.len()
                    != 0 {
                    &&& c2 == Counters {
                        invalid_string_commands: (c.invalid_string_commands + 1) as u64,
                        ..c
                    }
                    &&& out.len() == 1
                } else {
                    &&& c2 == Counters { string_commands: (c.string_commands + 1) as u64, ..c }
                    &&& out.len() == 2
                    &&& out[1] == AppEventModel::StringRequest {
                        gateway_id,
                        pv_node_id: NodeID(word),
                        request: decode_utf8(request.skip(2)),
                    }
                }
            } else {
                c2 == c && out.len() == 1
            }
        },
        _ => c2 == c && out.len() == 1,
    }
}

/// A receiver which interposes on the transport event stream, decoding the
/// packet payloads and command pairs it understands into typed events.
pub struct Receiver {
    pub counters: Counters,
}

impl Receiver {
    /// Instantiate a new receiver.
    pub fn new() -> (r: Receiver)
        ensures
            r.counters == Counters::spec_zero(),
    {
        Receiver { counters: Counters::default() }
    }

    /// Retrieve the current counters describing the receiver's activity.
    pub fn counters(&self) -> (r: &Counters)
        ensures
            r == self.counters,
    {
        &self.counters
    }

    /// Consume one transport event: forward it, and follow it with the typed
    /// event its payload decodes to, if any.
    pub fn on_event(&mut self, event: TransportEvent) -> (out: Vec<AppEvent>)
        requires
            old(self).counters.room_for(1),
        ensures
            app_step(old(self).counters, event@, final(self).counters, app_events_view(out@)),
    {
        let extra: Option<AppEvent> = match &event {
            TransportEvent::PacketReceived { gateway_id, header, data } => {
                if header.node_address.0 == 0 {
                    self.counters.invalid_received_packet_node_ids =
                        self.counters.invalid_received_packet_node_ids + 1;
                    None
                } else {
                    let node = NodeID(header.node_address.0);
                    if header.packet_type.0 == 0x07 {
                        match text::utf8_to_string(data.as_slice()) {
                            Some(response) => {
                                self.counters.string_responses = self.counters.string_responses
                                    + 1;
                                proof {
                                    vstd::utf8::encode_utf8_decode_utf8(response@);
                                }
                                Some(
                                    AppEvent::StringResponse {
                                        gateway_id: *gateway_id,
                                        pv_node_id: node,
                                        response,
                                    },
                                )
                            },
                            None => {
                                self.counters.invalid_string_responses =
                                    self.counters.invalid_string_responses + 1;
                                None
                            },
                        }
                    } else if header.packet_type.0 == 0x09 {
                        match TopologyReport::read_from_bytes(data.as_slice()) {
                            Some(report) => {
                                self.counters.topology_reports = self.counters.topology_reports
                                    + 1;
                                Some(
                                    AppEvent::TopologyReport {
                                        gateway_id: *gateway_id,
                                        pv_node_id: node,
                                        report,
                                    },
                                )
                            },
                            None => {
                                self.counters.invalid_topology_reports =
                                    self.counters.invalid_topology_reports + 1;
                                None
                            },
                        }
                    } else if header.packet_type.0 == 0x31 {
                        match PowerReport::read_from_bytes(data.as_slice()) {
                            Some(report) => {
                                self.counters.power_reports = self.counters.power_reports + 1;
                                Some(
                                    AppEvent::PowerReport {
                                        gateway_id: *gateway_id,
                                        pv_node_id: node,
                                        report,
                                    },
                                )
                            },
                            None => {
                                self.counters.invalid_power_reports =
                                    self.counters.invalid_power_reports + 1;
                                None
                            },
                        }
                    } else {
                        None
                    }
                }
            },
            TransportEvent::CommandExecuted {
                gateway_id,
                request_type,
                request,
                response_type,
                response,
            } => {
                if request_type.0 == 0x26 && response_type.0 == 0x27 {
                    self.node_table_command(*gateway_id, request, response)
                } else if request_type.0 == 0x06 && response_type.0 == 0x07 {
                    self.string_command(*gateway_id, request, response)
                } else {
                    None
                }
            },
            _ => None,
        };
        let mut out: Vec<AppEvent> = Vec::new();
        out.push(AppEvent::Transport(event));
        match extra {
            Some(e) => {
                out.push(e);
                proof {
                    assert(app_events_view(out@) =~= seq![out@[0]@, out@[1]@]);
                }
            },
            None => {
                proof {
                    assert(app_events_view(out@) =~= seq![out@[0]@]);
                }
            },
        }
        out
    }

    /// Decode a node table command pair into a node table page.
    fn node_table_command(
        &mut self,
        gateway_id: GatewayID,
        request: &Vec<u8>,
        response: &Vec<u8>,
    ) -> (extra: Option<AppEvent>)
        requires
            old(self).counters.room_for(1),
        ensures
            ({
                let c = old(self).counters;
                let c2 = final(self).counters;
                if request@.len() != 2 {
                    &&& c2 == Counters {
                        invalid_node_table_requests: (c.invalid_node_table_requests + 1) as u64,
                        ..c
                    }
                    &&& extra is None
                } else if !spec_node_table_response_shape(response@) || ((response@[0] as u16) << 8
                    | (response@[1] as u16)) != (response@.len() - 2) / 10 {
                    &&& c2 == Counters {
                        invalid_node_table_responses: (c.invalid_node_table_responses + 1) as u64,
                        ..c
                    }
                    &&& extra is None
                } else {
                    &&& c2 == c
                    &&& (extra matches Some(e) && (e@ matches AppEventModel::NodeTablePage {
                        gateway_id: g,
                        start_address,
                        nodes,
                    } && g == gateway_id && start_address.0 == ((request@[0] as u16) << 8 | (
                    request@[1] as u16)) as u16 && nodes.len() == (response@.len() - 2) / 10
                        && forall|k: int|
                        0 <= k < nodes.len() ==> spec_node_table_entry_of(
                            response@.subrange(2 + 10 * k, 12 + 10 * k),
                            #[trigger] nodes[k],
                        )))
                }
            }),
    {
        let req = match NodeTableRequest::read_from_bytes(request.as_slice()) {
            Some(q) => q,
            None => {
                self.counters.invalid_node_table_requests = self.counters.invalid_node_table_requests
                    + 1;
                return None;
            },
        };
        let resp = match NodeTableResponse::read_from_bytes(response.as_slice()) {
            Some(t) => t,
            None => {
                self.counters.invalid_node_table_responses =
                    self.counters.invalid_node_table_responses + 1;
                return None;
            },
        };
        if resp.entries.len() != resp.entries_count as usize {
            self.counters.invalid_node_table_responses = self.counters.invalid_node_table_responses
                + 1;
            return None;
        }
        Some(
            AppEvent::NodeTablePage {
                gateway_id,
                start_address: req.start_at,
                nodes: resp.entries,
            },
        )
    }

    /// Decode a string command pair into a string request.
    fn string_command(&mut self, gateway_id: GatewayID, request: &Vec<u8>, response: &Vec<u8>) -> (extra:
        Option<AppEvent>)
        requires
            old(self).counters.room_for(1),
        ensures
            ({
                let c = old(self).counters;
                let c2 = final(self).counters;
                let word = ((request@[0] as u16) << 8 | (request@[1] as u16)) as u16;
                if request@.len() < 2 || word == 0 || !valid_utf8(request@.skip(2))
                    || response@.len() != 0 {
                    &&& c2 == Counters {
                        invalid_string_commands: (c.invalid_string_commands + 1) as u64,
                        ..c
                    }
                    &&& extra is None
                } else {
                    &&& c2 == Counters { string_commands: (c.string_commands + 1) as u64, ..c }
                    &&& (extra matches Some(e) && e@ == AppEventModel::StringRequest {
                        gateway_id,
                        pv_node_id: NodeID(word),
                        request: decode_utf8(request@.skip(2)),
                    })
                }
            }),
    {
        if request.len() < 2 {
            self.counters.invalid_string_commands = self.counters.invalid_string_commands + 1;
            return None;
        }
        let word = (request[0] as u16) << 8 | (request[1] as u16);
        if word == 0 {
            self.counters.invalid_string_commands = self.counters.invalid_string_commands + 1;
            return None;
        }
        let mut tail: Vec<u8> = Vec::new();
        let mut i: usize = 2;
        while i < request.len()
            invariant
                2 <= i <= request@.len(),
                request@.len() >= 2,
                tail@ == request@.subrange(2, i as int),
            decreases request@.len() - i,
        {
            tail.push(request[i]);
            i = i + 1;
        }
        proof {
            assert(tail@ =~= request@.skip(2));
        }
        let text = match text::utf8_to_string(tail.as_slice()) {
            Some(t) => t,
            None => {
                self.counters.invalid_string_commands = self.counters.invalid_string_commands + 1;
                return None;
            },
        };
        if response.len() != 0 {
            self.counters.invalid_string_commands = self.counters.invalid_string_commands + 1;
            return None;
        }
        self.counters.string_commands = self.counters.string_commands + 1;
        proof {
            vstd::utf8::encode_utf8_decode_utf8(text@);
        }
        Some(AppEvent::StringRequest { gateway_id, pv_node_id: NodeID(word), request: text })
    }
}

} // verus!
