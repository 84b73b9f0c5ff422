//! The PV application layer: packet types and the fixed-layout payloads
//! carried by mesh packets.

mod receiver;

pub use receiver::{AppEvent, AppEventModel, Counters, Receiver};

use super::network::NodeAddress;
use super::slot_counter::SlotCounter;
use super::{LongAddress, ShortAddress, RSSI};
use vstd::prelude::*;

verus! {

/// A PV application packet type: a bare 8-bit discriminator.
#[derive(Debug, Copy, Clone, Eq, PartialEq, Structural, PartialOrd, Ord)]
pub struct PacketType(pub u8);

/// The display text of a packet type: the protocol name of a known type, or
/// the value in `0x`-prefixed uppercase hex.
pub open spec fn spec_packet_type_text(v: u8) -> Seq<char> {
    if v == 0x06 {
        "STRING_REQUEST"@
    } else if v == 0x07 {
        "STRING_RESPONSE"@
    } else if v == 0x09 {
        "TOPOLOGY_REPORT"@
    } else if v == 0x0D {
        "GATEWAY_RADIO_CONFIGURATION_REQUEST"@
    } else if v == 0x0E {
        "GATEWAY_RADIO_CONFIGURATION_RESPONSE"@
    } else if v == 0x13 {
        "PV_CONFIGURATION_REQUEST"@
    } else if v == 0x18 {
        "PV_CONFIGURATION_RESPONSE"@
    } else if v == 0x22 {
        "BROADCAST"@
    } else if v == 0x23 {
        "BROADCAST_ACK"@
    } else if v == 0x26 {
        "NODE_TABLE_REQUEST"@
    } else if v == 0x27 {
        "NODE_TABLE_RESPONSE"@
    } else if v == 0x2D {
        "LONG_NETWORK_STATUS_REQUEST"@
    } else if v == 0x2E {
        "NETWORK_STATUS_REQUEST"@
    } else if v == 0x2F {
        "NETWORK_STATUS_RESPONSE"@
    } else if v == 0x31 {
        "POWER_REPORT"@
    } else {
        crate::text::ascii_chars(
            seq![0x30u8, 0x78, crate::text::spec_hex_upper((v >> 4) as u8), crate::text::spec_hex_upper((v & 0xf) as u8)],
        )
    }
}

impl PacketType {
    /// The display text of this packet type.
    pub fn text(&self) -> (r: String)
        ensures
            r@ == spec_packet_type_text(self.0),
    {
        match self.0 {
            0x06 => {
                return "STRING_REQUEST".to_owned();
            }
            0x07 => {
                return "STRING_RESPONSE".to_owned();
            }
            0x09 => {
                return "TOPOLOGY_REPORT".to_owned();
            }
            0x0D => {
                return "GATEWAY_RADIO_CONFIGURATION_REQUEST".to_owned();
            }
            0x0E => {
                return "GATEWAY_RADIO_CONFIGURATION_RESPONSE".to_owned();
            }
            0x13 => {
                return "PV_CONFIGURATION_REQUEST".to_owned();
            }
            0x18 => {
                return "PV_CONFIGURATION_RESPONSE".to_owned();
            }
            0x22 => {
                return "BROADCAST".to_owned();
            }
            0x23 => {
                return "BROADCAST_ACK".to_owned();
            }
            0x26 => {
                return "NODE_TABLE_REQUEST".to_owned();
            }
            0x27 => {
                return "NODE_TABLE_RESPONSE".to_owned();
            }
            0x2D => {
                return "LONG_NETWORK_STATUS_REQUEST".to_owned();
            }
            0x2E => {
                return "NETWORK_STATUS_REQUEST".to_owned();
            }
            0x2F => {
                return "NETWORK_STATUS_RESPONSE".to_owned();
            }
            0x31 => {
                return "POWER_REPORT".to_owned();
            }
            _ => {}
        }
        let mut v: Vec<u8> = Vec::new();
        v.push(0x30);  // 0
        v.push(0x78);  // x
        let b = self.0;
        let hi = b >> 4;
        let lo = b & 0xf;
        assert(hi < 16 && lo < 16) by (bit_vector)
            requires
                hi == b >> 4 && lo == b & 0xf,
        ;
        v.push(crate::text::hex_upper(hi));
        v.push(crate::text::hex_upper(lo));
        proof {
            assert(v@ =~= seq![0x30u8, 0x78, crate::text::spec_hex_upper((b >> 4) as u8),
                crate::text::spec_hex_upper((b & 0xf) as u8)]);
        }
        crate::text::ascii_to_string(&v)
    }
}

/// A pair of 12-bit unsigned integers packed into three bytes.
#[derive(Debug, Copy, Clone)]
pub struct U12Pair(pub [u8; 3]);

/// The first value packed in three bytes: the first byte and the high nibble
/// of the second.
pub open spec fn spec_u12_first(b0: u8, b1: u8) -> u16 {
    ((b0 as u16) << 4 | (b1 as u16) >> 4) as u16
}

/// The second value packed in three bytes: the low nibble of the second byte
/// and the third.
pub open spec fn spec_u12_second(b1: u8, b2: u8) -> u16 {
    (((b1 as u16) & 0x0f) << 8 | (b2 as u16)) as u16
}

impl U12Pair {
    /// Unpack the two 12-bit values.
    pub fn unpack(&self) -> (r: (u16, u16))
        ensures
            r.0 == spec_u12_first(self.0[0], self.0[1]),
            r.1 == spec_u12_second(self.0[1], self.0[2]),
            r.0 <= 0xfff,
            r.1 <= 0xfff,
    {
        let b0 = self.0[0];
        let b1 = self.0[1];
        let b2 = self.0[2];
        let a = (b0 as u16) << 4 | (b1 as u16) >> 4;
        let b = ((b1 as u16) & 0x0f) << 8 | (b2 as u16);
        assert(a <= 0xfff && b <= 0xfff) by (bit_vector)
            requires
                a == (b0 as u16) << 4 | (b1 as u16) >> 4 && b == ((b1 as u16) & 0x0f) << 8 | (
                b2 as u16),
        ;
        (a, b)
    }

    /// Pack two 12-bit values; values above `0xfff` are rejected.
    pub fn pack(a: u16, b: u16) -> (r: Option<U12Pair>)
        ensures
            (a <= 0xfff && b <= 0xfff) <==> r is Some,
            r matches Some(p) ==> spec_u12_first(p.0[0], p.0[1]) == a && spec_u12_second(
                p.0[1],
                p.0[2],
            ) == b,
    {
        if a & 0xfff != a || b & 0xfff != b {
            proof {
                assert(a & 0xfff != a ==> a > 0xfff) by (bit_vector);
                assert(b & 0xfff != b ==> b > 0xfff) by (bit_vector);
            }
            None
        } else {
            proof {
                assert(a & 0xfff == a ==> a <= 0xfff) by (bit_vector);
                assert(b & 0xfff == b ==> b <= 0xfff) by (bit_vector);
            }
            let r0 = ((a << 4) >> 8) as u8;
            let r1 = ((a << 4) as u8) | ((b >> 8) as u8);
            let r2 = b as u8;
            assert(a <= 0xfff && b <= 0xfff ==> {
                &&& ((r0 as u16) << 4 | (r1 as u16) >> 4) == a
                &&& (((r1 as u16) & 0x0f) << 8 | (r2 as u16)) == b
            }) by (bit_vector)
                requires
                    r0 == ((a << 4) >> 8) as u8 && r1 == (((a << 4) as u8) | ((b >> 8) as u8))
                        && r2 == b as u8,
            ;
            Some(U12Pair([r0, r1, r2]))
        }
    }
}

/// The packed bytes are determined by the two 12-bit values: packing the
/// values a pair unpacks to returns the same three bytes, so the pair round
/// trip is lossless in both directions.
pub proof fn lemma_u12_round_trip(p: U12Pair, q: U12Pair)
    requires
        spec_u12_first(p.0[0], p.0[1]) == spec_u12_first(q.0[0], q.0[1]),
        spec_u12_second(p.0[1], p.0[2]) == spec_u12_second(q.0[1], q.0[2]),
    ensures
        p.0@ =~= q.0@,
{
    let (p0, p1, p2) = (p.0[0], p.0[1], p.0[2]);
    let (q0, q1, q2) = (q.0[0], q.0[1], q.0[2]);
    assert(p0 == q0 && p1 == q1 && p2 == q2) by (bit_vector)
        requires
            ((p0 as u16) << 4 | (p1 as u16) >> 4) == ((q0 as u16) << 4 | (q1 as u16) >> 4) && (((
            p1 as u16) & 0x0f) << 8 | (p2 as u16)) == (((q1 as u16) & 0x0f) << 8 | (q2 as u16)),
    ;
    assert(p.0@ =~= seq![p0, p1, p2]);
    assert(q.0@ =~= seq![q0, q1, q2]);
}

/// A periodic telemetry packet from an optimizer node.
#[derive(Debug, Copy, Clone)]
pub struct PowerReport {
    pub voltage_in_and_voltage_out: U12Pair,
    pub dc_dc_duty_cycle: u8,
    pub current_and_temperature: U12Pair,
    pub unknown: [u8; 3],
    pub slot_counter: SlotCounter,
    pub rssi: RSSI,
}

/// Whether thirteen bytes denote the given power report.
pub open spec fn spec_power_report_of(b: Seq<u8>, r: PowerReport) -> bool
    recommends
        b.len() == 13,
{
    &&& r.voltage_in_and_voltage_out.0@ == seq![b[0], b[1], b[2]]
    &&& r.dc_dc_duty_cycle == b[3]
    &&& r.current_and_temperature.0@ == seq![b[4], b[5], b[6]]
    &&& r.unknown@ == seq![b[7], b[8], b[9]]
    &&& r.slot_counter.0 == ((b[10] as u16) << 8 | (b[11] as u16)) as u16
    &&& r.rssi.0 == b[12]
}

impl PowerReport {
    /// Interpret a byte slice as a power report; any other length is
    /// rejected.
    ///
    /// The wire record is thirteen bytes: the packed voltage pair, the duty
    /// cycle, the packed current and temperature pair, three unknown bytes,
    /// the big-endian slot counter and the RSSI.
    pub fn read_from_bytes(bytes: &[u8]) -> (r: Option<PowerReport>)
        ensures
            r is Some <==> bytes@.len() == 13,
            r matches Some(p) ==> spec_power_report_of(bytes@, p),
    {
        if bytes.len() != 13 {
            return None;
        }
        let p = PowerReport {
            voltage_in_and_voltage_out: U12Pair([bytes[0], bytes[1], bytes[2]]),
            dc_dc_duty_cycle: bytes[3],
            current_and_temperature: U12Pair([bytes[4], bytes[5], bytes[6]]),
            unknown: [bytes[7], bytes[8], bytes[9]],
            slot_counter: SlotCounter((bytes[10] as u16) << 8 | (bytes[11] as u16)),
            rssi: RSSI(bytes[12]),
        };
        proof {
            assert(p.voltage_in_and_voltage_out.0@ =~= seq![bytes@[0], bytes@[1], bytes@[2]]);
            assert(p.current_and_temperature.0@ =~= seq![bytes@[4], bytes@[5], bytes@[6]]);
            assert(p.unknown@ =~= seq![bytes@[7], bytes@[8], bytes@[9]]);
        }
        Some(p)
    }
}

/// A topology report packet from an optimizer node.
#[derive(Debug, Copy, Clone)]
pub struct TopologyReport {
    pub short_address: ShortAddress,
    pub pv_node_id: NodeAddress,
    pub next_hop: NodeAddress,
    pub unknown_1: [u8; 2],
    pub long_address: LongAddress,
    pub rssi: RSSI,
    pub unknown_2: [u8; 5],
}

/// Whether twenty-two bytes denote the given topology report.
pub open spec fn spec_topology_report_of(b: Seq<u8>, r: TopologyReport) -> bool
    recommends
        b.len() == 22,
{
    &&& r.short_address.0 == ((b[0] as u16) << 8 | (b[1] as u16)) as u16
    &&& r.pv_node_id.0 == ((b[2] as u16) << 8 | (b[3] as u16)) as u16
    &&& r.next_hop.0 == ((b[4] as u16) << 8 | (b[5] as u16)) as u16
    &&& r.unknown_1@ == seq![b[6], b[7]]
    &&& r.long_address@ == b.subrange(8, 16)
    &&& r.rssi.0 == b[16]
    &&& r.unknown_2@ == seq![b[17], b[18], b[19], b[20], b[21]]
}

impl TopologyReport {
    /// Interpret a byte slice as a topology report; any other length is
    /// rejected.
    pub fn read_from_bytes(bytes: &[u8]) -> (r: Option<TopologyReport>)
        ensures
            r is Some <==> bytes@.len() == 22,
            r matches Some(t) ==> spec_topology_report_of(bytes@, t),
    {
        if bytes.len() != 22 {
            return None;
        }
        let t = TopologyReport {
            short_address: ShortAddress((bytes[0] as u16) << 8 | (bytes[1] as u16)),
            pv_node_id: NodeAddress((bytes[2] as u16) << 8 | (bytes[3] as u16)),
            next_hop: NodeAddress((bytes[4] as u16) << 8 | (bytes[5] as u16)),
            unknown_1: [bytes[6], bytes[7]],
            long_address: LongAddress(
                [bytes[8], bytes[9], bytes[10], bytes[11], bytes[12], bytes[13], bytes[14], bytes[15]],
            ),
            rssi: RSSI(bytes[16]),
            unknown_2: [bytes[17], bytes[18], bytes[19], bytes[20], bytes[21]],
        };
        proof {
            assert(t.unknown_1@ =~= seq![bytes@[6], bytes@[7]]);
            assert(t.long_address@ =~= bytes@.subrange(8, 16));
            assert(t.unknown_2@ =~= seq![bytes@[17], bytes@[18], bytes@[19], bytes@[20], bytes@[21]]);
        }
        Some(t)
    }
}

/// A node table request payload: the node address to start listing at.
#[derive(Debug, Copy, Clone, Eq, PartialEq, Structural)]
pub struct NodeTableRequest {
    pub start_at: NodeAddress,
}

impl NodeTableRequest {
    /// Interpret a byte slice as a node table request; any other length is
    /// rejected.
    pub fn read_from_bytes(bytes: &[u8]) -> (r: Option<NodeTableRequest>)
        ensures
            r is Some <==> bytes@.len() == 2,
            r matches Some(q) ==> q.start_at.0 == ((bytes@[0] as u16) << 8 | (
            bytes@[1] as u16)) as u16,
    {
        if bytes.len() != 2 {
            return None;
        }
        Some(NodeTableRequest { start_at: NodeAddress((bytes[0] as u16) << 8 | (bytes[1] as u16)) })
    }
}

/// One entry of a node table response: a hardware address and the node
/// address it is assigned.
#[derive(Debug, Copy, Clone)]
pub struct NodeTableResponseEntry {
    pub long_address: LongAddress,
    pub node_id: NodeAddress,
}

/// Whether ten bytes denote the given node table entry.
pub open spec fn spec_node_table_entry_of(b: Seq<u8>, e: NodeTableResponseEntry) -> bool
    recommends
        b.len() == 10,
{
    &&& e.long_address@ == b.subrange(0, 8)
    &&& e.node_id.0 == ((b[8] as u16) << 8 | (b[9] as u16)) as u16
}

/// A node table response payload: the total entry count and one page of
/// entries.
#[derive(Debug, Clone)]
pub struct NodeTableResponse {
    pub entries_count: u16,
    pub entries: Vec<NodeTableResponseEntry>,
}

/// Whether a byte sequence has the shape of a node table response: a
/// big-endian count and a whole number of ten-byte entries.
pub open spec fn spec_node_table_response_shape(b: Seq<u8>) -> bool {
    b.len() >= 2 && (b.len() - 2) % 10 == 0
}

impl NodeTableResponse {
    /// Interpret a byte slice as a node table response. A slice shorter than
    /// the count word or not holding a whole number of entries is rejected.
    pub fn read_from_bytes(bytes: &[u8]) -> (r: Option<NodeTableResponse>)
        ensures
            r is Some <==> spec_node_table_response_shape(bytes@),
            r matches Some(t) ==> {
                &&& t.entries_count == ((bytes@[0] as u16) << 8 | (bytes@[1] as u16)) as u16
                &&& t.entries@.len() == (bytes@.len() - 2) / 10
                &&& forall|k: int|
                    0 <= k < t.entries@.len() ==> spec_node_table_entry_of(
                        bytes@.subrange(2 + 10 * k, 12 + 10 * k),
                        #[trigger] t.entries@[k],
                    )
            },
    {
        if bytes.len() < 2 || (bytes.len() - 2) % 10 != 0 {
            return None;
        }
        let count = (bytes[0] as u16) << 8 | (bytes[1] as u16);
        let n = (bytes.len() - 2) / 10;
        proof {
            vstd::arithmetic::div_mod::lemma_fundamental_div_mod(bytes@.len() - 2, 10);
        }
        let mut entries: Vec<NodeTableResponseEntry> = Vec::new();
        let mut k: usize = 0;
        while k < n
            invariant
                0 <= k <= n,
                n == (bytes@.len() - 2) / 10,
                bytes@.len() == 2 + 10 * n,
                bytes@.len() <= usize::MAX,
                entries@.len() == k,
                forall|j: int|
                    0 <= j < k ==> spec_node_table_entry_of(
                        bytes@.subrange(2 + 10 * j, 12 + 10 * j),
                        #[trigger] entries@[j],
                    ),
            decreases n - k,
        {
            let base = 2 + 10 * k;
            let e = NodeTableResponseEntry {
                long_address: LongAddress(
                    [
                        bytes[base],
                        bytes[base + 1],
                        bytes[base + 2],
                        bytes[base + 3],
                        bytes[base + 4],
                        bytes[base + 5],
                        bytes[base + 6],
                        bytes[base + 7],
                    ],
                ),
                node_id: NodeAddress((bytes[base + 8] as u16) << 8 | (bytes[base + 9] as u16)),
            };
            proof {
                assert(e.long_address@ =~= bytes@.subrange(2 + 10 * k, 12 + 10 * k).subrange(0, 8));
            }
            entries.push(e);
            k = k + 1;
        }
        Some(NodeTableResponse { entries_count: count, entries })
    }
}

} // verus!
