//! The gateway transport layer: frame payload records and the stateful
//! receiver that demultiplexes frames into semantic events.

mod receiver;

pub use receiver::{
    transport_step,
    Counters,
    Receiver,
    TransportEvent,
    TransportEventModel,
    TransportModel,
};

use crate::pv;
use crate::pv::network::{spec_packets, ReceivedPackets};
use crate::pv::{PacketType, SlotCounter};
use crate::link::{Address, GatewayID};
use vstd::prelude::*;

verus! {

/// A command sequence number, pairing a command request with its response.
#[derive(Debug, Copy, Clone, Eq, PartialEq, Structural, PartialOrd, Ord)]
pub struct CommandSequenceNumber(pub u8);

/// A command request frame payload header.
#[derive(Debug, Copy, Clone)]
pub struct CommandRequest {
    pub unknown: [u8; 3],
    pub packet_type: PacketType,
    pub sequence_number: CommandSequenceNumber,
}

/// Whether the first five bytes of a sequence denote the given command
/// request header.
pub open spec fn spec_command_request_of(b: Seq<u8>, r: CommandRequest) -> bool
    recommends
        b.len() >= 5,
{
    &&& r.unknown@ == seq![b[0], b[1], b[2]]
    &&& r.packet_type.0 == b[3]
    &&& r.sequence_number.0 == b[4]
}

impl CommandRequest {
    /// Interpret the first five bytes of a slice as a command request
    /// header; a shorter slice is rejected.
    pub fn read_from_prefix(bytes: &[u8]) -> (r: Option<CommandRequest>)
        ensures
            r is Some <==> bytes@.len() >= 5,
            r matches Some(h) ==> spec_command_request_of(bytes@, h),
    {
        if bytes.len() < 5 {
            return None;
        }
        let h = CommandRequest {
            unknown: [bytes[0], bytes[1], bytes[2]],
            packet_type: PacketType(bytes[3]),
            sequence_number: CommandSequenceNumber(bytes[4]),
        };
        proof {
            assert(h.unknown@ =~= seq![bytes@[0], bytes@[1], bytes@[2]]);
        }
        Some(h)
    }
}

/// A command response frame payload header.
#[derive(Debug, Copy, Clone)]
pub struct CommandResponse {
    pub unknown_1: u8,
    pub tx_buffers_free: u8,
    pub unknown_2: u8,
    pub packet_type: PacketType,
    pub command_sequence_number: CommandSequenceNumber,
}

/// Whether the first five bytes of a sequence denote the given command
/// response header.
pub open spec fn spec_command_response_of(b: Seq<u8>, r: CommandResponse) -> bool
    recommends
        b.len() >= 5,
{
    &&& r.unknown_1 == b[0]
    &&& r.tx_buffers_free == b[1]
    &&& r.unknown_2 == b[2]
    &&& r.packet_type.0 == b[3]
    &&& r.command_sequence_number.0 == b[4]
}

impl CommandResponse {
    /// Interpret the first five bytes of a slice as a command response
    /// header; a shorter slice is rejected.
    pub fn read_from_prefix(bytes: &[u8]) -> (r: Option<CommandResponse>)
        ensures
            r is Some <==> bytes@.len() >= 5,
            r matches Some(h) ==> spec_command_response_of(bytes@, h),
    {
        if bytes.len() < 5 {
            return None;
        }
        Some(
            CommandResponse {
                unknown_1: bytes[0],
                tx_buffers_free: bytes[1],
                unknown_2: bytes[2],
                packet_type: PacketType(bytes[3]),
                command_sequence_number: CommandSequenceNumber(bytes[4]),
            },
        )
    }
}

/// A receive request frame payload.
#[derive(Debug, Copy, Clone)]
pub struct ReceiveRequest {
    pub unknown_1: [u8; 2],
    pub packet_number: u16,
    pub unknown_2: u8,
}

/// Whether five bytes denote the given receive request.
pub open spec fn spec_receive_request_of(b: Seq<u8>, r: ReceiveRequest) -> bool
    recommends
        b.len() == 5,
{
    &&& r.unknown_1@ == seq![b[0], b[1]]
    &&& r.packet_number == ((b[2] as u16) << 8 | (b[3] as u16)) as u16
    &&& r.unknown_2 == b[4]
}

impl ReceiveRequest {
    /// Interpret a byte slice as a receive request; any other length is
    /// rejected.
    pub fn read_from_bytes(bytes: &[u8]) -> (r: Option<ReceiveRequest>)
        ensures
            r is Some <==> bytes@.len() == 5,
            r matches Some(q) ==> spec_receive_request_of(bytes@, q),
    {
        if bytes.len() != 5 {
            return None;
        }
        let q = ReceiveRequest {
            unknown_1: [bytes[0], bytes[1]],
            packet_number: (bytes[2] as u16) << 8 | (bytes[3] as u16),
            unknown_2: bytes[4],
        };
        proof {
            assert(q.unknown_1@ =~= seq![bytes@[0], bytes@[1]]);
        }
        Some(q)
    }
}

/// Reconstruct a packet number from its transmitted low byte: the stored
/// expectation supplies the high byte, which is carried one further (wrapping)
/// when the low byte went backwards.
pub open spec fn spec_interpret_packet_number_lo(new_lo: u8, previous: u16) -> u16 {
    let prev_hi = (previous >> 8) as u8;
    let prev_lo = (previous & 0xff) as u8;
    let new_hi: u8 = if new_lo >= prev_lo {
        prev_hi
    } else {
        ((prev_hi + 1) % 256) as u8
    };
    ((new_hi as u16) << 8 | (new_lo as u16)) as u16
}

/// Reconstruct a packet number from its transmitted low byte and the stored
/// expectation.
pub fn interpret_packet_number_lo(new_lo: u8, previous: u16) -> (r: u16)
    ensures
        r == spec_interpret_packet_number_lo(new_lo, previous),
{
    let prev_hi = (previous >> 8) as u8;
    let prev_lo = (previous & 0xff) as u8;
    let new_hi = if new_lo >= prev_lo {
        prev_hi
    } else {
        prev_hi.wrapping_add(1)
    };
    (new_hi as u16) << 8 | (new_lo as u16)
}

/// The reasons a receive response payload is rejected.
#[derive(Debug, Copy, Clone, Eq, PartialEq, Structural)]
pub enum InvalidReceiveResponse {
    /// The payload ended before a field: at least this many bytes were
    /// expected.
    TooShort(usize),
    /// The status bitmask does not match the known pattern.
    UnknownStatusType(u16),
}

/// A receive response frame payload, decoded into its most general form.
#[derive(Debug, Copy, Clone)]
pub struct ReceiveResponse {
    pub rx_buffers_used: Option<u8>,
    pub tx_buffers_free: Option<u8>,
    pub unknown_1: Option<[u8; 2]>,
    pub unknown_2: Option<[u8; 2]>,
    pub packet_number: u16,
    pub slot_counter: SlotCounter,
}

/// A two-byte field as a sequence, for comparison.
pub open spec fn spec_opt_pair(v: Option<[u8; 2]>) -> Option<Seq<u8>> {
    match v {
        Some(a) => Some(a@),
        None => None,
    }
}

impl PartialEq for ReceiveResponse {
    fn eq(&self, other: &ReceiveResponse) -> (r: bool)
        ensures
            r == spec_receive_response_eq(*self, *other),
    {
        let u1 = match (self.unknown_1, other.unknown_1) {
            (None, None) => true,
            (Some(a), Some(b)) => {
                let e = a[0] == b[0] && a[1] == b[1];
                proof {
                    if e {
                        assert(a@ =~= b@);
                    }
                }
                e
            },
            _ => false,
        };
        let u2 = match (self.unknown_2, other.unknown_2) {
            (None, None) => true,
            (Some(a), Some(b)) => {
                let e = a[0] == b[0] && a[1] == b[1];
                proof {
                    if e {
                        assert(a@ =~= b@);
                    }
                }
                e
            },
            _ => false,
        };
        self.rx_buffers_used == other.rx_buffers_used && self.tx_buffers_free
            == other.tx_buffers_free && u1 && u2 && self.packet_number == other.packet_number
            && self.slot_counter == other.slot_counter
    }
}

/// Equality of receive responses: every field equal, the two-byte fields
/// compared by content.
pub open spec fn spec_receive_response_eq(a: ReceiveResponse, b: ReceiveResponse) -> bool {
    &&& a.rx_buffers_used == b.rx_buffers_used
    &&& a.tx_buffers_free == b.tx_buffers_free
    &&& spec_opt_pair(a.unknown_1) == spec_opt_pair(b.unknown_1)
    &&& spec_opt_pair(a.unknown_2) == spec_opt_pair(b.unknown_2)
    &&& a.packet_number == b.packet_number
    &&& a.slot_counter == b.slot_counter
}

impl vstd::std_specs::cmp::PartialEqSpecImpl for ReceiveResponse {
    open spec fn obeys_eq_spec() -> bool {
        true
    }

    open spec fn eq_spec(&self, other: &ReceiveResponse) -> bool {
        spec_receive_response_eq(*self, *other)
    }
}

impl Eq for ReceiveResponse {

}

/// The result a receive response payload parses to: the decoded record and
/// the inline packet bytes that follow it, or the rejection.
pub open spec fn spec_receive_response(b: Seq<u8>, previous: u16) -> Result<
    (ReceiveResponse, Seq<u8>),
    InvalidReceiveResponse,
> {
    if b.len() < 5 {
        Err(InvalidReceiveResponse::TooShort(5))
    } else {
        let status = ((b[0] as u16) << 8 | (b[1] as u16)) as u16;
        if status & 0xffe0 != 0x00e0 {
            Err(InvalidReceiveResponse::UnknownStatusType(status))
        } else {
            let p0 = 2int;
            let p1 = if status & 0x0001 == 0 {
                p0 + 1
            } else {
                p0
            };
            let p2 = if status & 0x0002 == 0 {
                p1 + 1
            } else {
                p1
            };
            let p3 = if status & 0x0004 == 0 {
                p2 + 2
            } else {
                p2
            };
            let p4 = if status & 0x0008 == 0 {
                p3 + 2
            } else {
                p3
            };
            let p5 = if status & 0x0010 == 0 {
                p4 + 2
            } else {
                p4 + 1
            };
            if b.len() < p5 {
                Err(InvalidReceiveResponse::TooShort((b.len() + 1) as usize))
            } else if b.len() < p5 + 2 {
                Err(InvalidReceiveResponse::TooShort((b.len() + 2) as usize))
            } else {
                let record = ReceiveResponse {
                    rx_buffers_used: if status & 0x0001 == 0 {
                        Some(b[p0])
                    } else {
                        None
                    },
                    tx_buffers_free: if status & 0x0002 == 0 {
                        Some(b[p1])
                    } else {
                        None
                    },
                    unknown_1: if status & 0x0004 == 0 {
                        Some([b[p2], b[p2 + 1]])
                    } else {
                        None
                    },
                    unknown_2: if status & 0x0008 == 0 {
                        Some([b[p3], b[p3 + 1]])
                    } else {
                        None
                    },
                    packet_number: if status & 0x0010 == 0 {
                        ((b[p4] as u16) << 8 | (b[p4 + 1] as u16)) as u16
                    } else {
                        spec_interpret_packet_number_lo(b[p4], previous)
                    },
                    slot_counter: SlotCounter(((b[p5] as u16) << 8 | (b[p5 + 1] as u16)) as u16),
                };
                Ok((record, b.skip(p5 + 2)))
            }
        }
    }
}

impl ReceiveResponse {
    /// Attempt to interpret a byte slice as a receive response, using the
    /// stored packet-number expectation for reference.
    ///
    /// The first two bytes are a status bitmask; each clear bit among the
    /// five lowest makes one optional field present. The two bytes after the
    /// optional fields are the slot counter, and whatever follows them is
    /// handed back as the inline packet bytes.
    pub fn read_from_bytes(bytes: &[u8], previous: u16) -> (r: Result<
        (ReceiveResponse, ReceivedPackets),
        InvalidReceiveResponse,
    >)
        requires
            bytes@.len() + 2 <= usize::MAX,
        ensures
            match r {
                Ok((record, packets)) => spec_receive_response(bytes@, previous) == Ok::<
                    _,
                    InvalidReceiveResponse,
                >((record, packets@)),
                Err(e) => spec_receive_response(bytes@, previous) == Err::<
                    (ReceiveResponse, Seq<u8>),
                    _,
                >(e),
            },
    {
        if bytes.len() < 5 {
            return Err(InvalidReceiveResponse::TooShort(5));
        }
        let status = (bytes[0] as u16) << 8 | (bytes[1] as u16);
        if status & 0xffe0 != 0x00e0 {
            return Err(InvalidReceiveResponse::UnknownStatusType(status));
        }
        let mut pos: usize = 2;

        let rx_buffers_used: Option<u8> = if status & 0x0001 == 0 {
            if bytes.len() < pos + 1 {
                return Err(InvalidReceiveResponse::TooShort(bytes.len() + 1));
            }
            let v = bytes[pos];
            pos = pos + 1;
            Some(v)
        } else {
            None
        };

        let tx_buffers_free: Option<u8> = if status & 0x0002 == 0 {
            if bytes.len() < pos + 1 {
                return Err(InvalidReceiveResponse::TooShort(bytes.len() + 1));
            }
            let v = bytes[pos];
            pos = pos + 1;
            Some(v)
        } else {
            None
        };

        let unknown_1: Option<[u8; 2]> = if status & 0x0004 == 0 {
            if bytes.len() < pos + 2 {
                return Err(InvalidReceiveResponse::TooShort(bytes.len() + 1));
            }
            let v = [bytes[pos], bytes[pos + 1]];
            pos = pos + 2;
            Some(v)
        } else {
            None
        };

        let unknown_2: Option<[u8; 2]> = if status & 0x0008 == 0 {
            if bytes.len() < pos + 2 {
                return Err(InvalidReceiveResponse::TooShort(bytes.len() + 1));
            }
            let v = [bytes[pos], bytes[pos + 1]];
            pos = pos + 2;
            Some(v)
        } else {
            None
        };

        let packet_number: u16 = if status & 0x0010 == 0 {
            if bytes.len() < pos + 2 {
                return Err(InvalidReceiveResponse::TooShort(bytes.len() + 1));
            }
            let v = (bytes[pos] as u16) << 8 | (bytes[pos + 1] as u16);
            pos = pos + 2;
            v
        } else {
            if bytes.len() < pos + 1 {
                return Err(InvalidReceiveResponse::TooShort(bytes.len() + 1));
            }
            let v = interpret_packet_number_lo(bytes[pos], previous);
            pos = pos + 1;
            v
        };

        if bytes.len() < pos + 2 {
            return Err(InvalidReceiveResponse::TooShort(bytes.len() + 2));
        }
        let slot_counter = SlotCounter((bytes[pos] as u16) << 8 | (bytes[pos + 1] as u16));
        pos = pos + 2;

        let mut rest: Vec<u8> = Vec::new();
        let mut i: usize = pos;
        while i < bytes.len()
            invariant
                pos <= i <= bytes@.len(),
                rest@ == bytes@.subrange(pos as int, i as int),
            decreases bytes@.len() - i,
        {
            rest.push(bytes[i]);
            i = i + 1;
        }
        let record = ReceiveResponse {
            rx_buffers_used,
            tx_buffers_free,
            unknown_1,
            unknown_2,
            packet_number,
            slot_counter,
        };
        proof {
            assert(rest@ =~= bytes@.skip(pos as int));
            assert(spec_receive_response(bytes@, previous) matches Ok(v) && v.0 == record && v.1
                == rest@);
        }
        Ok((record, ReceivedPackets(rest)))
    }
}

/// An identify or enumeration response frame payload: a hardware address and
/// the gateway's assigned wire address.
#[derive(Debug, Copy, Clone)]
pub struct IdentifyResponse {
    pub pv_long_address: pv::LongAddress,
    pub gateway_address: [u8; 2],
}

/// Whether ten bytes denote the given identify response.
pub open spec fn spec_identify_response_of(b: Seq<u8>, r: IdentifyResponse) -> bool
    recommends
        b.len() == 10,
{
    &&& r.pv_long_address@ == b.subrange(0, 8)
    &&& r.gateway_address@ == seq![b[8], b[9]]
}

impl IdentifyResponse {
    /// Interpret a byte slice as an identify response; any other length is
    /// rejected.
    pub fn read_from_bytes(bytes: &[u8]) -> (r: Option<IdentifyResponse>)
        ensures
            r is Some <==> bytes@.len() == 10,
            r matches Some(p) ==> spec_identify_response_of(bytes@, p),
    {
        if bytes.len() != 10 {
            return None;
        }
        let p = IdentifyResponse {
            pv_long_address: pv::LongAddress(
                [bytes[0], bytes[1], bytes[2], bytes[3], bytes[4], bytes[5], bytes[6], bytes[7]],
            ),
            gateway_address: [bytes[8], bytes[9]],
        };
        proof {
            assert(p.pv_long_address@ =~= bytes@.subrange(0, 8));
            assert(p.gateway_address@ =~= seq![bytes@[8], bytes@[9]]);
        }
        Some(p)
    }

    /// The gateway ID of the embedded wire address, when its direction bit
    /// names the controller-to-gateway direction.
    pub fn gateway_id(&self) -> (r: Option<GatewayID>)
        ensures
            ({
                let word = ((self.gateway_address@[0] as u16) << 8 | (
                self.gateway_address@[1] as u16)) as u16;
                match crate::link::spec_address_of_word(word) {
                    Address::ToGateway(id) => r == Some(id),
                    Address::FromGateway(_) => r is None,
                }
            }),
    {
        match Address::from_bytes(self.gateway_address[0], self.gateway_address[1]) {
            Address::FromGateway(_) => None,
            Address::ToGateway(id) => Some(id),
        }
    }
}

/// An enumeration start request frame payload.
#[derive(Debug, Copy, Clone)]
pub struct EnumerationStartRequest {
    pub unknown: [u8; 4],
    pub enumeration_address: [u8; 2],
}

/// Whether six bytes denote the given enumeration start request.
pub open spec fn spec_enumeration_start_request_of(b: Seq<u8>, r: EnumerationStartRequest) -> bool
    recommends
        b.len() == 6,
{
    &&& r.unknown@ == seq![b[0], b[1], b[2], b[3]]
    &&& r.enumeration_address@ == seq![b[4], b[5]]
}

impl EnumerationStartRequest {
    /// Interpret a byte slice as an enumeration start request; any other
    /// length is rejected.
    pub fn read_from_bytes(bytes: &[u8]) -> (r: Option<EnumerationStartRequest>)
        ensures
            r is Some <==> bytes@.len() == 6,
            r matches Some(p) ==> spec_enumeration_start_request_of(bytes@, p),
    {
        if bytes.len() != 6 {
            return None;
        }
        let p = EnumerationStartRequest {
            unknown: [bytes[0], bytes[1], bytes[2], bytes[3]],
            enumeration_address: [bytes[4], bytes[5]],
        };
        proof {
            assert(p.unknown@ =~= seq![bytes@[0], bytes@[1], bytes@[2], bytes@[3]]);
            assert(p.enumeration_address@ =~= seq![bytes@[4], bytes@[5]]);
        }
        Some(p)
    }

    /// The gateway ID enumeration will hand out, when the embedded wire
    /// address names the controller-to-gateway direction.
    pub fn enumeration_gateway_id(&self) -> (r: Option<GatewayID>)
        ensures
            ({
                let word = ((self.enumeration_address@[0] as u16) << 8 | (
                self.enumeration_address@[1] as u16)) as u16;
                match crate::link::spec_address_of_word(word) {
                    Address::ToGateway(id) => r == Some(id),
                    Address::FromGateway(_) => r is None,
                }
            }),
    {
        match Address::from_bytes(self.enumeration_address[0], self.enumeration_address[1]) {
            Address::FromGateway(_) => None,
            Address::ToGateway(id) => Some(id),
        }
    }
}

} // verus!
