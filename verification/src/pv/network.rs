//! The PV network layer: node identifiers and the received-packet stream
//! carried inside receive responses.

use super::application::PacketType;
use super::{ShortAddress, DSN};
use crate::text;
use vstd::prelude::*;

verus! {

/// A 16-bit PV network layer node ID; zero is reserved and is not an ID.
#[derive(Debug, Copy, Clone, Eq, PartialEq, Structural, PartialOrd, Ord)]
pub struct NodeID(pub u16);

impl NodeID {
    /// Whether this ID is well formed: nonzero.
    pub open spec fn wf(self) -> bool {
        self.0 != 0
    }

    /// The gateway's own node ID.
    pub fn gateway() -> (r: NodeID)
        ensures
            r.0 == 1,
    {
        NodeID(1)
    }

    /// The largest node ID.
    pub fn max() -> (r: NodeID)
        ensures
            r.0 == 0xffff,
    {
        NodeID(0xffff)
    }

    /// Accept a 16-bit value as a node ID; zero is rejected.
    pub fn new(value: u16) -> (r: Option<NodeID>)
        ensures
            value != 0 ==> r == Some(NodeID(value)),
            value == 0 ==> r is None,
            r matches Some(id) ==> id.wf(),
    {
        if value == 0 {
            None
        } else {
            Some(NodeID(value))
        }
    }

    /// The next node ID, or `None` past the largest one.
    pub fn successor(&self) -> (r: Option<NodeID>)
        ensures
            self.0 < 0xffff ==> r == Some(NodeID((self.0 + 1) as u16)),
            self.0 == 0xffff ==> r is None,
    {
        if self.0 == 0xffff {
            None
        } else {
            Some(NodeID(self.0 + 1))
        }
    }

    /// The text of this ID: `0x` and four uppercase hex digits.
    pub fn text(&self) -> (r: String)
        ensures
            r@ == text::ascii_chars(spec_node_id_text(self.0)),
    {
        let v = node_id_text_bytes(self.0);
        text::ascii_to_string(&v)
    }

    /// The diagnostic text of this ID: the type name around [`NodeID::text`].
    pub fn debug_text(&self) -> (r: String)
        ensures
            r@ == text::ascii_chars(
                seq![0x4eu8, 0x6f, 0x64, 0x65, 0x49, 0x44, 0x28] + spec_node_id_text(self.0)
                    + seq![0x29u8],
            ),
    {
        let mut v: Vec<u8> = Vec::new();
        v.push(0x4e);  // N
        v.push(0x6f);  // o
        v.push(0x64);  // d
        v.push(0x65);  // e
        v.push(0x49);  // I
        v.push(0x44);  // D
        v.push(0x28);  // (
        let mut h = node_id_text_bytes(self.0);
        v.append(&mut h);
        v.push(0x29);  // )
        proof {
            assert(v@ =~= seq![0x4eu8, 0x6f, 0x64, 0x65, 0x49, 0x44, 0x28] + spec_node_id_text(
                self.0,
            ) + seq![0x29u8]);
        }
        text::ascii_to_string(&v)
    }
}

/// The `0x`-prefixed uppercase hex text of a 16-bit value, zero-padded to
/// four digits.
pub open spec fn spec_node_id_text(v: u16) -> Seq<u8> {
    seq![
        0x30u8,
        0x78u8,
        text::spec_hex_upper((v >> 12) as u8),
        text::spec_hex_upper(((v >> 8) & 0xf) as u8),
        text::spec_hex_upper(((v >> 4) & 0xf) as u8),
        text::spec_hex_upper((v & 0xf) as u8),
    ]
}

/// Emit the `0x`-prefixed four-digit uppercase hex text of a 16-bit value.
fn node_id_text_bytes(v: u16) -> (r: Vec<u8>)
    ensures
        r@ == spec_node_id_text(v),
        forall|i: int| 0 <= i < r@.len() ==> r@[i] < 0x80,
{
    let mut out: Vec<u8> = Vec::new();
    out.push(0x30);  // 0
    out.push(0x78);  // x
    let n3 = (v >> 12) as u8;
    let n2 = ((v >> 8) & 0xf) as u8;
    let n1 = ((v >> 4) & 0xf) as u8;
    let n0 = (v & 0xf) as u8;
    assert(n3 < 16 && n2 < 16 && n1 < 16 && n0 < 16) by (bit_vector)
        requires
            n3 == (v >> 12) as u8 && n2 == ((v >> 8) & 0xf) as u8 && n1 == ((v >> 4) & 0xf) as u8
                && n0 == (v & 0xf) as u8,
    ;
    out.push(text::hex_upper(n3));
    out.push(text::hex_upper(n2));
    out.push(text::hex_upper(n1));
    out.push(text::hex_upper(n0));
    proof {
        assert(out@ =~= spec_node_id_text(v));
    }
    out
}

/// A 16-bit PV network layer node address: either a `NodeID` or the reserved
/// zero value.
#[derive(Debug, Copy, Clone, Eq, PartialEq, Structural, PartialOrd, Ord)]
pub struct NodeAddress(pub u16);

impl NodeAddress {
    /// The reserved zero address.
    pub fn zero() -> (r: NodeAddress)
        ensures
            r.0 == 0,
    {
        NodeAddress(0)
    }

    /// The gateway's own address.
    pub fn gateway() -> (r: NodeAddress)
        ensures
            r.0 == 1,
    {
        NodeAddress(1)
    }

    /// The node ID this address denotes, unless it is the reserved zero.
    pub fn node_id(&self) -> (r: Option<NodeID>)
        ensures
            self.0 != 0 ==> r == Some(NodeID(self.0)),
            self.0 == 0 ==> r is None,
    {
        NodeID::new(self.0)
    }

    /// The address of a node ID, or the reserved zero for `None`.
    pub fn of_node_id(id: Option<NodeID>) -> (r: NodeAddress)
        ensures
            r.0 == (match id {
                Some(n) => n.0,
                None => 0,
            }),
    {
        match id {
            Some(n) => NodeAddress(n.0),
            None => NodeAddress(0),
        }
    }
}

/// The fixed seven-byte header in front of each packet inside a receive
/// response.
#[derive(Debug, Copy, Clone, Eq, PartialEq, Structural)]
pub struct ReceivedPacketHeader {
    pub packet_type: PacketType,
    pub node_address: NodeAddress,
    pub short_address: ShortAddress,
    pub dsn: DSN,
    pub data_length: u8,
}

/// The header the first seven bytes of a sequence denote.
pub open spec fn spec_packet_header(b: Seq<u8>) -> ReceivedPacketHeader
    recommends
        b.len() >= 7,
{
    ReceivedPacketHeader {
        packet_type: PacketType(b[0]),
        node_address: NodeAddress(((b[1] as u16) << 8 | (b[2] as u16)) as u16),
        short_address: ShortAddress(((b[3] as u16) << 8 | (b[4] as u16)) as u16),
        dsn: DSN(b[5]),
        data_length: b[6],
    }
}

/// An error designating a packet cut short by the end of its carrier.
#[derive(Debug, Copy, Clone, Eq, PartialEq, Structural)]
pub struct PacketTooShortError;

/// The packets a receive-response tail carries: each is a seven-byte header
/// followed by `data_length` bytes of data. The boolean is true when the
/// tail ends inside a packet, which ends the iteration.
pub open spec fn spec_packets(data: Seq<u8>) -> (Seq<(ReceivedPacketHeader, Seq<u8>)>, bool)
    decreases data.len(),
{
    if data.len() == 0 {
        (Seq::empty(), false)
    } else if data.len() < 7 {
        (Seq::empty(), true)
    } else {
        let header = spec_packet_header(data);
        let rest = data.skip(7);
        if rest.len() < header.data_length {
            (Seq::empty(), true)
        } else {
            let (tail, cut) = spec_packets(rest.skip(header.data_length as int));
            (seq![(header, rest.take(header.data_length as int))] + tail, cut)
        }
    }
}

/// A cursor over zero or more received packets.
#[derive(Debug, Clone)]
pub struct ReceivedPackets(pub Vec<u8>);

impl View for ReceivedPackets {
    type V = Seq<u8>;

    open spec fn view(&self) -> Seq<u8> {
        self.0@
    }
}

impl ReceivedPackets {
    /// Split off the next packet: its header and its data. Returns `None` at
    /// the end of the tail, and an error once for a packet cut short, which
    /// consumes the rest.
    pub fn next(&mut self) -> (r: Option<
        Result<(ReceivedPacketHeader, Vec<u8>), PacketTooShortError>,
    >)
        ensures
            ({
                let (packets, cut) = spec_packets(old(self)@);
                match r {
                    None => old(self)@.len() == 0 && final(self)@ == old(self)@,
                    Some(Err(_)) => packets.len() == 0 && cut && final(self)@.len() == 0,
                    Some(Ok((header, data))) => packets.len() > 0 && header == packets[0].0
                        && data@ == packets[0].1 && final(self)@ == old(self)@.skip(
                        7 + data@.len() as int,
                    ),
                }
            }),
    {
        if self.0.len() == 0 {
            return None;
        }
        if self.0.len() < 7 {
            self.0.clear();
            return Some(Err(PacketTooShortError));
        }
        let header = ReceivedPacketHeader {
            packet_type: PacketType(self.0[0]),
            node_address: NodeAddress((self.0[1] as u16) << 8 | (self.0[2] as u16)),
            short_address: ShortAddress((self.0[3] as u16) << 8 | (self.0[4] as u16)),
            dsn: DSN(self.0[5]),
            data_length: self.0[6],
        };
        let dl = header.data_length as usize;
        if self.0.len() - 7 < dl {
            self.0.clear();
            return Some(Err(PacketTooShortError));
        }
        let mut data: Vec<u8> = Vec::new();
        let mut i: usize = 7;
        while i < 7 + dl
            invariant
                dl <= 255,
                7 <= i <= 7 + dl,
                self.0@.len() >= 7 + dl,
                data@ == self.0@.subrange(7, i as int),
            decreases 7 + dl - i,
        {
            data.push(self.0[i]);
            i = i + 1;
        }
        let mut rest: Vec<u8> = Vec::new();
        let mut j: usize = 7 + dl;
        while j < self.0.len()
            invariant
                dl <= 255,
                7 + dl <= j <= self.0@.len(),
                rest@ == self.0@.subrange(7 + dl as int, j as int),
            decreases self.0@.len() - j,
        {
            rest.push(self.0[j]);
            j = j + 1;
        }
        proof {
            assert(data@ =~= old(self)@.skip(7).take(dl as int));
            assert(rest@ =~= old(self)@.skip(7 + dl as int));
        }
        self.0 = rest;
        Some(Ok((header, data)))
    }
}

} // verus!
