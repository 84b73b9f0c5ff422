//! The gateway link layer: addressing, framing, escaping and the receive
//! state machine.

mod address;
mod crc;
mod escaping;
mod receive;

pub use address::{spec_address_of_word, spec_valid_gateway_id, spec_word_of_address};
pub use address::{Address, GatewayID, InvalidGatewayID};
pub use crc::{crc, spec_crc};
pub use escaping::{escape, escaped_length, unescaped_byte};
pub use escaping::{
    lemma_escaping_bijective,
    spec_escape,
    spec_escape_byte,
    spec_escape_code,
    spec_unescaped_byte,
    InvalidEscapeSequence,
};
pub use receive::{
    lemma_link_counter_conservation,
    link_run,
    spec_link_step,
    Counters,
    LinkModel,
    LinkState,
    Receiver,
};

use crate::text;
use vstd::prelude::*;

verus! {

/// A link layer frame type: a bare 16-bit discriminator.
#[derive(Debug, Copy, Clone, Eq, PartialEq, Structural)]
pub struct Type(pub u16);

/// A gateway link layer frame.
#[derive(Debug, Clone, Eq, PartialEq)]
pub struct Frame {
    pub address: Address,
    pub frame_type: Type,
    pub payload: Vec<u8>,
}

/// The mathematical content of a frame: its payload as a byte sequence.
#[verifier::ext_equal]
pub struct FrameModel {
    pub address: Address,
    pub frame_type: u16,
    pub payload: Seq<u8>,
}

impl View for Frame {
    type V = FrameModel;

    open spec fn view(&self) -> FrameModel {
        FrameModel { address: self.address, frame_type: self.frame_type.0, payload: self.payload@ }
    }
}

/// The frame body as transmitted between the start and end sentinels, before
/// escaping: address word, type word, payload, then the CRC little-endian.
pub open spec fn spec_frame_body(f: FrameModel) -> Seq<u8> {
    let head = seq![
        (spec_word_of_address(f.address) >> 8) as u8,
        (spec_word_of_address(f.address) & 0xff) as u8,
        (f.frame_type >> 8) as u8,
        (f.frame_type & 0xff) as u8,
    ] + f.payload;
    let c = spec_crc(head);
    head + seq![(c & 0xff) as u8, (c >> 8) as u8]
}

/// The full wire encoding of a frame: preamble and start sentinel, the
/// escaped body, and the end sentinel.
pub open spec fn spec_frame_encoding(f: FrameModel) -> Seq<u8> {
    let start: Seq<u8> = match f.address {
        Address::FromGateway(_) => seq![0xffu8, 0x7e, 0x07],
        Address::ToGateway(_) => seq![0x00u8, 0xff, 0xff, 0x7e, 0x07],
    };
    start + spec_escape(spec_frame_body(f)) + seq![0x7eu8, 0x08]
}

impl Frame {
    /// Encode the frame into bytes ready for transmission by the physical
    /// layer, including a preamble.
    pub fn encode(&self) -> (r: Vec<u8>)
        requires
            self@.payload.len() <= 250,
        ensures
            r@ == spec_frame_encoding(self@),
    {
        let mut body: Vec<u8> = Vec::new();
        let addr = self.address.to_bytes();
        body.push(addr[0]);
        body.push(addr[1]);
        body.push((self.frame_type.0 >> 8) as u8);
        body.push((self.frame_type.0 & 0xff) as u8);
        let mut i: usize = 0;
        while i < self.payload.len()
            invariant
                0 <= i <= self.payload@.len(),
                body@ == seq![
                    (spec_word_of_address(self@.address) >> 8) as u8,
                    (spec_word_of_address(self@.address) & 0xff) as u8,
                    (self@.frame_type >> 8) as u8,
                    (self@.frame_type & 0xff) as u8,
                ] + self.payload@.subrange(0, i as int),
            decreases self.payload@.len() - i,
        {
            body.push(self.payload[i]);
            i = i + 1;
        }
        proof {
            assert(self.payload@.subrange(0, self.payload@.len() as int) =~= self.payload@);
        }
        let c = crc::crc(body.as_slice());
        body.push((c & 0xff) as u8);
        body.push((c >> 8) as u8);

        let mut out: Vec<u8> = Vec::new();
        match self.address {
            Address::FromGateway(_) => {
                out.push(0xff);
                out.push(0x7e);
                out.push(0x07);
            }
            Address::ToGateway(_) => {
                out.push(0x00);
                out.push(0xff);
                out.push(0xff);
                out.push(0x7e);
                out.push(0x07);
            }
        }
        escaping::escape(body.as_slice(), &mut out);
        out.push(0x7e);
        out.push(0x08);
        proof {
            assert(body@ =~= spec_frame_body(self@));
            assert(out@ =~= spec_frame_encoding(self@));
        }
        out
    }
}

/// The diagnostic text of a frame type: the protocol name of a known type,
/// or `Type(0x....)` with the value in lowercase hex.
pub open spec fn spec_type_debug_text(v: u16) -> Seq<char> {
    if v == 0x0148 {
        "Type::RECEIVE_REQUEST"@
    } else if v == 0x0149 {
        "Type::RECEIVE_RESPONSE"@
    } else if v == 0x0B0F {
        "Type::COMMAND_REQUEST"@
    } else if v == 0x0B10 {
        "Type::COMMAND_RESPONSE"@
    } else if v == 0x0B00 {
        "Type::PING_REQUEST"@
    } else if v == 0x0B01 {
        "Type::PING_RESPONSE"@
    } else if v == 0x0014 {
        "Type::ENUMERATION_START_REQUEST"@
    } else if v == 0x0015 {
        "Type::ENUMERATION_START_RESPONSE"@
    } else if v == 0x0038 {
        "Type::ENUMERATION_REQUEST"@
    } else if v == 0x0039 {
        "Type::ENUMERATION_RESPONSE"@
    } else if v == 0x003C {
        "Type::ASSIGN_GATEWAY_ID_REQUEST"@
    } else if v == 0x003D {
        "Type::ASSIGN_GATEWAY_ID_RESPONSE"@
    } else if v == 0x003A {
        "Type::IDENTIFY_REQUEST"@
    } else if v == 0x003B {
        "Type::IDENTIFY_RESPONSE"@
    } else if v == 0x000A {
        "Type::VERSION_REQUEST"@
    } else if v == 0x000B {
        "Type::VERSION_RESPONSE"@
    } else if v == 0x0E02 {
        "Type::ENUMERATION_END_REQUEST"@
    } else if v == 0x0006 {
        "Type::ENUMERATION_END_RESPONSE"@
    } else {
        text::ascii_chars(
            seq![0x54u8, 0x79, 0x70, 0x65, 0x28, 0x30, 0x78, text::spec_hex_lower((v >> 12) as u8), text::spec_hex_lower(((v >> 8) & 0xf) as u8), text::spec_hex_lower(((v >> 4) & 0xf) as u8), text::spec_hex_lower((v & 0xf) as u8), 0x29],
        )
    }
}

impl Type {
    /// The diagnostic text of this frame type: the protocol name of a known
    /// type, or `Type(0x....)` with the value in hex.
    pub fn debug_text(&self) -> (r: String)
        ensures
            r@ == spec_type_debug_text(self.0),
    {
        match self.0 {
            0x0148 => {
                return "Type::RECEIVE_REQUEST".to_owned();
            }
            0x0149 => {
                return "Type::RECEIVE_RESPONSE".to_owned();
            }
            0x0B0F => {
                return "Type::COMMAND_REQUEST".to_owned();
            }
            0x0B10 => {
                return "Type::COMMAND_RESPONSE".to_owned();
            }
            0x0B00 => {
                return "Type::PING_REQUEST".to_owned();
            }
            0x0B01 => {
                return "Type::PING_RESPONSE".to_owned();
            }
            0x0014 => {
                return "Type::ENUMERATION_START_REQUEST".to_owned();
            }
            0x0015 => {
                return "Type::ENUMERATION_START_RESPONSE".to_owned();
            }
            0x0038 => {
                return "Type::ENUMERATION_REQUEST".to_owned();
            }
            0x0039 => {
                return "Type::ENUMERATION_RESPONSE".to_owned();
            }
            0x003C => {
                return "Type::ASSIGN_GATEWAY_ID_REQUEST".to_owned();
            }
            0x003D => {
                return "Type::ASSIGN_GATEWAY_ID_RESPONSE".to_owned();
            }
            0x003A => {
                return "Type::IDENTIFY_REQUEST".to_owned();
            }
            0x003B => {
                return "Type::IDENTIFY_RESPONSE".to_owned();
            }
            0x000B => {
                return "Type::VERSION_RESPONSE".to_owned();
            }
            0x000A => {
                return "Type::VERSION_REQUEST".to_owned();
            }
            0x0E02 => {
                return "Type::ENUMERATION_END_REQUEST".to_owned();
            }
            0x0006 => {
                return "Type::ENUMERATION_END_RESPONSE".to_owned();
            }
            _ => {}
        }
        let mut v: Vec<u8> = Vec::new();
        v.push(0x54);  // T
        v.push(0x79);  // y
        v.push(0x70);  // p
        v.push(0x65);  // e
        v.push(0x28);  // (
        v.push(0x30);  // 0
        v.push(0x78);  // x
        let w = self.0;
        let n3 = (w >> 12) as u8;
        let n2 = ((w >> 8) & 0xf) as u8;
        let n1 = ((w >> 4) & 0xf) as u8;
        let n0 = (w & 0xf) as u8;
        assert(n3 < 16 && n2 < 16 && n1 < 16 && n0 < 16) by (bit_vector)
            requires
                n3 == (w >> 12) as u8 && n2 == ((w >> 8) & 0xf) as u8 && n1 == ((w >> 4)
                    & 0xf) as u8 && n0 == (w & 0xf) as u8,
        ;
        v.push(text::hex_lower(n3));
        v.push(text::hex_lower(n2));
        v.push(text::hex_lower(n1));
        v.push(text::hex_lower(n0));
        v.push(0x29);  // )
        proof {
            assert(v@ =~= seq![0x54u8, 0x79, 0x70, 0x65, 0x28, 0x30, 0x78, text::spec_hex_lower(
                (self.0 >> 12) as u8), text::spec_hex_lower(((self.0 >> 8) & 0xf) as u8),
                text::spec_hex_lower(((self.0 >> 4) & 0xf) as u8), text::spec_hex_lower(
                (self.0 & 0xf) as u8), 0x29]);
        }
        text::ascii_to_string(&v)
    }
}

} // verus!
