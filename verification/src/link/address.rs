//! Gateway link layer addressing.

use crate::text;
use vstd::prelude::*;

verus! {

/// The top bit of the 16-bit wire word selects the direction.
pub open spec fn spec_direction_bit() -> u16 {
    0x8000
}

/// The low 15 bits of the wire word carry the gateway ID.
pub open spec fn spec_gateway_id_mask() -> u16 {
    0x7fff
}

/// A 15-bit gateway ID.
#[derive(Debug, Copy, Clone, Eq, PartialEq, Structural, PartialOrd, Ord, Hash)]
pub struct GatewayID(pub u16);

/// Whether a 16-bit value is a valid gateway ID (top bit clear).
pub open spec fn spec_valid_gateway_id(value: u16) -> bool {
    value & 0x7fff == value
}

/// An error designating a 16-bit value whose top bit is set, which cannot be
/// a gateway ID.
#[derive(Debug, Copy, Clone, Eq, PartialEq, Structural)]
pub struct InvalidGatewayID(pub u16);

impl GatewayID {
    /// The all-zeroes gateway address, used before enumeration assigns one.
    pub fn zero() -> (r: GatewayID)
        ensures
            r.0 == 0,
    {
        GatewayID(0)
    }

    /// Whether this ID is well formed: it fits in 15 bits.
    pub open spec fn wf(self) -> bool {
        spec_valid_gateway_id(self.0)
    }

    /// Accept a 16-bit value as a gateway ID; reject it if the top bit is set.
    pub fn new(value: u16) -> (r: Result<GatewayID, InvalidGatewayID>)
        ensures
            spec_valid_gateway_id(value) ==> r == Ok::<GatewayID, InvalidGatewayID>(
                GatewayID(value),
            ),
            !spec_valid_gateway_id(value) ==> r == Err::<GatewayID, InvalidGatewayID>(
                InvalidGatewayID(value),
            ),
            r matches Ok(id) ==> id.wf(),
    {
        if value & 0x7fff != value {
            Err(InvalidGatewayID(value))
        } else {
            Ok(GatewayID(value))
        }
    }

    /// The text of this ID: lowercase hex with a `0x` prefix and at least two
    /// digits.
    pub fn text(&self) -> (r: String)
        ensures
            r@ == text::ascii_chars(spec_hex_u16_text(self.0)),
    {
        let v = hex_u16_text(self.0);
        text::ascii_to_string(&v)
    }

    /// The diagnostic text of this ID: the type name around [`GatewayID::text`].
    pub fn debug_text(&self) -> (r: String)
        ensures
            r@ == text::ascii_chars(
                seq![0x47u8, 0x61, 0x74, 0x65, 0x77, 0x61, 0x79, 0x49, 0x44, 0x28]
                    + spec_hex_u16_text(self.0) + seq![0x29u8],
            ),
    {
        let mut v: Vec<u8> = Vec::new();
        v.push(0x47);  // G
        v.push(0x61);  // a
        v.push(0x74);  // t
        v.push(0x65);  // e
        v.push(0x77);  // w
        v.push(0x61);  // a
        v.push(0x79);  // y
        v.push(0x49);  // I
        v.push(0x44);  // D
        v.push(0x28);  // (
        let mut h = hex_u16_text(self.0);
        v.append(&mut h);
        v.push(0x29);  // )
        proof {
            assert(v@ =~= seq![0x47u8, 0x61, 0x74, 0x65, 0x77, 0x61, 0x79, 0x49, 0x44, 0x28]
                + spec_hex_u16_text(self.0) + seq![0x29u8]);
        }
        text::ascii_to_string(&v)
    }
}

/// The `0x`-prefixed lowercase hex text of a 16-bit value, with leading
/// zeroes trimmed down to at least two digits.
pub open spec fn spec_hex_u16_text(v: u16) -> Seq<u8> {
    let n3 = (v >> 12) as u8;
    let n2 = ((v >> 8) & 0xf) as u8;
    let n1 = ((v >> 4) & 0xf) as u8;
    let n0 = (v & 0xf) as u8;
    let digits: Seq<u8> = if v >= 0x1000 {
        seq![
            text::spec_hex_lower(n3),
            text::spec_hex_lower(n2),
            text::spec_hex_lower(n1),
            text::spec_hex_lower(n0),
        ]
    } else if v >= 0x100 {
        seq![text::spec_hex_lower(n2), text::spec_hex_lower(n1), text::spec_hex_lower(n0)]
    } else {
        seq![text::spec_hex_lower(n1), text::spec_hex_lower(n0)]
    };
    seq![0x30u8, 0x78u8] + digits
}

/// Emit the `0x`-prefixed lowercase hex text of a 16-bit value.
fn hex_u16_text(v: u16) -> (r: Vec<u8>)
    ensures
        r@ == spec_hex_u16_text(v),
        forall|i: int| 0 <= i < r@.len() ==> r@[i] < 0x80,
{
    let mut out: Vec<u8> = Vec::new();
    out.push(0x30);  // 0
    out.push(0x78);  // x
    let n3 = (v >> 12) as u8;
    let n2 = ((v >> 8) & 0xf) as u8;
    let n1 = ((v >> 4) & 0xf) as u8;
    let n0 = (v & 0xf) as u8;
    assert(n3 < 16 && n2 < 16 && n1 < 16 && n0 < 16) by (bit_vector)
        requires
            n3 == (v >> 12) as u8 && n2 == ((v >> 8) & 0xf) as u8 && n1 == ((v >> 4) & 0xf) as u8
                && n0 == (v & 0xf) as u8,
    ;
    if v >= 0x1000 {
        out.push(text::hex_lower(n3));
        out.push(text::hex_lower(n2));
        out.push(text::hex_lower(n1));
        out.push(text::hex_lower(n0));
    } else if v >= 0x100 {
        out.push(text::hex_lower(n2));
        out.push(text::hex_lower(n1));
        out.push(text::hex_lower(n0));
    } else {
        out.push(text::hex_lower(n1));
        out.push(text::hex_lower(n0));
    }
    proof {
        assert(out@ =~= spec_hex_u16_text(v));
    }
    out
}

/// A gateway link layer address: a direction paired with a `GatewayID`.
#[derive(Debug, Copy, Clone, Eq, PartialEq, Structural)]
pub enum Address {
    /// From the indicated gateway, to the controller.
    FromGateway(GatewayID),
    /// To the indicated gateway, from the controller.
    ToGateway(GatewayID),
}

/// The address a 16-bit wire word denotes: the top bit selects the direction,
/// the low 15 bits are the ID.
pub open spec fn spec_address_of_word(value: u16) -> Address {
    if value & 0x8000 == 0 {
        Address::ToGateway(GatewayID((value & 0x7fff) as u16))
    } else {
        Address::FromGateway(GatewayID((value & 0x7fff) as u16))
    }
}

/// The 16-bit wire word of an address.
pub open spec fn spec_word_of_address(a: Address) -> u16 {
    match a {
        Address::FromGateway(id) => (id.0 | 0x8000) as u16,
        Address::ToGateway(id) => id.0,
    }
}

impl Address {
    /// Whether the embedded ID is well formed.
    pub open spec fn wf(self) -> bool {
        match self {
            Address::FromGateway(id) => id.wf(),
            Address::ToGateway(id) => id.wf(),
        }
    }

    /// Decode an address from its big-endian wire word.
    pub fn from_word(value: u16) -> (r: Address)
        ensures
            r == spec_address_of_word(value),
            r.wf(),
    {
        proof {
            assert(value & 0x7fff == (value & 0x7fff) & 0x7fff) by (bit_vector);
        }
        let id = GatewayID(value & 0x7fff);
        if value & 0x8000 == 0 {
            Address::ToGateway(id)
        } else {
            Address::FromGateway(id)
        }
    }

    /// Encode an address as its big-endian wire word.
    pub fn to_word(self) -> (r: u16)
        ensures
            r == spec_word_of_address(self),
    {
        match self {
            Address::FromGateway(id) => id.0 | 0x8000,
            Address::ToGateway(id) => id.0,
        }
    }

    /// Decode an address from its two wire bytes, big-endian.
    pub fn from_bytes(b0: u8, b1: u8) -> (r: Address)
        ensures
            r == spec_address_of_word((b0 as u16) << 8 | b1 as u16),
            r.wf(),
    {
        Address::from_word((b0 as u16) << 8 | b1 as u16)
    }

    /// Encode an address as its two wire bytes, big-endian.
    pub fn to_bytes(self) -> (r: [u8; 2])
        ensures
            r@ == seq![
                (spec_word_of_address(self) >> 8) as u8,
                (spec_word_of_address(self) & 0xff) as u8,
            ],
    {
        let w = self.to_word();
        let r = [(w >> 8) as u8, (w & 0xff) as u8];
        proof {
            assert(r@ =~= seq![(w >> 8) as u8, (w & 0xff) as u8]);
        }
        r
    }
}

/// Decoding a well-formed address word and re-encoding it returns the word,
/// and encoding any well-formed address and decoding it returns the address.
pub proof fn lemma_address_word_round_trip(value: u16, a: Address)
    requires
        a.wf(),
    ensures
        spec_word_of_address(spec_address_of_word(value)) == value,
        spec_address_of_word(spec_word_of_address(a)) == a,
{
    assert((value & 0x7fff) | 0x8000 == value || (value & 0x7fff) == value) by (bit_vector);
    assert(value & 0x8000 == 0 ==> (value & 0x7fff) == value) by (bit_vector);
    assert(value & 0x8000 != 0 ==> ((value & 0x7fff) | 0x8000) == value) by (bit_vector);
    match a {
        Address::FromGateway(id) => {
            let v = id.0;
            assert(v & 0x7fff == v ==> ((v | 0x8000) & 0x8000 != 0 && ((v | 0x8000) & 0x7fff)
                == v)) by (bit_vector);
        }
        Address::ToGateway(id) => {
            let v = id.0;
            assert(v & 0x7fff == v ==> v & 0x8000 == 0) by (bit_vector);
        }
    }
}

} // verus!
