//! The PV optimizer mesh network: link-layer addresses, the slot counter,
//! the network layer and the application layer.

pub mod application;
pub mod network;
pub mod slot_counter;

pub use application::{PacketType, PowerReport, TopologyReport, U12Pair};
pub use network::{NodeAddress, NodeID};
pub use slot_counter::{InvalidSlotNumber, SlotCounter, SlotEpoch, SlotNumber};

use crate::text;
use vstd::prelude::*;

verus! {

/// A 64-bit PV link layer (802.15.4) long address: the permanent, globally
/// unique hardware address of a node or gateway.
#[derive(Debug, Copy, Clone)]
pub struct LongAddress(pub [u8; 8]);

impl PartialEq for LongAddress {
    fn eq(&self, other: &LongAddress) -> (r: bool)
        ensures
            r == (self@ == other@),
    {
        let r = self.0[0] == other.0[0] && self.0[1] == other.0[1] && self.0[2] == other.0[2]
            && self.0[3] == other.0[3] && self.0[4] == other.0[4] && self.0[5] == other.0[5]
            && self.0[6] == other.0[6] && self.0[7] == other.0[7];
        proof {
            if r {
                assert(self@ =~= other@);
            }
        }
        r
    }
}

impl vstd::std_specs::cmp::PartialEqSpecImpl for LongAddress {
    open spec fn obeys_eq_spec() -> bool {
        true
    }

    open spec fn eq_spec(&self, other: &LongAddress) -> bool {
        self@ == other@
    }
}

impl Eq for LongAddress {

}

impl View for LongAddress {
    type V = Seq<u8>;

    open spec fn view(&self) -> Seq<u8> {
        self.0@
    }
}

/// The colon-separated uppercase hex text of an 8-byte address.
pub open spec fn spec_long_address_text(a: Seq<u8>) -> Seq<u8>
    recommends
        a.len() == 8,
{
    seq![
        text::spec_hex_upper((a[0] >> 4) as u8),
        text::spec_hex_upper((a[0] & 0xf) as u8),
        0x3au8,
        text::spec_hex_upper((a[1] >> 4) as u8),
        text::spec_hex_upper((a[1] & 0xf) as u8),
        0x3au8,
        text::spec_hex_upper((a[2] >> 4) as u8),
        text::spec_hex_upper((a[2] & 0xf) as u8),
        0x3au8,
        text::spec_hex_upper((a[3] >> 4) as u8),
        text::spec_hex_upper((a[3] & 0xf) as u8),
        0x3au8,
        text::spec_hex_upper((a[4] >> 4) as u8),
        text::spec_hex_upper((a[4] & 0xf) as u8),
        0x3au8,
        text::spec_hex_upper((a[5] >> 4) as u8),
        text::spec_hex_upper((a[5] & 0xf) as u8),
        0x3au8,
        text::spec_hex_upper((a[6] >> 4) as u8),
        text::spec_hex_upper((a[6] & 0xf) as u8),
        0x3au8,
        text::spec_hex_upper((a[7] >> 4) as u8),
        text::spec_hex_upper((a[7] & 0xf) as u8),
    ]
}

impl LongAddress {
    /// The text of this address: the eight bytes as uppercase hex pairs
    /// separated by colons.
    pub fn text(&self) -> (r: String)
        ensures
            r@ == text::ascii_chars(spec_long_address_text(self@)),
    {
        let mut v: Vec<u8> = Vec::new();
        let mut i: usize = 0;
        while i < 8
            invariant
                0 <= i <= 8,
                v@.len() == if i == 0 {
                    0int
                } else {
                    3 * i - 1
                },
                v@ == spec_long_address_text(self@).take(
                    if i == 0 {
                        0int
                    } else {
                        3 * i - 1
                    },
                ),
                forall|k: int| 0 <= k < v@.len() ==> v@[k] < 0x80,
            decreases 8 - i,
        {
            if i > 0 {
                v.push(0x3a);  // :
            }
            let b = self.0[i];
            let hi = b >> 4;
            let lo = b & 0xf;
            assert(hi < 16 && lo < 16) by (bit_vector)
                requires
                    hi == b >> 4 && lo == b & 0xf,
            ;
            v.push(text::hex_upper(hi));
            v.push(text::hex_upper(lo));
            i = i + 1;
            proof {
                assert(v@ =~= spec_long_address_text(self@).take(3 * i - 1));
            }
        }
        proof {
            assert(v@ =~= spec_long_address_text(self@));
        }
        text::ascii_to_string(&v)
    }
}

/// A 16-bit PV link layer (802.15.4) short address.
#[derive(Debug, Copy, Clone, Eq, PartialEq, Structural, PartialOrd, Ord)]
pub struct ShortAddress(pub u16);

/// An 802.15.4 data sequence number.
#[derive(Debug, Copy, Clone, Eq, PartialEq, Structural)]
pub struct DSN(pub u8);

impl DSN {
    /// The sequence number `rhs` steps later; the counter wraps.
    pub fn plus(self, rhs: u8) -> (r: DSN)
        ensures
            r.0 == (self.0 + rhs) % 256,
    {
        DSN(self.0.wrapping_add(rhs))
    }
}

/// A received signal strength indicator, as reported by the radio.
#[derive(Debug, Copy, Clone, Eq, PartialEq, Structural)]
pub struct RSSI(pub u8);

} // verus!
