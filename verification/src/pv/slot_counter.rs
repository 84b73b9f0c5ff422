//! The rolling 16-bit slot counter of the mesh TDMA schedule.
//!
//! A counter value is a 2-bit epoch and a 14-bit slot number restricted to
//! `[0, 11999]`. A full cycle is 48000 slots of nominally 5 ms each.

use vstd::prelude::*;

verus! {

/// An epoch of slot numbers, corresponding to approximately one minute of
/// real time.
#[derive(Debug, Copy, Clone, Eq, PartialEq, Structural, PartialOrd, Ord)]
pub enum SlotEpoch {
    Epoch0,
    Epoch4,
    Epoch8,
    EpochC,
}

/// The ordinal of an epoch: 0 to 3.
pub open spec fn spec_epoch_index(e: SlotEpoch) -> u16 {
    match e {
        SlotEpoch::Epoch0 => 0,
        SlotEpoch::Epoch4 => 1,
        SlotEpoch::Epoch8 => 2,
        SlotEpoch::EpochC => 3,
    }
}

/// The epoch with a given ordinal modulo 4.
pub open spec fn spec_epoch_of_index(i: int) -> SlotEpoch {
    if i % 4 == 0 {
        SlotEpoch::Epoch0
    } else if i % 4 == 1 {
        SlotEpoch::Epoch4
    } else if i % 4 == 2 {
        SlotEpoch::Epoch8
    } else {
        SlotEpoch::EpochC
    }
}

impl SlotEpoch {
    /// The ordinal of this epoch: 0 to 3.
    pub fn index(self) -> (r: u16)
        ensures
            r == spec_epoch_index(self),
    {
        match self {
            SlotEpoch::Epoch0 => 0,
            SlotEpoch::Epoch4 => 1,
            SlotEpoch::Epoch8 => 2,
            SlotEpoch::EpochC => 3,
        }
    }

    /// The epoch `rhs` steps later; epochs wrap after four.
    pub fn plus(self, rhs: u8) -> (r: SlotEpoch)
        ensures
            r == spec_epoch_of_index(spec_epoch_index(self) + (rhs as int) % 4),
    {
        let i = (self.index() as u8).wrapping_add(rhs % 4) % 4;
        proof {
            let s = spec_epoch_index(self) as int;
            let k = rhs as int;
            assert((s + k % 4) % 256 % 4 == (s + k % 4) % 4) by (nonlinear_arith)
                requires
                    0 <= s <= 3 && 0 <= k,
            ;
        }
        match i {
            0 => SlotEpoch::Epoch0,
            1 => SlotEpoch::Epoch4,
            2 => SlotEpoch::Epoch8,
            _ => SlotEpoch::EpochC,
        }
    }
}

/// A slot number: each slot takes 5 ms nominally, and slot numbers range
/// from 0 to 11999 inclusive.
#[derive(Debug, Copy, Clone, Eq, PartialEq, Structural, PartialOrd, Ord)]
pub struct SlotNumber(pub u16);

/// An error designating a 14-bit value above 11999, which is not a valid
/// slot number.
#[derive(Debug, Copy, Clone, Eq, PartialEq, Structural)]
pub struct InvalidSlotNumber(pub u16);

impl SlotNumber {
    /// Whether this slot number is well formed.
    pub open spec fn wf(self) -> bool {
        self.0 <= 11999
    }

    /// Accept a 16-bit value as a slot number; values above 11999 are
    /// rejected.
    pub fn new(value: u16) -> (r: Result<SlotNumber, InvalidSlotNumber>)
        ensures
            value <= 11999 ==> r == Ok::<SlotNumber, InvalidSlotNumber>(SlotNumber(value)),
            value > 11999 ==> r == Err::<SlotNumber, InvalidSlotNumber>(InvalidSlotNumber(value)),
    {
        if value <= 0x2edf {
            Ok(SlotNumber(value))
        } else {
            Err(InvalidSlotNumber(value))
        }
    }
}

/// A slot counter: the two top bits are the epoch, the low fourteen bits the
/// slot number.
#[derive(Debug, Copy, Clone, Eq, PartialEq, Structural, PartialOrd, Ord)]
pub struct SlotCounter(pub u16);

/// The epoch encoded in a counter value.
pub open spec fn spec_counter_epoch(v: u16) -> SlotEpoch {
    if v & 0xc000 == 0x0000 {
        SlotEpoch::Epoch0
    } else if v & 0xc000 == 0x4000 {
        SlotEpoch::Epoch4
    } else if v & 0xc000 == 0x8000 {
        SlotEpoch::Epoch8
    } else {
        SlotEpoch::EpochC
    }
}

/// The 14-bit slot-number field of a counter value, valid only up to 11999.
pub open spec fn spec_counter_slot_field(v: u16) -> u16 {
    (v & 0x3fff) as u16
}

/// Whether the counter value carries a valid slot number.
pub open spec fn spec_counter_valid(v: u16) -> bool {
    spec_counter_slot_field(v) <= 11999
}

/// The absolute slot within the 48000-slot cycle a valid counter value
/// denotes.
pub open spec fn spec_abs_slots(v: u16) -> int
    recommends
        spec_counter_valid(v),
{
    spec_epoch_index(spec_counter_epoch(v)) * 12000 + spec_counter_slot_field(v)
}

impl SlotCounter {
    /// The counter value for an epoch and a slot number.
    pub fn new(epoch: SlotEpoch, slot_number: SlotNumber) -> (r: SlotCounter)
        requires
            slot_number.wf(),
        ensures
            spec_counter_epoch(r.0) == epoch,
            spec_counter_slot_field(r.0) == slot_number.0,
    {
        let base: u16 = match epoch {
            SlotEpoch::Epoch0 => 0x0000,
            SlotEpoch::Epoch4 => 0x4000,
            SlotEpoch::Epoch8 => 0x8000,
            SlotEpoch::EpochC => 0xC000,
        };
        let n = slot_number.0;
        let v = base | n;
        proof {
            assert((base == 0x0000 || base == 0x4000 || base == 0x8000 || base == 0xC000) && n
                <= 11999 ==> ((base | n) & 0xc000 == base && ((base | n) & 0x3fff) == n))
                by (bit_vector);
        }
        SlotCounter(v)
    }

    /// The epoch this counter value falls in.
    pub fn epoch(&self) -> (r: SlotEpoch)
        ensures
            r == spec_counter_epoch(self.0),
    {
        let bits = self.0 & 0xc000;
        if bits == 0x0000 {
            SlotEpoch::Epoch0
        } else if bits == 0x4000 {
            SlotEpoch::Epoch4
        } else if bits == 0x8000 {
            SlotEpoch::Epoch8
        } else {
            SlotEpoch::EpochC
        }
    }

    /// The slot number this counter value carries, if it is valid.
    pub fn slot_number(&self) -> (r: Result<SlotNumber, InvalidSlotNumber>)
        ensures
            spec_counter_valid(self.0) ==> r == Ok::<SlotNumber, InvalidSlotNumber>(
                SlotNumber(spec_counter_slot_field(self.0)),
            ),
            !spec_counter_valid(self.0) ==> r == Err::<SlotNumber, InvalidSlotNumber>(
                InvalidSlotNumber(spec_counter_slot_field(self.0)),
            ),
    {
        SlotNumber::new(self.0 & 0x3fff)
    }

    /// The number of slots from `past` to `self`, reading the cycle forward;
    /// two equal counters are a full cycle apart. Fails if either counter is
    /// invalid.
    pub fn slots_since(&self, past: &SlotCounter) -> (r: Result<u16, InvalidSlotNumber>)
        ensures
            spec_counter_valid(self.0) && spec_counter_valid(past.0) ==> r == Ok::<
                u16,
                InvalidSlotNumber,
            >(
                (if spec_abs_slots(self.0) > spec_abs_slots(past.0) {
                    spec_abs_slots(self.0) - spec_abs_slots(past.0)
                } else {
                    48000 - spec_abs_slots(past.0) + spec_abs_slots(self.0)
                }) as u16,
            ),
            !(spec_counter_valid(self.0) && spec_counter_valid(past.0)) ==> r is Err,
    {
        let self_n = match self.slot_number() {
            Ok(n) => n,
            Err(e) => {
                return Err(e);
            },
        };
        let past_n = match past.slot_number() {
            Ok(n) => n,
            Err(e) => {
                return Err(e);
            },
        };
        let self_abs: u16 = self.epoch().index() * 12000 + self_n.0;
        let past_abs: u16 = past.epoch().index() * 12000 + past_n.0;
        if self_abs > past_abs {
            Ok(self_abs - past_abs)
        } else {
            Ok(48000 - past_abs + self_abs)
        }
    }
}

} // verus!
