//! The slot clock: a rolling table collating absolute timestamps to the
//! 48000-slot counter cycle, one anchor per thousand-slot index.

use crate::pv::slot_counter::{
    spec_abs_slots,
    spec_counter_valid,
    InvalidSlotNumber,
    SlotCounter,
};
use vstd::prelude::*;

verus! {

/// The thousand-slot index a valid counter value falls in: 0 to 47.
pub open spec fn spec_index(v: u16) -> int
    recommends
        spec_counter_valid(v),
{
    spec_abs_slots(v) / 1000
}

/// The millisecond offset of a valid counter value within its index, at the
/// nominal five milliseconds per slot: 0 to 4995.
pub open spec fn spec_offset(v: u16) -> int
    recommends
        spec_counter_valid(v),
{
    5 * (spec_abs_slots(v) % 1000)
}

/// Whether a millisecond timestamp is far enough from the representable
/// extremes for the clock's arithmetic.
pub open spec fn spec_time_ok(t: int) -> bool {
    -0x2000_0000_0000_0000 <= t <= 0x2000_0000_0000_0000
}

/// The clock state one observation seeds: the observation's index anchored
/// at the start of its index, every other index walked backwards at the
/// nominal five seconds.
pub open spec fn spec_clock_of(c: SlotClock, slot_counter: SlotCounter, time: i64) -> bool
    recommends
        spec_counter_valid(slot_counter.0),
{
    &&& c.last_index == spec_index(slot_counter.0)
    &&& c.last_time == time
    &&& forall|k: int|
        0 <= k < 48 ==> #[trigger] c.times@[(spec_index(slot_counter.0) + 48 - k) % 48] == time
            - spec_offset(slot_counter.0) - 5000 * k
}

/// How folding one observation changes a clock: a rebuild on clock
/// regression, an anchor and backwards re-seed on an index change, and no
/// table change within one index.
pub open spec fn spec_set_rel(pre: SlotClock, post: SlotClock, slot_counter: SlotCounter, time: i64) -> bool
    recommends
        spec_counter_valid(slot_counter.0),
{
    let index = spec_index(slot_counter.0);
    let offset = spec_offset(slot_counter.0);
    &&& post.last_index == index
    &&& post.last_time == time
    &&& if time < pre.last_time {
        forall|k: int|
            0 <= k < 48 ==> #[trigger] post.times@[(index + 48 - k) % 48] == time - offset - 5000
                * k
    } else if index != pre.last_index {
        let d = (index - pre.last_index + 48) % 48;
        forall|k: int|
            0 <= k < 48 ==> #[trigger] post.times@[(index + 48 - k) % 48] == (if k < d {
                time - offset - 5000 * k
            } else {
                pre.times@[(index + 48 - k) % 48] as int
            })
    } else {
        post.times@ == pre.times@
    }
}

/// A data structure collating absolute timestamps to slot counters: one
/// anchor timestamp per thousand-slot index, wrapping with the counter.
#[derive(Debug, Clone)]
pub struct SlotClock {
    pub times: Vec<i64>,
    pub last_index: usize,
    pub last_time: i64,
}

impl SlotClock {
    /// Well-formedness: 48 entries, the last-assigned index in range, and
    /// every timestamp far from the representable extremes.
    pub open spec fn wf(self) -> bool {
        &&& self.times@.len() == 48
        &&& self.last_index < 48
        &&& spec_time_ok(self.last_time as int)
        &&& forall|i: int|
            0 <= i < 48 ==> -0x2000_0000_0000_0000 - 1_000_000 <= #[trigger] self.times@[i]
                <= 0x2000_0000_0000_0000
    }

    /// Instantiate a clock from one observation: the anchor for the
    /// observation's own index is placed at the start of that index, and the
    /// other 47 indices are seeded backwards at the nominal five seconds per
    /// index.
    pub fn new(slot_counter: SlotCounter, time: i64) -> (r: Result<SlotClock, InvalidSlotNumber>)
        requires
            spec_time_ok(time as int),
        ensures
            spec_counter_valid(slot_counter.0) <==> r is Ok,
            r matches Ok(c) ==> c.wf() && spec_clock_of(c, slot_counter, time),
    {
        let (index, offset) = match Self::index_and_offset(slot_counter) {
            Ok(v) => v,
            Err(e) => {
                return Err(e);
            },
        };
        let index_time: i64 = time - (offset as i64);
        let mut times: Vec<i64> = Vec::new();
        let mut j: usize = 0;
        while j < 48
            invariant
                0 <= j <= 48,
                times@.len() == j,
                forall|i: int| 0 <= i < j ==> #[trigger] times@[i] == 0i64,
            decreases 48 - j,
        {
            times.push(0);
            j = j + 1;
        }
        let mut clock = SlotClock { times, last_index: index, last_time: time };
        let mut k: usize = 0;
        while k < 48
            invariant
                0 <= k <= 48,
                index < 48,
                clock.times@.len() == 48,
                clock.last_index == index,
                clock.last_time == time,
                spec_time_ok(time as int),
                index == spec_index(slot_counter.0),
                index_time == time - spec_offset(slot_counter.0),
                0 <= spec_offset(slot_counter.0) <= 4995,
                forall|k2: int|
                    0 <= k2 < k ==> #[trigger] clock.times@[(index + 48 - k2) % 48] == time
                        - spec_offset(slot_counter.0) - 5000 * k2,
                forall|i: int|
                    0 <= i < 48 ==> -0x2000_0000_0000_0000 - 1_000_000
                        <= #[trigger] clock.times@[i] <= 0x2000_0000_0000_0000,
            decreases 48 - k,
        {
            let pos = (index + 48 - k) % 48;
            let v: i64 = index_time - 5000 * (k as i64);
            proof {
                assert forall|k2: int| 0 <= k2 < 48 implies #[trigger] ((index as int + 48 - k2)
                    % 48) == (if k2 <= index as int {
                    index as int - k2
                } else {
                    index as int + 48 - k2
                }) by {
                    lemma_walk_positions_distinct(index as int, k2);
                }
            }
            clock.times.set(pos, v);
            k = k + 1;
        }
        Ok(clock)
    }

    /// The thousand-slot index and the millisecond offset within it of a
    /// valid counter value.
    pub fn index_and_offset(slot_counter: SlotCounter) -> (r: Result<
        (usize, u64),
        InvalidSlotNumber,
    >)
        ensures
            spec_counter_valid(slot_counter.0) <==> r is Ok,
            r matches Ok((index, offset)) ==> {
                &&& index == spec_index(slot_counter.0)
                &&& offset == spec_offset(slot_counter.0)
                &&& index < 48
                &&& offset <= 4995
            },
            r matches Err(e) ==> e == InvalidSlotNumber(
                crate::pv::slot_counter::spec_counter_slot_field(slot_counter.0),
            ),
    {
        let n = match slot_counter.slot_number() {
            Ok(n) => n,
            Err(e) => {
                return Err(e);
            },
        };
        let absolute_slot: usize = (slot_counter.epoch().index() as usize) * 12000 + (n.0 as usize);
        let index = absolute_slot / 1000;
        let offset: u64 = 5 * ((absolute_slot % 1000) as u64);
        Ok((index, offset))
    }

    /// Fold one observation into the clock. An observation older than the
    /// last one rebuilds the table from scratch; one in a new index anchors
    /// that index and re-seeds the indices strictly between the last
    /// assignment and the new one, walking backwards at the nominal five
    /// seconds per index; one in the same index leaves the anchor alone.
    pub fn set(&mut self, slot_counter: SlotCounter, time: i64) -> (r: Result<
        (),
        InvalidSlotNumber,
    >)
        requires
            old(self).wf(),
            spec_time_ok(time as int),
        ensures
            final(self).wf(),
            spec_counter_valid(slot_counter.0) <==> r is Ok,
            r is Err ==> *final(self) == *old(self),
            r is Ok ==> spec_set_rel(*old(self), *final(self), slot_counter, time),
    {
        let (index, offset) = match Self::index_and_offset(slot_counter) {
            Ok(v) => v,
            Err(e) => {
                return Err(e);
            },
        };
        if time < self.last_time {
            // The wall clock went backwards: rebuild the table entirely.
            match Self::new(slot_counter, time) {
                Ok(c) => {
                    *self = c;
                    return Ok(());
                },
                Err(e) => {
                    proof {
                        assert(false);
                    }
                    return Err(e);
                },
            }
        }
        if index != self.last_index {
            let index_time: i64 = time - (offset as i64);
            self.times.set(index, index_time);
            let ghost d = (index - old(self).last_index + 48) % 48;
            proof {
                assert forall|k2: int| 0 <= k2 < 48 implies #[trigger] ((index as int + 48 - k2)
                    % 48) == (if k2 <= index as int {
                    index as int - k2
                } else {
                    index as int + 48 - k2
                }) by {
                    lemma_walk_positions_distinct(index as int, k2);
                }
                assert((index as int + 48 - 0) % 48 == index as int);
                assert(1 <= d < 48) by {
                    lemma_mod_diff_bounds(index as int, old(self).last_index as int);
                }
            }
            let mut k: usize = 1;
            let mut pos = if index == 0 {
                47
            } else {
                index - 1
            };
            while pos != self.last_index
                invariant
                    old(self).wf(),
                    1 <= k < 48,
                    index < 48,
                    pos < 48,
                    pos == (index + 48 - k) % 48,
                    1 <= d < 48,
                    d == (index - old(self).last_index + 48) % 48,
                    index == spec_index(slot_counter.0),
                    index != old(self).last_index,
                    self.last_index == old(self).last_index,
                    self.last_time == old(self).last_time,
                    index_time == time - spec_offset(slot_counter.0),
                    0 <= spec_offset(slot_counter.0) <= 4995,
                    spec_time_ok(time as int),
                    self.times@.len() == 48,
                    k <= d,
                    pos == self.last_index <==> k == d,
                    forall|k2: int|
                        0 <= k2 < k ==> #[trigger] self.times@[(index + 48 - k2) % 48] == time
                            - spec_offset(slot_counter.0) - 5000 * k2,
                    forall|k2: int|
                        k <= k2 < 48 && k2 != 0 ==> #[trigger] self.times@[(index + 48 - k2) % 48]
                            == old(self).times@[(index + 48 - k2) % 48],
                    forall|i: int|
                        0 <= i < 48 ==> -0x2000_0000_0000_0000 - 1_000_000
                            <= #[trigger] self.times@[i] <= 0x2000_0000_0000_0000,
                decreases 48 - k,
            {
                let v: i64 = index_time - 5000 * (k as i64);
                proof {
                    assert forall|k2: int| 0 <= k2 < 48 implies #[trigger] ((index as int + 48
                        - k2) % 48) == (if k2 <= index as int {
                        index as int - k2
                    } else {
                        index as int + 48 - k2
                    }) by {
                        lemma_walk_positions_distinct(index as int, k2);
                    }
                    lemma_walk_hits_last(index as int, old(self).last_index as int, k as int, d);
                }
                self.times.set(pos, v);
                k = k + 1;
                pos = if pos == 0 {
                    47
                } else {
                    pos - 1
                };
                proof {
                    lemma_walk_step(index as int, k as int, pos as int);
                    lemma_walk_hits_last(index as int, old(self).last_index as int, k as int, d);
                }
            }
            proof {
                assert forall|k2: int| 0 <= k2 < 48 implies #[trigger] self.times@[(index as int
                    + 48 - k2) % 48] == (if k2 < d {
                    time - spec_offset(slot_counter.0) - 5000 * k2
                } else {
                    old(self).times@[(index as int + 48 - k2) % 48] as int
                }) by {
                    lemma_walk_positions_distinct(index as int, k2);
                    lemma_walk_hits_last(index as int, old(self).last_index as int, k2, d);
                }
            }
        }
        self.last_index = index;
        self.last_time = time;
        Ok(())
    }

    /// The timestamp the clock assigns to a counter value: the anchor of its
    /// index plus its offset within the index.
    pub fn get(&self, slot_counter: SlotCounter) -> (r: Result<i64, InvalidSlotNumber>)
        requires
            self.wf(),
        ensures
            spec_counter_valid(slot_counter.0) <==> r is Ok,
            r matches Ok(t) ==> t == self.times@[spec_index(slot_counter.0)] + spec_offset(
                slot_counter.0,
            ),
    {
        let (index, offset) = match Self::index_and_offset(slot_counter) {
            Ok(v) => v,
            Err(e) => {
                return Err(e);
            },
        };
        Ok(self.times[index] + (offset as i64))
    }
}

/// Walking `k` steps back from an index does not return to the index until
/// the walk wraps.
proof fn lemma_walk_positions_distinct(index: int, k: int)
    requires
        0 <= index < 48,
        0 <= k < 48,
    ensures
        (index + 48 - k) % 48 == if k <= index {
            index - k
        } else {
            index + 48 - k
        },
        0 <= (index + 48 - k) % 48 < 48,
{
    if k <= index {
        assert((index + 48 - k) == 48 + (index - k));
        assert((48 + (index - k)) % 48 == (index - k) % 48) by {
            vstd::arithmetic::div_mod::lemma_mod_add_multiples_vanish(index - k, 48);
        }
        assert((index - k) % 48 == index - k) by {
            vstd::arithmetic::div_mod::lemma_small_mod((index - k) as nat, 48);
        }
    } else {
        assert((index + 48 - k) % 48 == index + 48 - k) by {
            vstd::arithmetic::div_mod::lemma_small_mod((index + 48 - k) as nat, 48);
        }
    }
}

/// Stepping the walk position down by one with wraparound matches one more
/// step back from the index.
proof fn lemma_walk_step(index: int, k: int, pos: int)
    requires
        0 <= index < 48,
        1 <= k < 48,
        pos == if (index + 48 - (k - 1)) % 48 == 0 {
            47int
        } else {
            (index + 48 - (k - 1)) % 48 - 1
        },
    ensures
        pos == (index + 48 - k) % 48,
{
    lemma_walk_positions_distinct(index, k - 1);
    lemma_walk_positions_distinct(index, k);
}

/// The walk reaches the previously assigned index exactly at the modular
/// distance between the two indices.
proof fn lemma_walk_hits_last(index: int, last: int, k: int, d: int)
    requires
        0 <= index < 48,
        0 <= last < 48,
        index != last,
        d == (index - last + 48) % 48,
        0 <= k < 48,
    ensures
        1 <= d < 48,
        ((index + 48 - k) % 48 == last) <==> (k == d),
{
    lemma_mod_diff_bounds(index, last);
    lemma_walk_positions_distinct(index, k);
    if index >= last {
        assert(d == index - last) by {
            vstd::arithmetic::div_mod::lemma_small_mod((index - last) as nat, 48);
        }
    } else {
        assert(d == index - last + 48) by {
            vstd::arithmetic::div_mod::lemma_small_mod((index - last + 48) as nat, 48);
        }
    }
}

/// The modular distance between two distinct indices is between one and
/// forty-seven.
proof fn lemma_mod_diff_bounds(index: int, last: int)
    requires
        0 <= index < 48,
        0 <= last < 48,
        index != last,
    ensures
        1 <= (index - last + 48) % 48 < 48,
{
    if index >= last {
        vstd::arithmetic::div_mod::lemma_mod_add_multiples_vanish(index - last, 48);
        vstd::arithmetic::div_mod::lemma_small_mod((index - last) as nat, 48);
    } else {
        vstd::arithmetic::div_mod::lemma_small_mod((index - last + 48) as nat, 48);
    }
}

/// Any two counter values in one index read within five seconds of each
/// other's anchor: immediately after an observation `(sc, t)` anchors an
/// index, the clock's answer for every counter value in that index lies
/// within five seconds of `t`.
pub proof fn lemma_slot_clock_anchor(c: SlotClock, sc: SlotCounter, t: i64, sc2: SlotCounter)
    requires
        c.wf(),
        spec_counter_valid(sc.0),
        spec_counter_valid(sc2.0),
        spec_index(sc2.0) == spec_index(sc.0),
        c.times@[spec_index(sc.0)] == t - spec_offset(sc.0),
    ensures
        ({
            let got = c.times@[spec_index(sc2.0)] + spec_offset(sc2.0);
            -5000 < got - t < 5000
        }),
{
    assert(0 <= spec_abs_slots(sc.0) % 1000 < 1000);
    assert(0 <= spec_abs_slots(sc2.0) % 1000 < 1000);
}

} // verus!
