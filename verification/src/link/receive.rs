//! The link layer receive state machine.
//!
//! The receiver turns a noisy byte stream into frames: it hunts for the
//! preamble, undoes escaping, bounds frame length, verifies the CRC and
//! resynchronizes after noise. Every decode outcome is counted.

use super::address::{spec_address_of_word, Address};
use super::crc::{crc, spec_crc};
use super::escaping::{spec_unescaped_byte, unescaped_byte};
use super::{Frame, FrameModel, Type};
use vstd::prelude::*;

verus! {

/// The maximum frame body size after unescaping.
pub open spec fn spec_max_frame_size() -> nat {
    256
}

/// The states of the receive state machine.
#[derive(Debug, Copy, Clone, Eq, PartialEq, Structural)]
pub enum LinkState {
    /// Between frames, expecting preamble bytes.
    Idle,
    /// Between frames, after unexpected bytes.
    Noise,
    /// After the `0x7e` sentinel, expecting `0x07` to begin a frame.
    StartOfFrame,
    /// Inside a frame body.
    Frame,
    /// Inside a frame body, after the `0x7e` escape byte.
    FrameEscape,
    /// Inside an overlong frame, discarding bytes.
    Giant,
    /// Inside an overlong frame, after the `0x7e` escape byte.
    GiantEscape,
}

/// Counters describing the decode outcomes a receiver has seen.
#[derive(Debug, Copy, Clone, Eq, PartialEq, Structural)]
pub struct Counters {
    /// The number of valid frames successfully received.
    pub frames: u64,
    /// The number of frames discarded for being too short.
    pub runts: u64,
    /// The number of frames discarded for being too long.
    pub giants: u64,
    /// The number of frames discarded for having an incorrect checksum.
    pub checksums: u64,
    /// The number of inter-frame periods where line noise was detected.
    pub noise: u64,
}

impl Counters {
    /// Whether all counters are zero.
    pub open spec fn spec_is_zero(self) -> bool {
        self.frames == 0 && self.runts == 0 && self.giants == 0 && self.checksums == 0
            && self.noise == 0
    }
}

impl Default for Counters {
    /// All counters at zero.
    fn default() -> (r: Counters)
        ensures
            r.spec_is_zero(),
    {
        Counters { frames: 0, runts: 0, giants: 0, checksums: 0, noise: 0 }
    }
}

/// The abstract state of a receiver: the machine state, the partial body,
/// the counters, and the frames emitted by the steps under consideration.
///
/// `terminators` counts the `0x08` frame-terminator events the machine
/// reached, whether the body was kept or discarded; `recoveries` counts the
/// `0x07` re-entries into a frame from inside an overlong one.
#[verifier::ext_equal]
pub struct LinkModel {
    pub state: LinkState,
    pub buffer: Seq<u8>,
    pub frames: nat,
    pub runts: nat,
    pub giants: nat,
    pub checksums: nat,
    pub noise: nat,
    pub terminators: nat,
    pub recoveries: nat,
    pub emitted: Seq<FrameModel>,
}

/// The same model with the emitted frames replaced.
pub open spec fn with_emitted(m: LinkModel, e: Seq<FrameModel>) -> LinkModel {
    LinkModel {
        state: m.state,
        buffer: m.buffer,
        frames: m.frames,
        runts: m.runts,
        giants: m.giants,
        checksums: m.checksums,
        noise: m.noise,
        terminators: m.terminators,
        recoveries: m.recoveries,
        emitted: e,
    }
}

/// The outcome of validating a completed frame body.
pub enum BodyOutcome {
    /// Fewer than six bytes: discarded, counted as a runt.
    Runt,
    /// The trailing little-endian CRC does not match: counted as a checksum
    /// failure.
    BadCrc,
    /// A valid frame: address, type, payload.
    Valid(FrameModel),
}

/// Validate a completed frame body: length check, CRC check over the prefix,
/// then address word, type word and payload.
pub open spec fn spec_body_outcome(body: Seq<u8>) -> BodyOutcome {
    if body.len() < 6 {
        BodyOutcome::Runt
    } else {
        let data = body.take(body.len() - 2);
        let expected = (body[body.len() - 2] as u16) | ((body[body.len() - 1] as u16) << 8);
        if spec_crc(data) != expected {
            BodyOutcome::BadCrc
        } else {
            BodyOutcome::Valid(
                FrameModel {
                    address: spec_address_of_word((body[0] as u16) << 8 | (body[1] as u16)),
                    frame_type: ((body[2] as u16) << 8 | (body[3] as u16)) as u16,
                    payload: data.skip(4),
                },
            )
        }
    }
}

/// One step of the receive state machine on one input byte.
pub open spec fn spec_link_step(m: LinkModel, byte: u8) -> LinkModel {
    match m.state {
        LinkState::Idle => {
            if byte == 0x00 || byte == 0xff {
                m
            } else if byte == 0x7e {
                LinkModel { state: LinkState::StartOfFrame, ..m }
            } else {
                LinkModel { state: LinkState::Noise, noise: m.noise + 1, ..m }
            }
        },
        LinkState::Noise => {
            if byte == 0x00 || byte == 0xff {
                LinkModel { state: LinkState::Idle, ..m }
            } else if byte == 0x7e {
                LinkModel { state: LinkState::StartOfFrame, ..m }
            } else {
                m
            }
        },
        LinkState::StartOfFrame => {
            if byte == 0x07 {
                LinkModel { state: LinkState::Frame, ..m }
            } else {
                LinkModel { state: LinkState::Noise, noise: m.noise + 1, ..m }
            }
        },
        LinkState::Frame => {
            if byte == 0x7e {
                LinkModel { state: LinkState::FrameEscape, ..m }
            } else if m.buffer.len() < spec_max_frame_size() {
                LinkModel { state: LinkState::Frame, buffer: m.buffer.push(byte), ..m }
            } else {
                LinkModel {
                    state: LinkState::Giant,
                    buffer: Seq::empty(),
                    giants: m.giants + 1,
                    ..m
                }
            }
        },
        LinkState::FrameEscape => {
            if byte == 0x08 {
                let done = LinkModel {
                    state: LinkState::Idle,
                    buffer: Seq::empty(),
                    terminators: m.terminators + 1,
                    ..m
                };
                match spec_body_outcome(m.buffer) {
                    BodyOutcome::Runt => LinkModel { runts: m.runts + 1, ..done },
                    BodyOutcome::BadCrc => LinkModel { checksums: m.checksums + 1, ..done },
                    BodyOutcome::Valid(f) => LinkModel {
                        frames: m.frames + 1,
                        emitted: m.emitted.push(f),
                        ..done
                    },
                }
            } else {
                match spec_unescaped_byte(byte) {
                    Some(b) => {
                        if m.buffer.len() < spec_max_frame_size() {
                            LinkModel { state: LinkState::Frame, buffer: m.buffer.push(b), ..m }
                        } else {
                            LinkModel {
                                state: LinkState::Giant,
                                buffer: Seq::empty(),
                                giants: m.giants + 1,
                                ..m
                            }
                        }
                    },
                    None => LinkModel {
                        state: LinkState::Noise,
                        buffer: Seq::empty(),
                        noise: m.noise + 1,
                        ..m
                    },
                }
            }
        },
        LinkState::Giant => {
            if byte == 0x7e {
                LinkModel { state: LinkState::GiantEscape, ..m }
            } else {
                m
            }
        },
        LinkState::GiantEscape => {
            if byte == 0x07 {
                LinkModel { state: LinkState::Frame, recoveries: m.recoveries + 1, ..m }
            } else if byte == 0x08 {
                LinkModel { state: LinkState::Idle, terminators: m.terminators + 1, ..m }
            } else {
                LinkModel { state: LinkState::Giant, ..m }
            }
        },
    }
}

/// The receive state machine folded over a byte sequence, first byte first.
pub open spec fn link_accept(m: LinkModel, bytes: Seq<u8>) -> LinkModel
    decreases bytes.len(),
{
    if bytes.len() == 0 {
        m
    } else {
        spec_link_step(link_accept(m, bytes.drop_last()), bytes.last())
    }
}

/// The initial abstract state of a receiver.
pub open spec fn link_init() -> LinkModel {
    LinkModel {
        state: LinkState::Idle,
        buffer: Seq::empty(),
        frames: 0,
        runts: 0,
        giants: 0,
        checksums: 0,
        noise: 0,
        terminators: 0,
        recoveries: 0,
        emitted: Seq::empty(),
    }
}

/// The receive state machine run from its initial state over a byte
/// sequence.
pub open spec fn link_run(bytes: Seq<u8>) -> LinkModel {
    link_accept(link_init(), bytes)
}

/// One step grows each counter by at most one, and only extends the emitted
/// frames.
proof fn lemma_link_step_growth(m: LinkModel, b: u8)
    ensures
        ({
            let m2 = spec_link_step(m, b);
            &&& m.frames <= m2.frames <= m.frames + 1
            &&& m.runts <= m2.runts <= m.runts + 1
            &&& m.giants <= m2.giants <= m.giants + 1
            &&& m.checksums <= m2.checksums <= m.checksums + 1
            &&& m.noise <= m2.noise <= m.noise + 1
            &&& m.terminators <= m2.terminators <= m.terminators + 1
            &&& m.recoveries <= m2.recoveries <= m.recoveries + 1
            &&& m2.emitted.len() >= m.emitted.len()
            &&& m2.emitted.take(m.emitted.len() as int) == m.emitted
        }),
{
    let m2 = spec_link_step(m, b);
    assert(m2.emitted.take(m.emitted.len() as int) =~= m.emitted);
}

/// A fold grows each counter by at most the number of bytes consumed.
pub proof fn lemma_link_accept_growth(m: LinkModel, bytes: Seq<u8>)
    ensures
        ({
            let m2 = link_accept(m, bytes);
            &&& m.frames <= m2.frames <= m.frames + bytes.len()
            &&& m.runts <= m2.runts <= m.runts + bytes.len()
            &&& m.giants <= m2.giants <= m.giants + bytes.len()
            &&& m.checksums <= m2.checksums <= m.checksums + bytes.len()
            &&& m.noise <= m2.noise <= m.noise + bytes.len()
        }),
    decreases bytes.len(),
{
    if bytes.len() == 0 {
    } else {
        lemma_link_accept_growth(m, bytes.drop_last());
        lemma_link_step_growth(link_accept(m, bytes.drop_last()), bytes.last());
    }
}

/// The balance each step preserves: while no giant frame has been re-entered
/// (`recoveries == 0`), the four frame counters account for one completed
/// terminator each, except that a giant currently in progress has been
/// counted but not yet terminated.
spec fn counter_balance(m: LinkModel) -> bool {
    m.recoveries == 0 ==> m.frames + m.runts + m.giants + m.checksums == m.terminators + (
    if m.state is Giant || m.state is GiantEscape {
        1nat
    } else {
        0nat
    })
}

proof fn lemma_link_balance_step(m: LinkModel, b: u8)
    requires
        counter_balance(m),
    ensures
        counter_balance(spec_link_step(m, b)),
{
}

proof fn lemma_link_balance_accept(m: LinkModel, bytes: Seq<u8>)
    requires
        counter_balance(m),
    ensures
        counter_balance(link_accept(m, bytes)),
    decreases bytes.len(),
{
    if bytes.len() == 0 {
    } else {
        lemma_link_balance_accept(m, bytes.drop_last());
        lemma_link_balance_step(link_accept(m, bytes.drop_last()), bytes.last());
    }
}

/// Counter conservation: over any byte stream after which the machine is not
/// inside an overlong frame and never recovered a frame from inside one, the
/// counts of valid frames, runts, giants and checksum failures add up to
/// exactly the number of frame-terminator events the machine reached.
pub proof fn lemma_link_counter_conservation(bytes: Seq<u8>)
    requires
        link_run(bytes).recoveries == 0,
        !(link_run(bytes).state is Giant),
        !(link_run(bytes).state is GiantEscape),
    ensures
        link_run(bytes).frames + link_run(bytes).runts + link_run(bytes).giants + link_run(
            bytes,
        ).checksums == link_run(bytes).terminators,
{
    lemma_link_balance_accept(link_init(), bytes);
}

/// The frame models of a sequence of frames.
pub open spec fn frames_view(s: Seq<Frame>) -> Seq<FrameModel> {
    s.map_values(|f: Frame| f@)
}

/// A receiver which converts a series of bytes into a series of `Frame`s.
///
/// The receiver tolerates line errors and attempts to re-synchronize whenever
/// possible. Errors are reported by incrementing counters.
pub struct Receiver {
    pub state: LinkState,
    pub counters: Counters,
    pub buffer: Vec<u8>,
    pub terminators: Ghost<nat>,
    pub recoveries: Ghost<nat>,
}

impl Receiver {
    /// The abstract state this receiver is in, with no emitted frames.
    pub open spec fn model(self) -> LinkModel {
        LinkModel {
            state: self.state,
            buffer: self.buffer@,
            frames: self.counters.frames as nat,
            runts: self.counters.runts as nat,
            giants: self.counters.giants as nat,
            checksums: self.counters.checksums as nat,
            noise: self.counters.noise as nat,
            terminators: self.terminators@,
            recoveries: self.recoveries@,
            emitted: Seq::empty(),
        }
    }

    /// Whether the counters can absorb `n` more input bytes without
    /// overflowing.
    pub open spec fn room_for(self, n: nat) -> bool {
        &&& self.counters.frames + n <= u64::MAX
        &&& self.counters.runts + n <= u64::MAX
        &&& self.counters.giants + n <= u64::MAX
        &&& self.counters.checksums + n <= u64::MAX
        &&& self.counters.noise + n <= u64::MAX
    }

    /// Instantiate a new receiver.
    pub fn new() -> (r: Receiver)
        ensures
            r.model() == link_init(),
    {
        let r = Receiver {
            state: LinkState::Idle,
            counters: Counters { frames: 0, runts: 0, giants: 0, checksums: 0, noise: 0 },
            buffer: Vec::new(),
            terminators: Ghost(0),
            recoveries: Ghost(0),
        };
        proof {
            assert(r.model() =~= link_init());
        }
        r
    }

    /// Retrieve the current counters describing the receiver's activity.
    pub fn counters(&self) -> (r: &Counters)
        ensures
            r == self.counters,
    {
        &self.counters
    }

    /// Reset the counters; the machine state and any partial frame body are
    /// kept.
    pub fn reset_counters(&mut self)
        ensures
            final(self).state == old(self).state,
            final(self).buffer == old(self).buffer,
            final(self).counters.spec_is_zero(),
            final(self).terminators@ == 0,
            final(self).recoveries@ == 0,
    {
        self.counters = Counters { frames: 0, runts: 0, giants: 0, checksums: 0, noise: 0 };
        self.terminators = Ghost(0);
        self.recoveries = Ghost(0);
    }

    /// Validate the completed frame body and emit the frame it carries, if
    /// any, counting the outcome.
    fn terminate_frame(&mut self, out: &mut Vec<Frame>)
        requires
            old(self).counters.frames < u64::MAX,
            old(self).counters.runts < u64::MAX,
            old(self).counters.checksums < u64::MAX,
        ensures
            ({
                let done = LinkModel {
                    state: LinkState::Idle,
                    buffer: Seq::empty(),
                    terminators: old(self).model().terminators + 1,
                    ..old(self).model()
                };
                match spec_body_outcome(old(self).buffer@) {
                    BodyOutcome::Runt => final(self).model() == LinkModel {
                        runts: old(self).model().runts + 1,
                        ..done
                    } && final(out)@ == old(out)@,
                    BodyOutcome::BadCrc => final(self).model() == LinkModel {
                        checksums: old(self).model().checksums + 1,
                        ..done
                    } && final(out)@ == old(out)@,
                    BodyOutcome::Valid(f) => final(self).model() == LinkModel {
                        frames: old(self).model().frames + 1,
                        ..done
                    } && frames_view(final(out)@) == frames_view(old(out)@).push(f),
                }
            }),
    {
        proof {
            self.terminators@ = self.terminators@ + 1;
        }
        self.state = LinkState::Idle;
        if self.buffer.len() < 6 {
            self.counters.runts = self.counters.runts + 1;
            self.buffer.clear();
            return ;
        }
        let n = self.buffer.len();
        let mut data: Vec<u8> = Vec::new();
        let mut i: usize = 0;
        while i < n - 2
            invariant
                0 <= i <= n - 2,
                n == self.buffer@.len(),
                6 <= n,
                data@ == self.buffer@.subrange(0, i as int),
            decreases n - 2 - i,
        {
            data.push(self.buffer[i]);
            i = i + 1;
        }
        proof {
            assert(data@ =~= self.buffer@.take(self.buffer@.len() - 2));
        }
        let c = crc(data.as_slice());
        let expected = (self.buffer[n - 2] as u16) | ((self.buffer[n - 1] as u16) << 8);
        if c != expected {
            self.counters.checksums = self.counters.checksums + 1;
            self.buffer.clear();
            return ;
        }
        let address = Address::from_bytes(self.buffer[0], self.buffer[1]);
        let frame_type = Type((self.buffer[2] as u16) << 8 | (self.buffer[3] as u16));
        let mut payload: Vec<u8> = Vec::new();
        let mut j: usize = 4;
        while j < n - 2
            invariant
                4 <= j <= n - 2,
                n == self.buffer@.len(),
                6 <= n,
                payload@ == self.buffer@.subrange(4, j as int),
            decreases n - 2 - j,
        {
            payload.push(self.buffer[j]);
            j = j + 1;
        }
        self.counters.frames = self.counters.frames + 1;
        let frame = Frame { address, frame_type, payload };
        proof {
            assert(frame@.payload =~= self.buffer@.take(self.buffer@.len() - 2).skip(4));
            assert(spec_body_outcome(self.buffer@) == BodyOutcome::Valid(frame@));
        }
        out.push(frame);
        self.buffer.clear();
        proof {
            assert(frames_view(out@) =~= frames_view(old(out)@).push(frame@));
        }
    }

    /// Add a single byte to the receiver, appending any completed frame to
    /// `out`.
    pub fn push_u8(&mut self, byte: u8, out: &mut Vec<Frame>)
        requires
            old(self).room_for(1),
        ensures
            ({
                let m2 = spec_link_step(old(self).model(), byte);
                &&& final(self).model() == with_emitted(m2, Seq::empty())
                &&& frames_view(final(out)@) == frames_view(old(out)@) + m2.emitted
            }),
    {
        let ghost m2 = spec_link_step(old(self).model(), byte);
        match self.state {
            LinkState::Idle => {
                if byte == 0x00 || byte == 0xff {
                } else if byte == 0x7e {
                    self.state = LinkState::StartOfFrame;
                } else {
                    self.state = LinkState::Noise;
                    self.counters.noise = self.counters.noise + 1;
                }
            },
            LinkState::Noise => {
                if byte == 0x00 || byte == 0xff {
                    self.state = LinkState::Idle;
                } else if byte == 0x7e {
                    self.state = LinkState::StartOfFrame;
                }
            },
            LinkState::StartOfFrame => {
                if byte == 0x07 {
                    self.state = LinkState::Frame;
                } else {
                    self.state = LinkState::Noise;
                    self.counters.noise = self.counters.noise + 1;
                }
            },
            LinkState::Frame => {
                if byte == 0x7e {
                    self.state = LinkState::FrameEscape;
                } else if self.buffer.len() < 256 {
                    self.buffer.push(byte);
                } else {
                    self.state = LinkState::Giant;
                    self.buffer.clear();
                    self.counters.giants = self.counters.giants + 1;
                }
            },
            LinkState::FrameEscape => {
                if byte == 0x08 {
                    self.terminate_frame(out);
                } else {
                    match unescaped_byte(byte) {
                        Ok(b) => {
                            if self.buffer.len() < 256 {
                                self.buffer.push(b);
                                self.state = LinkState::Frame;
                            } else {
                                self.state = LinkState::Giant;
                                self.buffer.clear();
                                self.counters.giants = self.counters.giants + 1;
                            }
                        },
                        Err(_) => {
                            self.state = LinkState::Noise;
                            self.buffer.clear();
                            self.counters.noise = self.counters.noise + 1;
                        },
                    }
                }
            },
            LinkState::Giant => {
                if byte == 0x7e {
                    self.state = LinkState::GiantEscape;
                }
            },
            LinkState::GiantEscape => {
                if byte == 0x07 {
                    self.state = LinkState::Frame;
                    proof {
                        self.recoveries@ = self.recoveries@ + 1;
                    }
                } else if byte == 0x08 {
                    self.state = LinkState::Idle;
                    proof {
                        self.terminators@ = self.terminators@ + 1;
                    }
                } else {
                    self.state = LinkState::Giant;
                }
            },
        }
        proof {
            assert(self.model() =~= with_emitted(m2, Seq::empty()));
            assert(frames_view(out@) =~= frames_view(old(out)@) + m2.emitted);
        }
    }

    /// Add a slice of bytes to the receiver, appending completed frames to
    /// `out`.
    pub fn extend_from_slice(&mut self, buffer: &[u8], out: &mut Vec<Frame>)
        requires
            old(self).room_for(buffer@.len()),
        ensures
            ({
                let m2 = link_accept(old(self).model(), buffer@);
                &&& final(self).model() == with_emitted(m2, Seq::empty())
                &&& frames_view(final(out)@) == frames_view(old(out)@) + m2.emitted
            }),
    {
        let mut i: usize = 0;
        while i < buffer.len()
            invariant
                0 <= i <= buffer@.len(),
                self.model() == with_emitted(
                    link_accept(old(self).model(), buffer@.subrange(0, i as int)),
                    Seq::empty(),
                ),
                frames_view(out@) == frames_view(old(out)@) + link_accept(
                    old(self).model(),
                    buffer@.subrange(0, i as int),
                ).emitted,
                old(self).room_for(buffer@.len()),
            decreases buffer@.len() - i,
        {
            proof {
                lemma_link_accept_growth(old(self).model(), buffer@.subrange(0, i as int));
            }
            let ghost pre = link_accept(old(self).model(), buffer@.subrange(0, i as int));
            self.push_u8(buffer[i], out);
            proof {
                assert(buffer@.subrange(0, i as int + 1).drop_last() =~= buffer@.subrange(
                    0,
                    i as int,
                ));
                let step = spec_link_step(with_emitted(pre, Seq::empty()), buffer@[i as int]);
                let full = spec_link_step(pre, buffer@[i as int]);
                assert(with_emitted(step, Seq::empty()) =~= with_emitted(full, Seq::empty()));
                assert(pre.emitted + step.emitted =~= full.emitted);
                assert(frames_view(out@) =~= frames_view(old(out)@) + link_accept(
                    old(self).model(),
                    buffer@.subrange(0, i as int + 1),
                ).emitted);
            }
            i = i + 1;
        }
        proof {
            assert(buffer@.subrange(0, buffer@.len() as int) =~= buffer@);
        }
    }
}

} // verus!
