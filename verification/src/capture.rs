//! Audio capture chain: raw device samples, scaled by the input volume and
//! passed through the noise gate, are accumulated until exactly one frame's
//! worth is available, encoded, numbered, and pushed into a bounded outgoing
//! queue feeding the transport.
//!
//! The device callback must never block: when the queue is full because the
//! transport stalled, the newest frame is dropped — the producer is never
//! held up.

use vstd::prelude::*;
use crate::codec::{encoded_payload, FrameCodec, FRAME_SAMPLES};
use crate::codec::{append_samples, prefix_samples, suffix_samples};
use crate::gate::{gate_output, gate_run, GateModel, NoiseGate};
use crate::mixer::{clamp, scaled, VOLUME_MAX, VOLUME_UNITY};

verus! {

/// Where a voice frame is aimed: ordinary speech to the current channel, a
/// configured whisper target, or a shout to a channel target. Wire targets
/// are five bits; targets 1 through 30 name whisper/shout registrations.
#[derive(Clone, Copy, Debug, PartialEq, Eq, Structural)]
pub enum VoiceTarget {
    Normal,
    Whisper(u8),
    Shout(u8),
}

impl VoiceTarget {
    pub open spec fn wf(self) -> bool {
        match self {
            VoiceTarget::Normal => true,
            VoiceTarget::Whisper(n) => 1 <= n <= 30,
            VoiceTarget::Shout(n) => 1 <= n <= 30,
        }
    }

    /// The five-bit code this target travels as; a target outside the
    /// valid registration range falls back to normal speech.
    pub fn code(self) -> (r: u8)
        ensures
            r < 32,
            self == VoiceTarget::Normal ==> r == 0,
            forall|n: u8| self == VoiceTarget::Whisper(n) && self.wf() ==> r == n,
            forall|n: u8| self == VoiceTarget::Shout(n) && self.wf() ==> r == n,
    {
        match self {
            VoiceTarget::Normal => 0,
            VoiceTarget::Whisper(n) => if 1 <= n && n <= 30 {
                n
            } else {
                0
            },
            VoiceTarget::Shout(n) => if 1 <= n && n <= 30 {
                n
            } else {
                0
            },
        }
    }
}

/// One encoded voice frame: a per-direction sequence number, a target, the
/// compressed payload, and optional positional data (carried opaquely as the
/// three raw 32-bit patterns of the sender's coordinate triple).
pub struct EncodedVoiceFrame {
    pub seq_num: u64,
    pub target: VoiceTarget,
    pub payload: Vec<u8>,
    pub position: Option<(u32, u32, u32)>,
}

/// Sequence numbers advance by one per frame and wrap at the end of the
/// 64-bit space.
pub open spec fn seq_add(s: u64, t: int) -> u64 {
    ((s + t) % 0x1_0000_0000_0000_0000) as u64
}

/// A raw sample scaled by the input volume and clamped back into sample
/// range.
pub open spec fn input_scaled(s: i16, volume: u32) -> int {
    clamp(scaled(s, volume, false))
}

/// A whole block scaled by the input volume.
pub open spec fn scaled_block(xs: Seq<i16>, volume: u32) -> Seq<i16> {
    Seq::new(xs.len(), |i: int| input_scaled(xs[i], volume) as i16)
}

/// What the noise gate emits for each position of `ys`, starting from gate
/// state `m`.
pub open spec fn gate_outputs(m: GateModel, ys: Seq<i16>) -> Seq<i16> {
    Seq::new(ys.len(), |i: int| gate_output(gate_run(m, ys.take(i)), ys[i]))
}

/// The samples the chain appends to its pending buffer for a raw input
/// block: scale by the input volume, then gate.
pub open spec fn processed(m: GateModel, volume: u32, xs: Seq<i16>) -> Seq<i16> {
    gate_outputs(m, scaled_block(xs, volume))
}

/// Does `f` carry sequence number `seq` and exactly the encoding of
/// `samples`, aimed at normal speech with no position?
pub open spec fn frame_matches(f: EncodedVoiceFrame, seq: u64, samples: Seq<i16>) -> bool {
    &&& f.seq_num == seq
    &&& f.target == VoiceTarget::Normal
    &&& f.payload@ == encoded_payload(samples)
    &&& f.position is None
}

/// Device samples to encoded, numbered network frames.
pub struct AudioCaptureChain {
    gate: NoiseGate,
    pending: Vec<i16>,
    next_seq: u64,
    channels: u8,
    volume: u32,
    queue: Vec<EncodedVoiceFrame>,
    capacity: usize,
}

impl AudioCaptureChain {
    pub closed spec fn gate_view(&self) -> GateModel {
        self.gate@
    }

    pub closed spec fn pending_view(&self) -> Seq<i16> {
        self.pending@
    }

    pub closed spec fn next_seq_spec(&self) -> u64 {
        self.next_seq
    }

    pub closed spec fn channels_spec(&self) -> u8 {
        self.channels
    }

    pub closed spec fn volume_spec(&self) -> u32 {
        self.volume
    }

    pub closed spec fn queue_view(&self) -> Seq<EncodedVoiceFrame> {
        self.queue@
    }

    pub closed spec fn capacity_spec(&self) -> usize {
        self.capacity
    }

    /// Samples in one frame at this chain's channel count.
    pub open spec fn frame_len(&self) -> int {
        FRAME_SAMPLES as int * self.channels_spec() as int
    }

    pub open spec fn wf(&self) -> bool {
        &&& self.gate_view().wf()
        &&& self.channels_spec() == 1 || self.channels_spec() == 2
        &&& self.volume_spec() <= VOLUME_MAX
        &&& self.pending_view().len() < self.frame_len()
        &&& self.queue_view().len() <= self.capacity_spec()
        &&& self.capacity_spec() >= 1
    }

    /// A fresh chain: closed gate over a silent lookback ring, no pending
    /// samples, sequence numbering starting at zero, empty queue.
    pub fn new(channels: u8, capacity: usize, lookback: usize, activate: u16, deactivate: u16) -> (r:
        AudioCaptureChain)
        requires
            channels == 1 || channels == 2,
            capacity >= 1,
            lookback >= 1,
            deactivate < activate,
        ensures
            r.wf(),
            r.pending_view().len() == 0,
            r.next_seq_spec() == 0,
            r.channels_spec() == channels,
            r.volume_spec() == VOLUME_UNITY,
            r.queue_view().len() == 0,
            r.capacity_spec() == capacity,
            !r.gate_view().open,
    {
        AudioCaptureChain {
            gate: NoiseGate::new(lookback, activate, deactivate),
            pending: Vec::new(),
            next_seq: 0,
            channels,
            volume: VOLUME_UNITY,
            queue: Vec::new(),
            capacity,
        }
    }

    /// Change the input volume applied before gating.
    pub fn set_volume(&mut self, volume: u32)
        requires
            old(self).wf(),
            volume <= VOLUME_MAX,
        ensures
            final(self).wf(),
            final(self).volume_spec() == volume,
            final(self).pending_view() == old(self).pending_view(),
            final(self).queue_view() == old(self).queue_view(),
            final(self).next_seq_spec() == old(self).next_seq_spec(),
            final(self).gate_view() == old(self).gate_view(),
            final(self).channels_spec() == old(self).channels_spec(),
            final(self).capacity_spec() == old(self).capacity_spec(),
    {
        self.volume = volume;
    }

    /// Next outgoing frame, if the transport asks for one: frames leave the
    /// queue in production order, whichever path will carry them.
    pub fn pop_frame(&mut self) -> (r: Option<EncodedVoiceFrame>)
        requires
            old(self).wf(),
        ensures
            final(self).wf(),
            final(self).pending_view() == old(self).pending_view(),
            final(self).next_seq_spec() == old(self).next_seq_spec(),
            final(self).gate_view() == old(self).gate_view(),
            final(self).channels_spec() == old(self).channels_spec(),
            final(self).volume_spec() == old(self).volume_spec(),
            final(self).capacity_spec() == old(self).capacity_spec(),
            old(self).queue_view().len() == 0 ==> r is None && final(self).queue_view()
                == old(self).queue_view(),
            old(self).queue_view().len() > 0 ==> r == Some(old(self).queue_view()[0])
                && final(self).queue_view() == old(self).queue_view().skip(1),
    {
        if self.queue.len() > 0 {
            let f = self.queue.remove(0);
            proof {
                assert(old(self).queue_view().remove(0) =~= old(self).queue_view().skip(1));
            }
            Some(f)
        } else {
            None
        }
    }

    /// Feed one block of raw device samples through the chain: scale, gate,
    /// accumulate, and for every full frame's worth of samples encode one
    /// frame carrying the next sequence number. Frames are appended to the
    /// outgoing queue; once the queue is full each further (newest) frame is
    /// dropped rather than blocking the producer.
    pub fn push_samples(&mut self, block: &Vec<i16>)
        requires
            old(self).wf(),
        ensures
            final(self).wf(),
            final(self).channels_spec() == old(self).channels_spec(),
            final(self).volume_spec() == old(self).volume_spec(),
            final(self).capacity_spec() == old(self).capacity_spec(),
            final(self).gate_view() == gate_run(
                old(self).gate_view(),
                scaled_block(block@, old(self).volume_spec()),
            ),
            ({
                let combined = old(self).pending_view() + processed(
                    old(self).gate_view(),
                    old(self).volume_spec(),
                    block@,
                );
                let flen = old(self).frame_len();
                let nf = combined.len() as int / flen;
                let qlen0 = old(self).queue_view().len() as int;
                &&& final(self).pending_view() =~= combined.skip(nf * flen)
                &&& final(self).next_seq_spec() == seq_add(old(self).next_seq_spec(), nf)
                &&& final(self).queue_view().len() as int == (if qlen0 + nf
                    <= old(self).capacity_spec() as int {
                    qlen0 + nf
                } else {
                    old(self).capacity_spec() as int
                })
                &&& forall|i: int|
                    0 <= i < qlen0 ==> (#[trigger] final(self).queue_view()[i]) == old(
                        self,
                    ).queue_view()[i]
                &&& forall|t: int|
                    0 <= t < final(self).queue_view().len() - qlen0 ==> frame_matches(
                        #[trigger] final(self).queue_view()[qlen0 + t],
                        seq_add(old(self).next_seq_spec(), t),
                        combined.subrange(t * flen, (t + 1) * flen),
                    )
            }),
    {
        let ghost m0 = self.gate@;
        let ghost vol = self.volume;
        // Scale the raw block by the input volume.
        let mut scaled_in: Vec<i16> = Vec::new();
        let mut i: usize = 0;
        while i < block.len()
            invariant
                i <= block@.len(),
                self == old(self),
                old(self).wf(),
                scaled_in@.len() == i,
                forall|q: int| 0 <= q < i ==> scaled_in@[q] == input_scaled(block@[q], vol) as i16,
                vol == self.volume,
            decreases block@.len() - i,
        {
            scaled_in.push(scale_input(block[i], self.volume));
            i = i + 1;
        }
        proof {
            assert(scaled_in@ =~= scaled_block(block@, vol));
        }
        // Gate the scaled block, advancing the lookback ring.
        let gated = self.gate.process_block(&scaled_in);
        proof {
            assert(gated@ =~= processed(m0, vol, block@));
        }
        // Accumulate, then drain every full frame.
        append_samples(&mut self.pending, &gated);
        let ghost combined = old(self).pending_view() + processed(m0, vol, block@);
        proof {
            assert(self.pending@ =~= combined);
        }
        let flen: usize = FRAME_SAMPLES * self.channels as usize;
        let clen: usize = self.pending.len();
        proof {
            assert(combined.len() == clen);
        }
        let ghost nf = combined.len() as int / (flen as int);
        let ghost seq0 = self.next_seq;
        let ghost queue0 = self.queue@;
        let ghost cap = self.capacity as int;
        let mut t: usize = 0;
        proof {
            assert(combined.skip(0) =~= combined);
        }
        while self.pending.len() >= flen
            invariant
                old(self).wf(),
                flen == old(self).frame_len(),
                self.channels == old(self).channels_spec(),
                self.volume == old(self).volume_spec(),
                self.capacity == old(self).capacity_spec(),
                cap == self.capacity as int,
                queue0.len() <= cap,
                self.gate@ == gate_run(m0, scaled_block(block@, vol)),
                t as int * flen as int <= combined.len(),
                combined.len() <= usize::MAX,
                self.pending@ =~= combined.skip(t as int * flen as int),
                self.next_seq == seq_add(seq0, t as int),
                self.queue@.len() as int == (if queue0.len() + t <= cap {
                    queue0.len() as int + t
                } else {
                    cap
                }),
                forall|i: int| 0 <= i < queue0.len() ==> (#[trigger] self.queue@[i]) == queue0[i],
                forall|u: int|
                    0 <= u < self.queue@.len() - queue0.len() ==> frame_matches(
                        #[trigger] self.queue@[queue0.len() + u],
                        seq_add(seq0, u),
                        combined.subrange(u * flen as int, (u + 1) * flen as int),
                    ),
            decreases self.pending@.len(),
        {
            let frame_block = prefix_samples(&self.pending, flen);
            self.pending = suffix_samples(&self.pending, flen);
            proof {
                let a = t as int * flen as int;
                assert((t as int + 1) * flen as int == a + flen as int && t as int <= a)
                    by (nonlinear_arith)
                    requires
                        a == t as int * flen as int,
                        flen >= 1,
                        t >= 0,
                {
                }
                assert(a + flen as int <= combined.len());
                assert((t as int) < usize::MAX as int);
                assert(combined.skip(a).skip(flen as int) =~= combined.skip(a + flen as int));
                assert(frame_block@ =~= combined.subrange(a, a + flen as int));
            }
            let payload = FrameCodec::encode(&frame_block);
            let frame = EncodedVoiceFrame {
                seq_num: self.next_seq,
                target: VoiceTarget::Normal,
                payload,
                position: None,
            };
            self.next_seq = self.next_seq.wrapping_add(1);
            proof {
                vstd::arithmetic::div_mod::lemma_add_mod_noop(
                    seq0 as int + t as int,
                    1,
                    0x1_0000_0000_0000_0000,
                );
                assert(seq_add(seq0, t as int) as int % 0x1_0000_0000_0000_0000
                    == seq_add(seq0, t as int) as int);
                assert(self.next_seq == seq_add(seq0, t + 1));
            }
            let ghost qbefore = self.queue@.len() as int;
            if self.queue.len() < self.capacity {
                self.queue.push(frame);
            }
            t = t + 1;
            proof {
                if queue0.len() + t <= cap {
                    assert(qbefore == queue0.len() + t - 1);
                    assert(qbefore < cap);
                    assert(self.queue@.len() == qbefore + 1);
                } else {
                    assert(self.queue@.len() as int == cap);
                }
            }
        }
        proof {
            assert(t as int == nf) by (nonlinear_arith)
                requires
                    flen >= 1,
                    t as int * flen as int <= combined.len(),
                    combined.len() < t as int * flen as int + flen as int,
                    nf == combined.len() as int / (flen as int),
            {
            }
        }
    }
}

/// Executable input scaling: multiply by the volume and clamp back into the
/// sample range.
fn scale_input(s: i16, volume: u32) -> (r: i16)
    requires
        volume <= VOLUME_MAX,
    ensures
        r as int == input_scaled(s, volume),
{
    proof {
        crate::mixer::lemma_scaled_bound(s, volume, false);
    }
    let wide: i64 = if s >= 0 {
        (((s as u64) * (volume as u64)) / 256) as i64
    } else {
        let m: u64 = (-(s as i32)) as u64;
        -(((m * (volume as u64)) / 256) as i64)
    };
    proof {
        if s >= 0 {
            assert((s as int) * (volume as int) <= 0x8000 * 0x10000) by (nonlinear_arith)
                requires
                    0 <= s <= 0x8000,
                    volume <= 0x10000,
            {
            }
        } else {
            assert((-(s as int)) * (volume as int) <= 0x8000 * 0x10000) by (nonlinear_arith)
                requires
                    0 < -(s as int) <= 0x8000,
                    volume <= 0x10000,
            {
            }
        }
        assert(wide as int == scaled(s, volume, false));
    }
    if wide > 32767 {
        32767
    } else if wide < -32768 {
        -32768
    } else {
        wide as i16
    }
}

} // verus!
