//! Per-peer decode buffers and the additive playback mixer.
//!
//! Each remote session id that is a member of the connected session owns a
//! `PeerStream`: a backlog of decoded samples awaiting playback, an
//! independent volume and a mute flag. The device pull mixes every backlog
//! additively with saturating arithmetic — the output is clamped to the
//! valid sample range, never wrapped — zero-padding any backlog that runs
//! short, so the device callback never waits for network data. Queued
//! sound-effect samples are mixed in identically, as a virtual peer at
//! fixed unity volume.

use vstd::prelude::*;
use crate::codec::{decoded_samples, FrameCodec};

verus! {

/// Largest valid output sample.
pub const SAMPLE_MAX: i16 = 32767;

/// Smallest valid output sample.
pub const SAMPLE_MIN: i16 = -32768;

/// Unity gain: volumes are fixed-point with this denominator.
pub const VOLUME_UNITY: u32 = 256;

/// Largest accepted volume (256 times unity).
pub const VOLUME_MAX: u32 = 0x10000;

/// Per-remote-session decode and mix state, never shared between peers.
pub struct PeerStream {
    /// Decoded samples awaiting playback, in arrival order.
    pub backlog: Vec<i16>,
    /// Gain applied at mix time, in 1/256 steps.
    pub volume: u32,
    /// A muted peer contributes nothing regardless of volume.
    pub muted: bool,
}

impl PeerStream {
    pub open spec fn wf(&self) -> bool {
        self.volume <= VOLUME_MAX
    }

    /// A freshly created peer: empty backlog, unity volume, not muted.
    pub fn new() -> (r: PeerStream)
        ensures
            r.backlog@ =~= Seq::<i16>::empty(),
            r.volume == VOLUME_UNITY,
            !r.muted,
            r.wf(),
    {
        PeerStream { backlog: Vec::new(), volume: VOLUME_UNITY, muted: false }
    }
}

/// A sample scaled by a peer's volume, or nothing if the peer is muted. The
/// division is carried out on the magnitude so it truncates the same way for
/// either sign.
pub open spec fn scaled(s: i16, volume: u32, muted: bool) -> int {
    if muted {
        0
    } else if s >= 0 {
        (s * volume) / (VOLUME_UNITY as int)
    } else {
        -(((-(s as int)) * volume) / (VOLUME_UNITY as int))
    }
}

/// What peer `p` contributes at offset `k` of a device pull: its `k`-th
/// backlog sample scaled by its volume, or zero padding past the backlog.
pub open spec fn contribution(p: PeerStream, k: int) -> int {
    if 0 <= k < p.backlog@.len() {
        scaled(p.backlog@[k], p.volume, p.muted)
    } else {
        0
    }
}

/// The exact (unclamped) sum of every peer's contribution at offset `k`.
pub open spec fn mix_sum(peers: Seq<(u32, PeerStream)>, k: int) -> int
    decreases peers.len(),
{
    if peers.len() == 0 {
        0
    } else {
        mix_sum(peers.drop_last(), k) + contribution(peers.last().1, k)
    }
}

/// The sound-effect queue's contribution at offset `k` (a virtual peer at
/// fixed unity volume).
pub open spec fn effect_at(effects: Seq<i16>, k: int) -> int {
    if 0 <= k < effects.len() {
        effects[k] as int
    } else {
        0
    }
}

/// Saturation to the valid sample range.
pub open spec fn clamp(x: int) -> int {
    if x > SAMPLE_MAX as int {
        SAMPLE_MAX as int
    } else if x < SAMPLE_MIN as int {
        SAMPLE_MIN as int
    } else {
        x
    }
}

/// The value the mixer owes the device at offset `k`: the clamped sum of
/// every peer's scaled contribution and the sound-effect queue.
pub open spec fn mixed_value(peers: Seq<(u32, PeerStream)>, effects: Seq<i16>, k: int) -> int {
    clamp(mix_sum(peers, k) + effect_at(effects, k))
}

/// Whether a `PeerStream` exists for session id `id`.
pub open spec fn has_peer(peers: Seq<(u32, PeerStream)>, id: u32) -> bool {
    exists|i: int| 0 <= i < peers.len() && peers[i].0 == id
}

/// The index of `id`'s entry (meaningful only when ids are unique and the
/// peer is present).
pub open spec fn peer_index(peers: Seq<(u32, PeerStream)>, id: u32) -> int {
    choose|i: int| 0 <= i < peers.len() && peers[i].0 == id
}

/// Mixer state: one `PeerStream` per member session id, plus the queued
/// sound-effect samples.
pub struct AudioPlaybackMixer {
    peers: Vec<(u32, PeerStream)>,
    effects: Vec<i16>,
}

impl AudioPlaybackMixer {
    pub closed spec fn peers_view(&self) -> Seq<(u32, PeerStream)> {
        self.peers@
    }

    pub closed spec fn effects_view(&self) -> Seq<i16> {
        self.effects@
    }

    /// Session ids are unique, every peer is well formed, and the table is
    /// bounded by the session-id space.
    pub open spec fn wf(&self) -> bool {
        &&& forall|i: int, j: int|
            0 <= i < j < self.peers_view().len() ==> self.peers_view()[i].0
                != self.peers_view()[j].0
        &&& forall|i: int|
            0 <= i < self.peers_view().len() ==> (#[trigger] self.peers_view()[i].1).wf()
        &&& self.peers_view().len() <= u32::MAX
    }

    pub fn new() -> (r: AudioPlaybackMixer)
        ensures
            r.wf(),
            r.peers_view() =~= Seq::<(u32, PeerStream)>::empty(),
            r.effects_view() =~= Seq::<i16>::empty(),
    {
        AudioPlaybackMixer { peers: Vec::new(), effects: Vec::new() }
    }

    /// Index of `id` in the peer table, if present.
    fn find(&self, id: u32) -> (r: Option<usize>)
        ensures
            match r {
                Some(i) => i < self.peers_view().len() && self.peers_view()[i as int].0 == id,
                None => !has_peer(self.peers_view(), id),
            },
    {
        let mut i: usize = 0;
        while i < self.peers.len()
            invariant
                i <= self.peers@.len(),
                forall|j: int| 0 <= j < i ==> self.peers@[j].0 != id,
            decreases self.peers@.len() - i,
        {
            if self.peers[i].0 == id {
                return Some(i);
            }
            i = i + 1;
        }
        None
    }

    /// Whether a `PeerStream` exists for `id`.
    pub fn has_client(&self, id: u32) -> (r: bool)
        ensures
            r == has_peer(self.peers_view(), id),
    {
        self.find(id).is_some()
    }

    /// Create the `PeerStream` for a newly joined member. Creating a peer
    /// that already exists changes nothing; the table is full once every
    /// session id is taken, and a join beyond that bound is ignored.
    pub fn add_client(&mut self, id: u32)
        requires
            old(self).wf(),
        ensures
            final(self).wf(),
            final(self).effects_view() == old(self).effects_view(),
            has_peer(old(self).peers_view(), id) || old(self).peers_view().len() == u32::MAX
                ==> final(self).peers_view() == old(self).peers_view(),
            !has_peer(old(self).peers_view(), id) && old(self).peers_view().len() < u32::MAX ==> {
                &&& final(self).peers_view().len() == old(self).peers_view().len() + 1
                &&& final(self).peers_view().drop_last() == old(self).peers_view()
                &&& final(self).peers_view().last().0 == id
                &&& final(self).peers_view().last().1.backlog@.len() == 0
                &&& final(self).peers_view().last().1.volume == VOLUME_UNITY
                &&& !final(self).peers_view().last().1.muted
            },
            has_peer(final(self).peers_view(), id) || old(self).peers_view().len() == u32::MAX,
    {
        if self.find(id).is_none() && self.peers.len() < u32::MAX as usize {
            let fresh = PeerStream::new();
            self.peers.push((id, fresh));
            proof {
                assert(self.peers@.drop_last() =~= old(self).peers_view());
                assert(self.peers@[self.peers@.len() - 1].0 == id);
            }
        }
    }

    /// Destroy the `PeerStream` of a leaving member: the stream and any
    /// still-mixing tail disappear immediately; every other peer is kept in
    /// order and untouched.
    pub fn remove_client(&mut self, id: u32)
        requires
            old(self).wf(),
        ensures
            final(self).wf(),
            final(self).effects_view() == old(self).effects_view(),
            !has_peer(final(self).peers_view(), id),
            !has_peer(old(self).peers_view(), id) ==> final(self).peers_view() == old(self).peers_view(),
            has_peer(old(self).peers_view(), id) ==> final(self).peers_view() == old(self)
                .peers_view().remove(peer_index(old(self).peers_view(), id)),
    {
        match self.find(id) {
            Some(i) => {
                self.peers.remove(i);
                proof {
                    let old_peers = old(self).peers_view();
                    let ci = peer_index(old_peers, id);
                    assert(0 <= ci < old_peers.len() && old_peers[ci].0 == id);
                    assert(ci == i);
                    assert forall|k: int|
                        0 <= k < self.peers_view().len() implies (#[trigger] self.peers_view()[k])
                        == (if k < i as int {
                        old_peers[k]
                    } else {
                        old_peers[k + 1]
                    }) by {}
                    assert forall|k: int|
                        0 <= k < self.peers_view().len() implies self.peers_view()[k].0 != id by {
                        if k < i as int {
                        } else {
                            assert(old_peers[i as int].0 != old_peers[k + 1].0);
                        }
                    }
                }
            },
            None => {},
        }
    }

    /// Drop every `PeerStream`: a disconnect leaves no per-connection state
    /// behind.
    pub fn clear_clients(&mut self)
        ensures
            final(self).wf(),
            final(self).peers_view() =~= Seq::<(u32, PeerStream)>::empty(),
            final(self).effects_view() == old(self).effects_view(),
    {
        self.peers.clear();
    }

    /// Set the incoming volume of a user; a volume for a not-yet-seen user
    /// creates its `PeerStream` with that volume, mirroring the original
    /// entry semantics.
    pub fn set_user_volume(&mut self, id: u32, volume: u32)
        requires
            old(self).wf(),
            volume <= VOLUME_MAX,
        ensures
            final(self).wf(),
            final(self).effects_view() == old(self).effects_view(),
            forall|i: int|
                0 <= i < old(self).peers_view().len() && old(self).peers_view()[i].0 != id ==> (
                #[trigger] final(self).peers_view()[i]) == old(self).peers_view()[i],
            has_peer(old(self).peers_view(), id) ==> {
                &&& final(self).peers_view().len() == old(self).peers_view().len()
                &&& forall|i: int|
                    0 <= i < old(self).peers_view().len() && (#[trigger] old(self).peers_view()[i]).0
                        == id ==> final(self).peers_view()[i].0 == id && final(self).peers_view()[i].1.volume == volume && final(self).peers_view()[i].1.muted
                        == old(self).peers_view()[i].1.muted && final(self).peers_view()[i].1.backlog@ == old(self).peers_view()[i].1.backlog@
            },
            !has_peer(old(self).peers_view(), id) && old(self).peers_view().len() < u32::MAX ==> {
                &&& final(self).peers_view().len() == old(self).peers_view().len() + 1
                &&& final(self).peers_view().drop_last() == old(self).peers_view()
                &&& final(self).peers_view().last().0 == id
                &&& final(self).peers_view().last().1.volume == volume
                &&& !final(self).peers_view().last().1.muted
                &&& final(self).peers_view().last().1.backlog@.len() == 0
            },
            !has_peer(old(self).peers_view(), id) && old(self).peers_view().len() == u32::MAX
                ==> final(self).peers_view() == old(self).peers_view(),
    {
        match self.find(id) {
            Some(i) => {
                proof {
                    assert(has_peer(old(self).peers_view(), id));
                }
                let (pid, ps) = self.peers.remove(i);
                let updated = PeerStream { backlog: ps.backlog, volume, muted: ps.muted };
                self.peers.insert(i, (pid, updated));
                proof {
                    assert forall|k: int|
                        0 <= k < self.peers_view().len() && k != i implies (#[trigger] self
                            .peers_view()[k]) == old(self).peers_view()[k] by {
                        assert(self.peers_view() == old(self).peers_view().remove(i as int).insert(
                            i as int,
                            self.peers_view()[i as int],
                        ));
                    }
                    assert forall|k: int|
                        0 <= k < old(self).peers_view().len() && (#[trigger] old(self).peers_view()[k]).0
                            == id implies k == i as int by {
                        if k < i as int {
                            assert(old(self).peers_view()[k].0 != old(self).peers_view()[i as int].0);
                        }
                        if k > i as int {
                            assert(old(self).peers_view()[i as int].0 != old(self).peers_view()[k].0);
                        }
                    }
                }
            },
            None => {
                if self.peers.len() < u32::MAX as usize {
                    let fresh = PeerStream::new();
                    self.peers.push((id, PeerStream { backlog: fresh.backlog, volume, muted: false }));
                    proof {
                        assert(self.peers@.drop_last() =~= old(self).peers_view());
                    }
                }
            },
        }
    }

    /// Mute or unmute a user, keeping the volume and backlog; muting a
    /// not-yet-seen user creates its `PeerStream` muted at unity volume.
    pub fn set_mute(&mut self, id: u32, mute: bool)
        requires
            old(self).wf(),
        ensures
            final(self).wf(),
            final(self).effects_view() == old(self).effects_view(),
            forall|i: int|
                0 <= i < old(self).peers_view().len() && old(self).peers_view()[i].0 != id ==> (
                #[trigger] final(self).peers_view()[i]) == old(self).peers_view()[i],
            has_peer(old(self).peers_view(), id) ==> {
                &&& final(self).peers_view().len() == old(self).peers_view().len()
                &&& forall|i: int|
                    0 <= i < old(self).peers_view().len() && (#[trigger] old(self).peers_view()[i]).0
                        == id ==> final(self).peers_view()[i].0 == id && final(self).peers_view()[i].1.muted == mute && final(self).peers_view()[i].1.volume
                        == old(self).peers_view()[i].1.volume && final(self).peers_view()[i].1.backlog@ == old(self).peers_view()[i].1.backlog@
            },
            !has_peer(old(self).peers_view(), id) && old(self).peers_view().len() < u32::MAX ==> {
                &&& final(self).peers_view().len() == old(self).peers_view().len() + 1
                &&& final(self).peers_view().drop_last() == old(self).peers_view()
                &&& final(self).peers_view().last().0 == id
                &&& final(self).peers_view().last().1.muted == mute
                &&& final(self).peers_view().last().1.volume == VOLUME_UNITY
                &&& final(self).peers_view().last().1.backlog@.len() == 0
            },
            !has_peer(old(self).peers_view(), id) && old(self).peers_view().len() == u32::MAX
                ==> final(self).peers_view() == old(self).peers_view(),
    {
        match self.find(id) {
            Some(i) => {
                proof {
                    assert(has_peer(old(self).peers_view(), id));
                }
                let (pid, ps) = self.peers.remove(i);
                let updated = PeerStream { backlog: ps.backlog, volume: ps.volume, muted: mute };
                self.peers.insert(i, (pid, updated));
                proof {
                    assert forall|k: int|
                        0 <= k < self.peers_view().len() && k != i implies (#[trigger] self
                            .peers_view()[k]) == old(self).peers_view()[k] by {
                        assert(self.peers_view() == old(self).peers_view().remove(i as int).insert(
                            i as int,
                            self.peers_view()[i as int],
                        ));
                    }
                    assert forall|k: int|
                        0 <= k < old(self).peers_view().len() && (#[trigger] old(self).peers_view()[k]).0
                            == id implies k == i as int by {
                        if k < i as int {
                            assert(old(self).peers_view()[k].0 != old(self).peers_view()[i as int].0);
                        }
                        if k > i as int {
                            assert(old(self).peers_view()[i as int].0 != old(self).peers_view()[k].0);
                        }
                    }
                }
            },
            None => {
                if self.peers.len() < u32::MAX as usize {
                    let fresh = PeerStream::new();
                    self.peers.push(
                        (id, PeerStream { backlog: fresh.backlog, volume: VOLUME_UNITY, muted: mute }),
                    );
                    proof {
                        assert(self.peers@.drop_last() =~= old(self).peers_view());
                    }
                }
            },
        }
    }

    /// Handle one voice payload for session `id`, out of band of the device
    /// callback: decode it and append the samples to that peer's backlog in
    /// arrival order. A payload for a session id with no `PeerStream` is
    /// dropped and has no side effect at all, and a payload the codec
    /// rejects is dropped likewise.
    pub fn decode_packet_payload(&mut self, id: u32, payload: &Vec<u8>) -> (accepted: bool)
        requires
            old(self).wf(),
        ensures
            final(self).wf(),
            final(self).effects_view() == old(self).effects_view(),
            accepted == (has_peer(old(self).peers_view(), id) && payload@.len() % 2 == 0),
            !accepted ==> final(self).peers_view() == old(self).peers_view(),
            accepted ==> {
                let i = peer_index(old(self).peers_view(), id);
                &&& final(self).peers_view().len() == old(self).peers_view().len()
                &&& forall|k: int|
                    0 <= k < old(self).peers_view().len() && k != i ==> (#[trigger] final(self).peers_view()[k]) == old(self).peers_view()[k]
                &&& final(self).peers_view()[i].0 == id
                &&& final(self).peers_view()[i].1.backlog@ =~= old(self).peers_view()[i].1.backlog@
                    + decoded_samples(payload@)
                &&& final(self).peers_view()[i].1.volume == old(self).peers_view()[i].1.volume
                &&& final(self).peers_view()[i].1.muted == old(self).peers_view()[i].1.muted
            },
    {
        let idx = match self.find(id) {
            Some(i) => i,
            None => {
                return false;
            },
        };
        let samples = match FrameCodec::decode(payload) {
            Some(s) => s,
            None => {
                return false;
            },
        };
        proof {
            let old_peers = old(self).peers_view();
            assert(0 <= peer_index(old_peers, id) < old_peers.len() && old_peers[peer_index(
                old_peers,
                id,
            )].0 == id);
            assert(peer_index(old_peers, id) == idx as int);
        }
        let (pid, ps) = self.peers.remove(idx);
        let mut backlog = ps.backlog;
        crate::codec::append_samples(&mut backlog, &samples);
        let updated = PeerStream { backlog, volume: ps.volume, muted: ps.muted };
        self.peers.insert(idx, (pid, updated));
        proof {
            assert forall|k: int|
                0 <= k < self.peers_view().len() && k != idx implies (#[trigger] self
                    .peers_view()[k]) == old(self).peers_view()[k] by {
                assert(self.peers_view() == old(self).peers_view().remove(idx as int).insert(
                    idx as int,
                    self.peers_view()[idx as int],
                ));
            }
        }
        true
    }

    /// Queue sound-effect samples; they are mixed as a virtual peer.
    pub fn add_sound_effect(&mut self, samples: &Vec<i16>)
        requires
            old(self).wf(),
        ensures
            final(self).wf(),
            final(self).peers_view() == old(self).peers_view(),
            final(self).effects_view() =~= old(self).effects_view() + samples@,
    {
        crate::codec::append_samples(&mut self.effects, samples);
    }
}

} // verus!

verus! {

/// What is left of a backlog after a pull of `n` samples: everything from
/// position `n` on, or nothing if the backlog was shorter.
pub open spec fn consumed(b: Seq<i16>, n: int) -> Seq<i16> {
    if n < b.len() {
        b.skip(n)
    } else {
        Seq::empty()
    }
}

/// Scale one sample by a volume, executable counterpart of [`scaled`]. The
/// result always fits well inside an `i64` accumulator.
fn scaled_exec(s: i16, volume: u32, muted: bool) -> (c: i64)
    requires
        volume <= VOLUME_MAX,
    ensures
        c as int == scaled(s, volume, muted),
        -0x80_0000 <= c <= 0x80_0000,
{
    proof {
        lemma_scaled_bound(s, volume, muted);
    }
    if muted {
        0
    } else if s >= 0 {
        proof {
            assert((s as int) * (volume as int) <= 0x8000 * 0x10000) by (nonlinear_arith)
                requires
                    0 <= s <= 0x8000,
                    volume <= 0x10000,
            {
            }
        }
        (((s as u64) * (volume as u64)) / 256) as i64
    } else {
        let m: u64 = (-(s as i32)) as u64;
        proof {
            assert((m as int) * (volume as int) <= 0x8000 * 0x10000) by (nonlinear_arith)
                requires
                    0 <= m <= 0x8000,
                    volume <= 0x10000,
            {
            }
        }
        -(((m * (volume as u64)) / 256) as i64)
    }
}

/// A scaled sample is bounded by scaling the extreme sample at the extreme
/// volume, so a 64-bit accumulator can take one contribution per possible
/// session id without overflowing.
pub proof fn lemma_scaled_bound(s: i16, volume: u32, muted: bool)
    requires
        volume <= VOLUME_MAX,
    ensures
        -0x80_0000 <= scaled(s, volume, muted) <= 0x80_0000,
{
    if !muted {
        if s >= 0 {
            assert(0 <= ((s as int) * (volume as int)) / 256 <= 0x80_0000) by (nonlinear_arith)
                requires
                    0 <= s <= 0x8000,
                    volume <= 0x10000,
            {
            }
        } else {
            let m = -(s as int);
            assert(0 <= (m * (volume as int)) / 256 <= 0x80_0000) by (nonlinear_arith)
                requires
                    0 < m <= 0x8000,
                    volume <= 0x10000,
            {
            }
        }
    }
}

/// Every peer's contribution obeys the same bound.
pub proof fn lemma_contribution_bound(p: PeerStream, k: int)
    requires
        p.wf(),
    ensures
        -0x80_0000 <= contribution(p, k) <= 0x80_0000,
{
    if 0 <= k < p.backlog@.len() {
        lemma_scaled_bound(p.backlog@[k], p.volume, p.muted);
    }
}

/// The sum of contributions grows by at most one bound per peer.
pub proof fn lemma_mix_sum_bound(peers: Seq<(u32, PeerStream)>, k: int)
    requires
        forall|i: int| 0 <= i < peers.len() ==> (#[trigger] peers[i].1).wf(),
    ensures
        -0x80_0000 * peers.len() <= mix_sum(peers, k) <= 0x80_0000 * peers.len(),
    decreases peers.len(),
{
    if peers.len() > 0 {
        lemma_mix_sum_bound(peers.drop_last(), k);
        lemma_contribution_bound(peers.last().1, k);
    }
}

/// Saturating mix, upper boundary: whenever the instantaneous sum of the
/// peer contributions and the effect queue exceeds the largest valid sample,
/// the mixed output is exactly that boundary value — never a wrapped-around
/// value.
pub proof fn lemma_mix_saturates_high(peers: Seq<(u32, PeerStream)>, effects: Seq<i16>, k: int)
    requires
        mix_sum(peers, k) + effect_at(effects, k) > SAMPLE_MAX as int,
    ensures
        mixed_value(peers, effects, k) == SAMPLE_MAX as int,
{
}

/// Saturating mix, lower boundary.
pub proof fn lemma_mix_saturates_low(peers: Seq<(u32, PeerStream)>, effects: Seq<i16>, k: int)
    requires
        mix_sum(peers, k) + effect_at(effects, k) < SAMPLE_MIN as int,
    ensures
        mixed_value(peers, effects, k) == SAMPLE_MIN as int,
{
}

/// A sum already inside the valid range passes through the mix unchanged.
pub proof fn lemma_mix_exact_in_range(peers: Seq<(u32, PeerStream)>, effects: Seq<i16>, k: int)
    requires
        SAMPLE_MIN as int <= mix_sum(peers, k) + effect_at(effects, k) <= SAMPLE_MAX as int,
    ensures
        mixed_value(peers, effects, k) == mix_sum(peers, k) + effect_at(effects, k),
{
}

/// Copy of `v` without its first `n` samples (all of it consumed if `v` is
/// shorter).
fn suffix_from(v: &Vec<i16>, n: usize) -> (r: Vec<i16>)
    ensures
        r@ =~= consumed(v@, n as int),
{
    let start = if n < v.len() {
        n
    } else {
        v.len()
    };
    let mut out: Vec<i16> = Vec::new();
    let mut t: usize = start;
    while t < v.len()
        invariant
            start <= t <= v@.len(),
            out@.len() == t - start,
            forall|q: int| 0 <= q < out@.len() ==> out@[q] == v@[start + q],
        decreases v@.len() - t,
    {
        out.push(v[t]);
        t = t + 1;
    }
    proof {
        assert(out@ =~= consumed(v@, n as int));
    }
    out
}

impl AudioPlaybackMixer {
    /// One device pull: fill exactly `count` output samples by mixing every
    /// peer's backlog (scaled by its volume, zero-padded where the backlog
    /// runs short) and the queued sound effects, with saturating
    /// accumulation; then drop the consumed prefix of every backlog and of
    /// the effect queue. Nothing here waits for network data.
    pub fn pull(&mut self, count: usize) -> (out: Vec<i16>)
        requires
            old(self).wf(),
        ensures
            final(self).wf(),
            out@.len() == count,
            forall|k: int|
                0 <= k < count ==> (#[trigger] out@[k]) as int == mixed_value(
                    old(self).peers_view(),
                    old(self).effects_view(),
                    k,
                ),
            final(self).peers_view().len() == old(self).peers_view().len(),
            forall|i: int|
                0 <= i < old(self).peers_view().len() ==> {
                    &&& (#[trigger] final(self).peers_view()[i]).0 == old(self).peers_view()[i].0
                    &&& final(self).peers_view()[i].1.volume == old(self).peers_view()[i].1.volume
                    &&& final(self).peers_view()[i].1.muted == old(self).peers_view()[i].1.muted
                    &&& final(self).peers_view()[i].1.backlog@ =~= consumed(
                        old(self).peers_view()[i].1.backlog@,
                        count as int,
                    )
                },
            final(self).effects_view() =~= consumed(old(self).effects_view(), count as int),
    {
        let ghost peers0 = self.peers@;
        let ghost effects0 = self.effects@;
        let mut out: Vec<i16> = Vec::new();
        let mut k: usize = 0;
        while k < count
            invariant
                k <= count,
                self.peers@ == peers0,
                self.effects@ == effects0,
                old(self).wf(),
                self.wf(),
                out@.len() == k,
                forall|q: int|
                    0 <= q < k ==> (#[trigger] out@[q]) as int == mixed_value(peers0, effects0, q),
            decreases count - k,
        {
            let eff: i64 = if k < self.effects.len() {
                self.effects[k] as i64
            } else {
                0
            };
            let mut acc: i64 = eff;
            let n = self.peers.len();
            let mut j: usize = 0;
            proof {
                assert(peers0.take(0) =~= Seq::<(u32, PeerStream)>::empty());
            }
            while j < n
                invariant
                    j <= n,
                    n == peers0.len(),
                    self.peers@ == peers0,
                    self.effects@ == effects0,
                    self.wf(),
                    eff == effect_at(effects0, k as int),
                    acc == eff + mix_sum(peers0.take(j as int), k as int),
                    -0x8000 - 0x80_0000 * j <= acc <= 0x8000 + 0x80_0000 * j,
                decreases n - j,
            {
                let p = &self.peers[j].1;
                let c: i64 = if k < p.backlog.len() {
                    scaled_exec(p.backlog[k], p.volume, p.muted)
                } else {
                    0
                };
                proof {
                    assert(c as int == contribution(peers0[j as int].1, k as int));
                    assert(peers0.take(j + 1).drop_last() =~= peers0.take(j as int));
                    assert(peers0.take(j + 1).last() == peers0[j as int]);
                }
                acc = acc + c;
                j = j + 1;
            }
            proof {
                assert(peers0.take(n as int) =~= peers0);
            }
            let sample: i16 = if acc > SAMPLE_MAX as i64 {
                SAMPLE_MAX
            } else if acc < SAMPLE_MIN as i64 {
                SAMPLE_MIN
            } else {
                acc as i16
            };
            out.push(sample);
            k = k + 1;
        }
        let n = self.peers.len();
        let mut j: usize = 0;
        while j < n
            invariant
                j <= n,
                n == self.peers@.len(),
                n == peers0.len(),
                self.effects@ == effects0,
                old(self).wf(),
                forall|t: int| j <= t < n ==> (#[trigger] self.peers@[t]) == peers0[t],
                forall|t: int|
                    0 <= t < j ==> {
                        &&& (#[trigger] self.peers@[t]).0 == peers0[t].0
                        &&& self.peers@[t].1.volume == peers0[t].1.volume
                        &&& self.peers@[t].1.muted == peers0[t].1.muted
                        &&& self.peers@[t].1.backlog@ =~= consumed(
                            peers0[t].1.backlog@,
                            count as int,
                        )
                    },
            decreases n - j,
        {
            let ghost before = self.peers@;
            let (pid, ps) = self.peers.remove(j);
            let nb = suffix_from(&ps.backlog, count);
            self.peers.insert(j, (pid, PeerStream { backlog: nb, volume: ps.volume, muted: ps.muted }));
            proof {
                assert forall|t: int| 0 <= t < n && t != j implies (#[trigger] self.peers@[t])
                    == before[t] by {
                    assert(self.peers@ == before.remove(j as int).insert(
                        j as int,
                        self.peers@[j as int],
                    ));
                }
            }
            j = j + 1;
        }
        self.effects = suffix_from(&self.effects, count);
        proof {
            assert forall|i: int, t: int|
                0 <= i < t < self.peers@.len() implies self.peers@[i].0 != self.peers@[t].0 by {
                assert(self.peers@[i].0 == peers0[i].0 && self.peers@[t].0 == peers0[t].0);
            }
            assert forall|i: int| 0 <= i < self.peers@.len() implies (#[trigger] self.peers@[i].1)
                .wf() by {
                assert(self.peers@[i].1.volume == peers0[i].1.volume);
            }
        }
        out
    }
}

} // verus!
