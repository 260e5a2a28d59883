//! The audio halves glued together: input (capture chain feeding the
//! transport) and output (per-peer mixing plus sound effects feeding the
//! device sink).

use vstd::prelude::*;
use crate::capture::AudioCaptureChain;
use crate::config::SoundEffect;
use crate::gate::DEFAULT_LOOKBACK;
use crate::codec::decoded_samples;
use crate::mixer::{has_peer, peer_index, AudioPlaybackMixer, VOLUME_MAX, VOLUME_UNITY};
use crate::sound_effects::{configured_file, event_file, samples_for, NotificationEvent, SoundEffects};

verus! {

/// How many encoded frames may wait for the transport before the newest is
/// dropped.
pub const OUTGOING_QUEUE_CAPACITY: usize = 4;

/// Gate magnitude above which a closed gate opens.
pub const GATE_ACTIVATE: u16 = 1024;

/// Gate magnitude below which every ring sample must fall for an open gate
/// to close.
pub const GATE_DEACTIVATE: u16 = 512;

/// Input audio state: device samples are gated, framed and encoded here,
/// then picked up by the transport.
pub struct AudioInput {
    chain: AudioCaptureChain,
}

impl AudioInput {
    pub closed spec fn chain_spec(&self) -> AudioCaptureChain {
        self.chain
    }

    pub open spec fn wf(&self) -> bool {
        self.chain_spec().wf()
    }

    /// Capture state for a device with `channels` interleaved channels.
    pub fn new(input_volume: u32, channels: u8) -> (r: AudioInput)
        requires
            input_volume <= VOLUME_MAX,
            channels == 1 || channels == 2,
        ensures
            r.wf(),
            r.chain_spec().volume_spec() == input_volume,
            r.chain_spec().next_seq_spec() == 0,
            r.chain_spec().queue_view().len() == 0,
            r.chain_spec().channels_spec() == channels,
            r.chain_spec().capacity_spec() == OUTGOING_QUEUE_CAPACITY,
    {
        let mut chain = AudioCaptureChain::new(
            channels,
            OUTGOING_QUEUE_CAPACITY,
            DEFAULT_LOOKBACK,
            GATE_ACTIVATE,
            GATE_DEACTIVATE,
        );
        chain.set_volume(input_volume);
        AudioInput { chain }
    }

    /// The capture chain itself; the transport pulls frames from it.
    pub fn receiver(&mut self) -> (r: &mut AudioCaptureChain)
        ensures
            *r == old(self).chain_spec(),
            final(self).chain_spec() == *final(r),
    {
        &mut self.chain
    }

    pub fn set_volume(&mut self, input_volume: u32)
        requires
            old(self).wf(),
            input_volume <= VOLUME_MAX,
        ensures
            final(self).wf(),
            final(self).chain_spec().volume_spec() == input_volume,
            final(self).chain_spec().queue_view() == old(self).chain_spec().queue_view(),
            final(self).chain_spec().next_seq_spec() == old(self).chain_spec().next_seq_spec(),
    {
        self.chain.set_volume(input_volume);
    }
}

/// Output audio state: voice received from each remote session is decoded
/// into its peer stream, merged with sound effects, and pulled by the
/// device sink.
pub struct AudioOutput {
    mixer: AudioPlaybackMixer,
    sound_effects: SoundEffects,
    output_volume: u32,
}

impl AudioOutput {
    pub closed spec fn mixer_spec(&self) -> AudioPlaybackMixer {
        self.mixer
    }

    pub closed spec fn effects_spec(&self) -> SoundEffects {
        self.sound_effects
    }

    pub closed spec fn output_volume_spec(&self) -> u32 {
        self.output_volume
    }

    pub open spec fn wf(&self) -> bool {
        &&& self.mixer_spec().wf()
        &&& self.effects_spec().wf()
        &&& self.output_volume_spec() <= VOLUME_MAX
    }

    pub fn new(output_volume: u32, num_channels: usize) -> (r: AudioOutput)
        requires
            output_volume <= VOLUME_MAX,
        ensures
            r.wf(),
            r.mixer_spec().peers_view().len() == 0,
            r.mixer_spec().effects_view().len() == 0,
            r.effects_spec().events_view().len() == 0,
            r.effects_spec().files_view().len() == 0,
            r.effects_spec().num_channels_spec() == num_channels,
            r.output_volume_spec() == output_volume,
    {
        AudioOutput {
            mixer: AudioPlaybackMixer::new(),
            sound_effects: SoundEffects::new(num_channels),
            output_volume,
        }
    }

    /// The mixer itself; the device sink pulls mixed samples from it.
    pub fn mixer(&mut self) -> (r: &mut AudioPlaybackMixer)
        ensures
            *r == old(self).mixer_spec(),
            final(self).mixer_spec() == *final(r),
            final(self).effects_spec() == old(self).effects_spec(),
    {
        &mut self.mixer
    }

    /// Configure the sound effects that play on specific events; loading of
    /// the named files is reported by [`SoundEffects::unloaded_files`].
    pub fn set_sound_effects(&mut self, sound_effects: &Vec<SoundEffect>)
        requires
            old(self).wf(),
        ensures
            final(self).wf(),
            final(self).mixer_spec() == old(self).mixer_spec(),
            final(self).effects_spec().files_view() == old(self).effects_spec().files_view(),
            final(self).effects_spec().default_view() == old(self).effects_spec().default_view(),
            final(self).effects_spec().num_channels_spec() == old(self).effects_spec().num_channels_spec(),
            forall|e: NotificationEvent|
                event_file(final(self).effects_spec().events_view(), e) == configured_file(
                    sound_effects@,
                    e,
                    event_file(old(self).effects_spec().events_view(), e),
                ),
    {
        let mut i: usize = 0;
        proof {
            assert(forall|e: NotificationEvent|
                configured_file(
                    sound_effects@.take(0),
                    e,
                    event_file(old(self).effects_spec().events_view(), e),
                ) == event_file(old(self).effects_spec().events_view(), e));
        }
        while i < sound_effects.len()
            invariant
                i <= sound_effects@.len(),
                self.sound_effects.wf(),
                self.mixer == old(self).mixer_spec(),
                old(self).wf(),
                self.output_volume == old(self).output_volume_spec(),
                self.sound_effects.files_view() == old(self).effects_spec().files_view(),
                self.sound_effects.default_view() == old(self).effects_spec().default_view(),
                self.sound_effects.num_channels_spec() == old(self).effects_spec().num_channels_spec(),
                forall|e: NotificationEvent|
                    event_file(self.sound_effects.events_view(), e) == configured_file(
                        sound_effects@.take(i as int),
                        e,
                        event_file(old(self).effects_spec().events_view(), e),
                    ),
            decreases sound_effects@.len() - i,
        {
            let ghost before = self.sound_effects.events_view();
            self.sound_effects.set_sound_effect(&sound_effects[i]);
            i = i + 1;
            proof {
                assert(sound_effects@.take(i as int).drop_last() =~= sound_effects@.take(i - 1));
                assert(sound_effects@.take(i as int).last() == sound_effects@[i - 1]);
                assert forall|e: NotificationEvent|
                    event_file(self.sound_effects.events_view(), e) == configured_file(
                    sound_effects@.take(i as int),
                    e,
                    event_file(old(self).effects_spec().events_view(), e),
                ) by {
                    match crate::sound_effects::event_for_key(sound_effects@[i - 1].event@) {
                        Some(ev) => {
                            if e == ev {
                            } else {
                                assert(event_file(self.sound_effects.events_view(), e)
                                    == event_file(before, e));
                            }
                        },
                        None => {
                            assert(self.sound_effects.events_view() == before);
                        },
                    }
                }
            }
        }
        proof {
            assert(sound_effects@.take(sound_effects@.len() as int) =~= sound_effects@);
        }
    }

    /// The sound-effect cache, for loading files and inspecting state.
    pub fn sound_effects(&mut self) -> (r: &mut SoundEffects)
        ensures
            *r == old(self).effects_spec(),
            final(self).effects_spec() == *final(r),
            final(self).mixer_spec() == old(self).mixer_spec(),
    {
        &mut self.sound_effects
    }

    /// Decode one voice payload for a session id (see
    /// [`AudioPlaybackMixer::decode_packet_payload`]); a payload for an
    /// unknown session is dropped with no side effect.
    pub fn decode_packet_payload(&mut self, session_id: u32, payload: &Vec<u8>) -> (accepted: bool)
        requires
            old(self).wf(),
        ensures
            final(self).wf(),
            final(self).effects_spec() == old(self).effects_spec(),
            accepted == (has_peer(old(self).mixer_spec().peers_view(), session_id)
                && payload@.len() % 2 == 0),
            !accepted ==> final(self).mixer_spec().peers_view() == old(self).mixer_spec().peers_view(),
            accepted ==> ({
                let peers0 = old(self).mixer_spec().peers_view();
                let peers1 = final(self).mixer_spec().peers_view();
                let i = peer_index(peers0, session_id);
                &&& peers1.len() == peers0.len()
                &&& forall|k: int|
                    0 <= k < peers0.len() && k != i ==> (#[trigger] peers1[k]) == peers0[k]
                &&& peers1[i].0 == session_id
                &&& peers1[i].1.backlog@ =~= peers0[i].1.backlog@ + decoded_samples(payload@)
                &&& peers1[i].1.volume == peers0[i].1.volume
                &&& peers1[i].1.muted == peers0[i].1.muted
            }),
    {
        self.mixer.decode_packet_payload(session_id, payload)
    }

    /// Master output volume; it scales the device sink, not the mix.
    pub fn set_volume(&mut self, output_volume: u32)
        requires
            old(self).wf(),
            output_volume <= VOLUME_MAX,
        ensures
            final(self).wf(),
            final(self).output_volume_spec() == output_volume,
            final(self).mixer_spec() == old(self).mixer_spec(),
            final(self).effects_spec() == old(self).effects_spec(),
    {
        self.output_volume = output_volume;
    }

    pub fn output_volume(&self) -> (r: u32)
        ensures
            r == self.output_volume_spec(),
    {
        self.output_volume
    }

    /// Set the incoming volume of one user.
    pub fn set_user_volume(&mut self, id: u32, volume: u32)
        requires
            old(self).wf(),
            volume <= VOLUME_MAX,
        ensures
            final(self).wf(),
            final(self).effects_spec() == old(self).effects_spec(),
            forall|i: int|
                0 <= i < old(self).mixer_spec().peers_view().len() && old(self).mixer_spec().peers_view()[i].0 != id ==> (#[trigger] final(self).mixer_spec().peers_view()[i]) == old(self).mixer_spec().peers_view()[i],
            has_peer(old(self).mixer_spec().peers_view(), id) ==> forall|i: int|
                0 <= i < old(self).mixer_spec().peers_view().len() && (#[trigger] old(self).mixer_spec().peers_view()[i]).0 == id ==> ({
                    let p1 = final(self).mixer_spec().peers_view()[i].1;
                    let p0 = old(self).mixer_spec().peers_view()[i].1;
                    p1.volume == volume && p1.muted == p0.muted && p1.backlog@ == p0.backlog@
                }),
            !has_peer(old(self).mixer_spec().peers_view(), id) && old(self).mixer_spec().peers_view().len() < u32::MAX ==> ({
                let last = final(self).mixer_spec().peers_view().last();
                last.0 == id && last.1.volume == volume && !last.1.muted && last.1.backlog@.len()
                    == 0
            }),
    {
        self.mixer.set_user_volume(id, volume);
    }

    /// Mute or unmute one user.
    pub fn set_mute(&mut self, id: u32, mute: bool)
        requires
            old(self).wf(),
        ensures
            final(self).wf(),
            final(self).effects_spec() == old(self).effects_spec(),
            forall|i: int|
                0 <= i < old(self).mixer_spec().peers_view().len() && old(self).mixer_spec().peers_view()[i].0 != id ==> (#[trigger] final(self).mixer_spec().peers_view()[i]) == old(self).mixer_spec().peers_view()[i],
            has_peer(old(self).mixer_spec().peers_view(), id) ==> forall|i: int|
                0 <= i < old(self).mixer_spec().peers_view().len() && (#[trigger] old(self).mixer_spec().peers_view()[i]).0 == id ==> ({
                    let p1 = final(self).mixer_spec().peers_view()[i].1;
                    let p0 = old(self).mixer_spec().peers_view()[i].1;
                    p1.muted == mute && p1.volume == p0.volume && p1.backlog@ == p0.backlog@
                }),
            !has_peer(old(self).mixer_spec().peers_view(), id) && old(self).mixer_spec().peers_view().len() < u32::MAX ==> ({
                let last = final(self).mixer_spec().peers_view().last();
                last.0 == id && last.1.muted == mute && last.1.volume == VOLUME_UNITY
                    && last.1.backlog@.len() == 0
            }),
    {
        self.mixer.set_mute(id, mute);
    }

    /// Queue the sound effect of `event` for mixing as a virtual peer: the
    /// samples the cache selects for the event are appended to the mixer's
    /// effect queue.
    pub fn play_effect(&mut self, event: NotificationEvent)
        requires
            old(self).wf(),
        ensures
            final(self).wf(),
            final(self).mixer_spec().peers_view() == old(self).mixer_spec().peers_view(),
            final(self).effects_spec() == old(self).effects_spec(),
            ({
                let before = old(self).mixer_spec().effects_view();
                let after = final(self).mixer_spec().effects_view();
                &&& after.len() >= before.len()
                &&& after.take(before.len() as int) == before
                &&& samples_for(&old(self).effects_spec(), event, after.skip(before.len() as int))
            }),
    {
        let ghost before = self.mixer.effects_view();
        let samples = copy_samples(self.sound_effects.get_samples(event));
        self.mixer.add_sound_effect(&samples);
        proof {
            assert(self.mixer.effects_view().take(before.len() as int) =~= before);
            assert(self.mixer.effects_view().skip(before.len() as int) =~= samples@);
        }
    }
}

/// Copy a sample buffer.
fn copy_samples(v: &Vec<i16>) -> (r: Vec<i16>)
    ensures
        r@ =~= v@,
{
    let mut out: Vec<i16> = Vec::new();
    crate::codec::append_samples(&mut out, v);
    proof {
        assert(out@ =~= v@);
    }
    out
}

/// Both halves of the audio pipeline.
pub struct Audio {
    input: AudioInput,
    output: AudioOutput,
}

impl Audio {
    pub closed spec fn input_spec(&self) -> AudioInput {
        self.input
    }

    pub closed spec fn output_spec(&self) -> AudioOutput {
        self.output
    }

    pub open spec fn wf(&self) -> bool {
        &&& self.input_spec().wf()
        &&& self.output_spec().wf()
    }

    pub fn new(input_volume: u32, output_volume: u32, channels: u8) -> (r: Audio)
        requires
            input_volume <= VOLUME_MAX,
            output_volume <= VOLUME_MAX,
            channels == 1 || channels == 2,
        ensures
            r.wf(),
            r.output_spec().mixer_spec().peers_view().len() == 0,
    {
        Audio {
            input: AudioInput::new(input_volume, channels),
            output: AudioOutput::new(output_volume, channels as usize),
        }
    }

    pub fn input(&mut self) -> (r: &mut AudioInput)
        ensures
            *r == old(self).input_spec(),
            final(self).input_spec() == *final(r),
            final(self).output_spec() == old(self).output_spec(),
    {
        &mut self.input
    }

    pub fn output(&mut self) -> (r: &mut AudioOutput)
        ensures
            *r == old(self).output_spec(),
            final(self).output_spec() == *final(r),
            final(self).input_spec() == old(self).input_spec(),
    {
        &mut self.output
    }

    pub fn set_input_volume(&mut self, volume: u32)
        requires
            old(self).wf(),
            volume <= VOLUME_MAX,
        ensures
            final(self).wf(),
            final(self).output_spec() == old(self).output_spec(),
            final(self).input_spec().chain_spec().volume_spec() == volume,
    {
        self.input.set_volume(volume);
    }

    /// A remote user joined: create their peer stream.
    pub fn add_client(&mut self, session_id: u32)
        requires
            old(self).wf(),
        ensures
            final(self).wf(),
            final(self).input_spec() == old(self).input_spec(),
            has_peer(final(self).output_spec().mixer_spec().peers_view(), session_id) || old(self).output_spec().mixer_spec().peers_view().len() == u32::MAX,
    {
        self.output.mixer.add_client(session_id);
    }

    /// A remote user left: their peer stream and any still-mixing tail
    /// disappear immediately.
    pub fn remove_client(&mut self, session_id: u32)
        requires
            old(self).wf(),
        ensures
            final(self).wf(),
            final(self).input_spec() == old(self).input_spec(),
            !has_peer(final(self).output_spec().mixer_spec().peers_view(), session_id),
            !has_peer(old(self).output_spec().mixer_spec().peers_view(), session_id) ==> final(self).output_spec().mixer_spec().peers_view() == old(self).output_spec().mixer_spec().peers_view(),
            has_peer(old(self).output_spec().mixer_spec().peers_view(), session_id) ==> final(self).output_spec().mixer_spec().peers_view() == old(self).output_spec().mixer_spec().peers_view().remove(
                peer_index(old(self).output_spec().mixer_spec().peers_view(), session_id),
            ),
            final(self).output_spec().mixer_spec().effects_view() == old(self).output_spec().mixer_spec().effects_view(),
            final(self).output_spec().effects_spec() == old(self).output_spec().effects_spec(),
    {
        self.output.mixer.remove_client(session_id);
    }

    /// Disconnect: every peer stream disappears.
    pub fn clear_clients(&mut self)
        requires
            old(self).wf(),
        ensures
            final(self).wf(),
            final(self).input_spec() == old(self).input_spec(),
            final(self).output_spec().mixer_spec().peers_view().len() == 0,
    {
        self.output.mixer.clear_clients();
    }

    pub fn decode_packet_payload(&mut self, session_id: u32, payload: &Vec<u8>) -> (accepted: bool)
        requires
            old(self).wf(),
        ensures
            final(self).wf(),
            final(self).input_spec() == old(self).input_spec(),
            accepted == (has_peer(old(self).output_spec().mixer_spec().peers_view(), session_id)
                && payload@.len() % 2 == 0),
            !accepted ==> final(self).output_spec().mixer_spec().peers_view() == old(self).output_spec().mixer_spec().peers_view(),
            accepted ==> ({
                let peers0 = old(self).output_spec().mixer_spec().peers_view();
                let peers1 = final(self).output_spec().mixer_spec().peers_view();
                let i = peer_index(peers0, session_id);
                &&& peers1.len() == peers0.len()
                &&& forall|k: int|
                    0 <= k < peers0.len() && k != i ==> (#[trigger] peers1[k]) == peers0[k]
                &&& peers1[i].0 == session_id
                &&& peers1[i].1.backlog@ =~= peers0[i].1.backlog@ + decoded_samples(payload@)
                &&& peers1[i].1.volume == peers0[i].1.volume
                &&& peers1[i].1.muted == peers0[i].1.muted
            }),
    {
        self.output.decode_packet_payload(session_id, payload)
    }
}

} // verus!
