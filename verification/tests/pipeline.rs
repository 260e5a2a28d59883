//! Tests for the audio pipeline: gate, resampler, codec, capture chain and
//! mixer.

use mum::capture::{AudioCaptureChain, VoiceTarget};
use mum::codec::{FrameCodec, FRAME_SAMPLES};
use mum::gate::NoiseGate;
use mum::mixer::{AudioPlaybackMixer, VOLUME_UNITY};
use mum::resample::resample;

#[test]
fn gate_starts_closed_and_emits_silence() {
    let mut gate = NoiseGate::new(8, 1000, 400);
    assert!(!gate.is_open());
    let out = gate.step(300);
    assert_eq!(out, 0);
    assert!(!gate.is_open());
}

#[test]
fn gate_opens_on_loud_sample() {
    let mut gate = NoiseGate::new(8, 1000, 400);
    let out = gate.step(2000);
    assert!(gate.is_open());
    assert_eq!(out, 2000);
    let out = gate.step(-3000);
    assert!(gate.is_open());
    assert_eq!(out, -3000);
}

#[test]
fn gate_hysteresis_keeps_open_below_activate() {
    // Once open, samples between deactivate and activate keep it open: the
    // loud sample is still inside the lookback ring.
    let mut gate = NoiseGate::new(4, 1000, 400);
    gate.step(2000);
    assert!(gate.is_open());
    let out = gate.step(500);
    assert!(gate.is_open());
    assert_eq!(out, 500);
    let out = gate.step(450);
    assert!(gate.is_open());
    assert_eq!(out, 450);
}

#[test]
fn gate_closes_only_when_whole_window_quiet() {
    let mut gate = NoiseGate::new(4, 1000, 400);
    gate.step(2000);
    assert!(gate.is_open());
    // Three quiet samples: the ring still holds the loud one.
    gate.step(10);
    gate.step(10);
    gate.step(10);
    assert!(gate.is_open());
    // The fourth quiet sample evicts the loud one: every ring sample is now
    // below the deactivate threshold and the noise gate closes.
    let out = gate.step(10);
    assert!(!gate.is_open());
    assert_eq!(out, 0);
}

#[test]
fn gate_processes_blocks_like_single_steps() {
    let mut a = NoiseGate::new(8, 1000, 400);
    let mut b = NoiseGate::new(8, 1000, 400);
    let block: Vec<i16> = vec![0, 2000, 300, -500, 0, 0, 10, -20];
    let got = a.process_block(&block);
    let mut want = Vec::new();
    for s in &block {
        want.push(b.step(*s));
    }
    assert_eq!(got, want);
}

#[test]
fn resample_count_matches_ratio() {
    // 480 samples from 44100 Hz to 48000 Hz: floor(480 * 48000 / 44100) =
    // 522, within one of round(522.449) = 522.
    let input: Vec<i16> = vec![100; 480];
    let out = resample(&input, 44100, 48000);
    assert_eq!(out.len(), 522);
}

#[test]
fn resample_identity_preserves_samples() {
    let input: Vec<i16> = vec![5, -3, 1000, -32768, 32767, 0];
    let out = resample(&input, 48000, 48000);
    assert_eq!(out, input);
}

#[test]
fn resample_downsample_halves_count() {
    let input: Vec<i16> = vec![0, 100, 200, 300, 400, 500, 600, 700];
    let out = resample(&input, 48000, 24000);
    assert_eq!(out.len(), 4);
    // Every second sample survives at exactly double rate ratio.
    assert_eq!(out, vec![0, 200, 400, 600]);
}

#[test]
fn resample_interpolates_between_neighbours() {
    // Upsampling by 2 puts one interpolated sample between each pair.
    let input: Vec<i16> = vec![0, 100];
    let out = resample(&input, 24000, 48000);
    assert_eq!(out.len(), 4);
    assert_eq!(out[0], 0);
    assert_eq!(out[1], 50);
    assert_eq!(out[2], 100);
    assert_eq!(out[3], 100); // holds the last sample past the end
}

#[test]
fn codec_roundtrip_exact() {
    let samples: Vec<i16> = vec![0, 1, -1, 32767, -32768, 12345, -12345];
    let encoded = FrameCodec::encode(&samples);
    assert_eq!(encoded.len(), 2 * samples.len());
    let decoded = FrameCodec::decode(&encoded).expect("even length must decode");
    assert_eq!(decoded, samples);
}

#[test]
fn codec_rejects_odd_length() {
    let bytes: Vec<u8> = vec![1, 2, 3];
    assert!(FrameCodec::decode(&bytes).is_none());
}

#[test]
fn codec_layout_is_little_endian() {
    let samples: Vec<i16> = vec![258]; // 0x0102
    let encoded = FrameCodec::encode(&samples);
    assert_eq!(encoded, vec![0x02, 0x01]);
    let negative: Vec<i16> = vec![-2]; // 0xFFFE
    let encoded = FrameCodec::encode(&negative);
    assert_eq!(encoded, vec![0xFE, 0xFF]);
}

#[test]
fn capture_frames_have_consecutive_sequence_numbers() {
    // Mono chain, loud input so the noise gate opens immediately.
    let mut chain = AudioCaptureChain::new(1, 8, 4, 100, 50);
    let block: Vec<i16> = vec![5000; FRAME_SAMPLES * 3];
    chain.push_samples(&block);
    let f0 = chain.pop_frame().expect("first frame");
    let f1 = chain.pop_frame().expect("second frame");
    let f2 = chain.pop_frame().expect("third frame");
    assert_eq!(f0.seq_num, 0);
    assert_eq!(f1.seq_num, 1);
    assert_eq!(f2.seq_num, 2);
    assert_eq!(f0.target, VoiceTarget::Normal);
    assert!(f0.position.is_none());
    assert_eq!(f0.payload.len(), 2 * FRAME_SAMPLES);
    assert!(chain.pop_frame().is_none());
}

#[test]
fn capture_accumulates_partial_frames() {
    let mut chain = AudioCaptureChain::new(1, 8, 4, 100, 50);
    let half: Vec<i16> = vec![5000; FRAME_SAMPLES / 2];
    chain.push_samples(&half);
    assert!(chain.pop_frame().is_none());
    chain.push_samples(&half);
    assert!(chain.pop_frame().is_some());
}

#[test]
fn capture_full_queue_drops_newest_frame() {
    // Capacity two: the third frame produced is dropped, the first two stay.
    let mut chain = AudioCaptureChain::new(1, 2, 4, 100, 50);
    let block: Vec<i16> = vec![5000; FRAME_SAMPLES * 3];
    chain.push_samples(&block);
    let f0 = chain.pop_frame().expect("first frame kept");
    let f1 = chain.pop_frame().expect("second frame kept");
    assert_eq!(f0.seq_num, 0);
    assert_eq!(f1.seq_num, 1);
    assert!(chain.pop_frame().is_none(), "newest frame must have been dropped");
}

#[test]
fn capture_gated_silence_is_encoded_as_silence() {
    // Quiet input keeps the noise gate closed, so the encoded payload is all
    // zeros even though the raw input was not.
    let mut chain = AudioCaptureChain::new(1, 8, 4, 1000, 400);
    let block: Vec<i16> = vec![50; FRAME_SAMPLES];
    chain.push_samples(&block);
    let frame = chain.pop_frame().expect("one frame");
    assert!(frame.payload.iter().all(|b| *b == 0));
}

#[test]
fn mix_single_peer_passes_samples_through() {
    let mut mixer = AudioPlaybackMixer::new();
    mixer.add_client(7);
    let payload = FrameCodec::encode(&vec![100, -200, 300]);
    assert!(mixer.decode_packet_payload(7, &payload));
    let out = mixer.pull(4);
    assert_eq!(out, vec![100, -200, 300, 0]); // zero-padded past the backlog
}

#[test]
fn mix_saturates_at_upper_boundary() {
    // Two peers both near the maximum: the sum exceeds the sample range and
    // must clamp to the boundary, never wrap around.
    let mut mixer = AudioPlaybackMixer::new();
    mixer.add_client(1);
    mixer.add_client(2);
    let loud = FrameCodec::encode(&vec![30000, 30000]);
    assert!(mixer.decode_packet_payload(1, &loud));
    assert!(mixer.decode_packet_payload(2, &loud));
    let out = mixer.pull(2);
    assert_eq!(out, vec![32767, 32767]);
}

#[test]
fn mix_saturates_at_lower_boundary() {
    let mut mixer = AudioPlaybackMixer::new();
    mixer.add_client(1);
    mixer.add_client(2);
    let loud = FrameCodec::encode(&vec![-30000]);
    assert!(mixer.decode_packet_payload(1, &loud));
    assert!(mixer.decode_packet_payload(2, &loud));
    let out = mixer.pull(1);
    assert_eq!(out, vec![-32768]);
}

#[test]
fn mix_in_range_is_exact_sum() {
    let mut mixer = AudioPlaybackMixer::new();
    mixer.add_client(1);
    mixer.add_client(2);
    assert!(mixer.decode_packet_payload(1, &FrameCodec::encode(&vec![1000])));
    assert!(mixer.decode_packet_payload(2, &FrameCodec::encode(&vec![-400])));
    let out = mixer.pull(1);
    assert_eq!(out, vec![600]);
}

#[test]
fn mix_applies_volume_and_mute() {
    let mut mixer = AudioPlaybackMixer::new();
    mixer.add_client(1);
    mixer.set_user_volume(1, VOLUME_UNITY / 2);
    assert!(mixer.decode_packet_payload(1, &FrameCodec::encode(&vec![1000])));
    let out = mixer.pull(1);
    assert_eq!(out, vec![500]);
    mixer.set_mute(1, true);
    assert!(mixer.decode_packet_payload(1, &FrameCodec::encode(&vec![1000])));
    let out = mixer.pull(1);
    assert_eq!(out, vec![0]);
}

#[test]
fn unknown_peer_datagram_is_dropped_without_side_effect() {
    // A payload for a session id with no peer stream is dropped and creates
    // no stream.
    let mut mixer = AudioPlaybackMixer::new();
    mixer.add_client(1);
    let payload = FrameCodec::encode(&vec![123]);
    assert!(!mixer.decode_packet_payload(99, &payload));
    assert!(!mixer.has_client(99));
    // The known peer is untouched.
    let out = mixer.pull(1);
    assert_eq!(out, vec![0]);
}

#[test]
fn removed_peer_stops_mixing_immediately() {
    let mut mixer = AudioPlaybackMixer::new();
    mixer.add_client(1);
    assert!(mixer.decode_packet_payload(1, &FrameCodec::encode(&vec![1000, 1000])));
    mixer.remove_client(1);
    assert!(!mixer.has_client(1));
    let out = mixer.pull(2);
    assert_eq!(out, vec![0, 0]);
}

#[test]
fn sound_effects_mix_as_virtual_peer() {
    let mut mixer = AudioPlaybackMixer::new();
    mixer.add_client(1);
    assert!(mixer.decode_packet_payload(1, &FrameCodec::encode(&vec![100, 100])));
    let effect: Vec<i16> = vec![25, -25, 7];
    mixer.add_sound_effect(&effect);
    let out = mixer.pull(3);
    assert_eq!(out, vec![125, 75, 7]);
}

#[test]
fn volume_and_mute_keep_the_untouched_parts() {
    let mut mixer = AudioPlaybackMixer::new();
    // A volume for a not-yet-seen user creates an unmuted entry.
    mixer.set_user_volume(4, VOLUME_UNITY / 4);
    assert!(mixer.has_client(4));
    assert!(mixer.decode_packet_payload(4, &FrameCodec::encode(&vec![400])));
    let out = mixer.pull(1);
    assert_eq!(out, vec![100], "fresh entry starts unmuted at the given volume");
    // Muting keeps the volume; unmuting again plays at the kept volume.
    assert!(mixer.decode_packet_payload(4, &FrameCodec::encode(&vec![400, 400])));
    mixer.set_mute(4, true);
    let out = mixer.pull(1);
    assert_eq!(out, vec![0], "muted peers contribute nothing");
    mixer.set_mute(4, false);
    let out = mixer.pull(1);
    assert_eq!(out, vec![100], "the prior volume and backlog survive mute changes");
}

#[test]
fn mute_for_unknown_user_creates_unity_entry() {
    let mut mixer = AudioPlaybackMixer::new();
    // Muting a not-yet-seen user creates its entry muted at unity volume.
    mixer.set_mute(9, true);
    assert!(mixer.has_client(9));
    assert!(mixer.decode_packet_payload(9, &FrameCodec::encode(&vec![1234])));
    assert_eq!(mixer.pull(1), vec![0]);
    mixer.set_mute(9, false);
    assert!(mixer.decode_packet_payload(9, &FrameCodec::encode(&vec![1234])));
    assert_eq!(mixer.pull(1), vec![1234], "the fresh entry was created at unity volume");
}

