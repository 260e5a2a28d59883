//! Tests for the dual-path transport: liveness and path switching, crypto
//! rotation, and the end-to-end connect/send/disconnect scenario.

use mum::audio::Audio;
use mum::capture::AudioCaptureChain;
use mum::codec::{FrameCodec, FRAME_SAMPLES};
use mum::crypt::{CryptoChannel, CryptoSessionMaterial, ReceivedPacket};
use mum::mixer::VOLUME_UNITY;
use mum::phase::{PhaseMachine, StatePhase, VoiceStreamType};
use mum::state::{Command, CommandAction, CommandReply, State, UserStateMsg};
use mum::transport::{DatagramOutcome, TransportSendAction, VoiceTransport};

use bytes::BytesMut;
use mumble_protocol::crypt::{ClientCryptState, ServerCryptState};
use mumble_protocol::voice::{VoicePacket, VoicePacketPayload};

fn material() -> CryptoSessionMaterial {
    CryptoSessionMaterial { key: [7u8; 16], encrypt_nonce: [0u8; 16], decrypt_nonce: [0u8; 16] }
}

/// A server-side cipher state whose nonces mirror [`material`].
fn server_state() -> ServerCryptState {
    ServerCryptState::new_from([7u8; 16], [0u8; 16], [0u8; 16])
}

#[test]
fn first_unacked_ping_switches_to_fallback() {
    // Tick one sends the first ping; nothing was pending, no switch. Tick
    // two finds that ping unacked and switches to the fallback path.
    let mut transport = VoiceTransport::new();
    transport.install_session(&material());
    let mut phase = PhaseMachine::new();
    phase.begin_connecting();
    phase.connect(VoiceStreamType::Udp);
    let (_, ts) = transport.ping_tick(&mut phase).expect("a ping every tick");
    transport.confirm_ping_sent(ts);
    assert_eq!(phase.phase(), StatePhase::Connected(VoiceStreamType::Udp));
    let ping = transport.ping_tick(&mut phase);
    assert!(ping.is_some());
    assert_eq!(phase.phase(), StatePhase::Connected(VoiceStreamType::Tcp));
}

#[test]
fn unconfirmed_send_does_not_switch() {
    // A ping that never left the machine (the send failed, so the caller
    // never confirmed it) does not count for the path-switch rule, exactly
    // as the original recorded only successful sends.
    let mut transport = VoiceTransport::new();
    transport.install_session(&material());
    let mut phase = PhaseMachine::new();
    phase.begin_connecting();
    phase.connect(VoiceStreamType::Udp);
    let ping = transport.ping_tick(&mut phase);
    assert!(ping.is_some());
    // No confirmation: the next tick finds nothing pending and stays put.
    transport.ping_tick(&mut phase);
    assert_eq!(phase.phase(), StatePhase::Connected(VoiceStreamType::Udp));
}

#[test]
fn late_ack_before_next_send_keeps_primary() {
    let mut transport = VoiceTransport::new();
    transport.install_session(&material());
    let mut phase = PhaseMachine::new();
    phase.begin_connecting();
    phase.connect(VoiceStreamType::Udp);
    // First ping goes out carrying timestamp 1 and the send succeeds.
    let (_, ts) = transport.ping_tick(&mut phase).expect("a ping every tick");
    assert_eq!(ts, 1);
    transport.confirm_ping_sent(ts);
    // The echo arrives (late, but before the next scheduled send): the
    // server echoes our timestamp back.
    let mut server = server_state();
    let mut audio = Audio::new(VOLUME_UNITY, VOLUME_UNITY, 1);
    let mut echo = BytesMut::new();
    server.encrypt(VoicePacket::Ping { timestamp: 1 }, &mut echo);
    let datagram: Vec<u8> = echo.to_vec();
    let (outcome, generation) =
        transport.handle_datagram(&datagram, &mut phase, audio.output().mixer());
    assert_eq!(outcome, DatagramOutcome::PingEcho { timestamp: 1 });
    assert_eq!(generation, 0);
    // The next scheduled send finds the ping acked: no switch.
    transport.ping_tick(&mut phase);
    assert_eq!(phase.phase(), StatePhase::Connected(VoiceStreamType::Udp));
}

#[test]
fn ping_echo_returns_phase_to_primary() {
    let mut transport = VoiceTransport::new();
    transport.install_session(&material());
    let mut phase = PhaseMachine::new();
    phase.begin_connecting();
    phase.connect(VoiceStreamType::Tcp);
    let mut server = server_state();
    let mut audio = Audio::new(VOLUME_UNITY, VOLUME_UNITY, 1);
    let mut echo = BytesMut::new();
    server.encrypt(VoicePacket::Ping { timestamp: 1 }, &mut echo);
    let datagram: Vec<u8> = echo.to_vec();
    let (outcome, _) = transport.handle_datagram(&datagram, &mut phase, audio.output().mixer());
    assert_eq!(outcome, DatagramOutcome::PingEcho { timestamp: 1 });
    assert_eq!(phase.phase(), StatePhase::Connected(VoiceStreamType::Udp));
}

#[test]
fn undecryptable_datagram_is_discarded_not_fatal() {
    let mut transport = VoiceTransport::new();
    transport.install_session(&material());
    let mut phase = PhaseMachine::new();
    phase.begin_connecting();
    phase.connect(VoiceStreamType::Udp);
    let mut audio = Audio::new(VOLUME_UNITY, VOLUME_UNITY, 1);
    let garbage: Vec<u8> = vec![1, 2, 3];
    let (outcome, _) = transport.handle_datagram(&garbage, &mut phase, audio.output().mixer());
    assert_eq!(outcome, DatagramOutcome::Discarded);
    assert_eq!(phase.phase(), StatePhase::Connected(VoiceStreamType::Udp));
    // The transport keeps working afterwards.
    let mut server = server_state();
    let mut echo = BytesMut::new();
    server.encrypt(VoicePacket::Ping { timestamp: 1 }, &mut echo);
    let datagram: Vec<u8> = echo.to_vec();
    let (outcome, _) = transport.handle_datagram(&datagram, &mut phase, audio.output().mixer());
    assert_eq!(outcome, DatagramOutcome::PingEcho { timestamp: 1 });
}

#[test]
fn encrypted_ping_roundtrip_through_real_cipher() {
    // Our wrapper's ciphertext must decrypt on a mirrored server-side
    // cipher state of the outside crate — it is not the plaintext.
    let mut channel = CryptoChannel::new(&material());
    let bytes = channel.encrypt_ping(42);
    assert!(bytes.len() >= 4);
    let mut server = server_state();
    let mut buf = BytesMut::from(bytes.as_slice());
    let packet = server.decrypt(&mut buf).expect("mac ok").expect("parse ok");
    match packet {
        VoicePacket::Ping { timestamp } => assert_eq!(timestamp, 42),
        _ => panic!("expected a ping"),
    }
}

#[test]
fn incoming_voice_reaches_known_peer_only() {
    let mut transport = VoiceTransport::new();
    transport.install_session(&material());
    let mut phase = PhaseMachine::new();
    phase.begin_connecting();
    phase.connect(VoiceStreamType::Udp);
    let mut audio = Audio::new(VOLUME_UNITY, VOLUME_UNITY, 1);
    audio.add_client(9);

    let samples: Vec<i16> = vec![11, -22, 33];
    let payload = FrameCodec::encode(&samples);
    let mut server = server_state();
    let mut enc = BytesMut::new();
    server.encrypt(
        VoicePacket::Audio {
            _dst: std::marker::PhantomData,
            target: 0,
            session_id: 9,
            seq_num: 0,
            payload: VoicePacketPayload::Opus(bytes::Bytes::from(payload.clone()), false),
            position_info: None,
        },
        &mut enc,
    );
    let datagram: Vec<u8> = enc.to_vec();
    let (outcome, generation) =
        transport.handle_datagram(&datagram, &mut phase, audio.output().mixer());
    assert_eq!(outcome, DatagramOutcome::VoiceAccepted);
    assert_eq!(generation, 0);
    let out = audio.output().mixer().pull(3);
    assert_eq!(out, samples);

    // The same frame for an unknown session id is dropped.
    let mut enc = BytesMut::new();
    server.encrypt(
        VoicePacket::Audio {
            _dst: std::marker::PhantomData,
            target: 0,
            session_id: 1000,
            seq_num: 1,
            payload: VoicePacketPayload::Opus(bytes::Bytes::from(payload), false),
            position_info: None,
        },
        &mut enc,
    );
    let datagram: Vec<u8> = enc.to_vec();
    let (outcome, _) = transport.handle_datagram(&datagram, &mut phase, audio.output().mixer());
    assert_eq!(outcome, DatagramOutcome::VoiceDropped);
    assert!(!audio.output().mixer().has_client(1000));
}

#[test]
fn crypto_rotation_advances_generation_atomically() {
    // Every decode is tagged with the generation live at the moment it was
    // read; after a rotation no decode carries the old generation.
    let mut channel = CryptoChannel::new(&material());
    let garbage: Vec<u8> = vec![0; 8];
    let (_, generation) = channel.decrypt(&garbage);
    assert_eq!(generation, 0);
    channel.rotate(&material());
    let (_, generation) = channel.decrypt(&garbage);
    assert_eq!(generation, 1);
    channel.rotate(&material());
    let (_, generation) = channel.decrypt(&garbage);
    assert_eq!(generation, 2);
}

#[test]
fn rotation_replaces_the_whole_cipher_state() {
    // After a rotation to fresh key material the old server-side state can
    // no longer authenticate what the new session encrypts under a new key.
    let mut channel = CryptoChannel::new(&material());
    let first = channel.encrypt_ping(1);
    let mut server = server_state();
    let mut buf = BytesMut::from(first.as_slice());
    assert!(server.decrypt(&mut buf).is_ok());
    channel.rotate(
        &CryptoSessionMaterial {
            key: [9u8; 16],
            encrypt_nonce: [0u8; 16],
            decrypt_nonce: [0u8; 16],
        },
    );
    let second = channel.encrypt_ping(2);
    let mut buf = BytesMut::from(second.as_slice());
    assert!(server.decrypt(&mut buf).is_err(), "old session must not decrypt the new one");
}

#[test]
fn send_loop_pulls_same_queue_on_either_path() {
    let mut transport = VoiceTransport::new();
    transport.install_session(&material());
    let mut chain = AudioCaptureChain::new(1, 8, 4, 100, 50);
    let block: Vec<i16> = vec![5000; FRAME_SAMPLES * 2];
    chain.push_samples(&block);
    // First frame leaves encrypted on the primary path.
    let action = transport.next_send(&StatePhase::Connected(VoiceStreamType::Udp), &mut chain);
    match action {
        TransportSendAction::SendPrimary(bytes) => assert!(bytes.len() >= 4),
        _ => panic!("expected a primary-path send"),
    }
    // After a path switch the next frame from the same queue is tunnelled.
    let action = transport.next_send(&StatePhase::Connected(VoiceStreamType::Tcp), &mut chain);
    match action {
        TransportSendAction::Tunnel(frame) => assert_eq!(frame.seq_num, 1),
        _ => panic!("expected a tunnelled frame"),
    }
    let action = transport.next_send(&StatePhase::Connected(VoiceStreamType::Udp), &mut chain);
    assert!(matches!(action, TransportSendAction::Idle));
    // Away from a connected phase nothing is sent.
    chain.push_samples(&block);
    let action = transport.next_send(&StatePhase::Disconnected, &mut chain);
    assert!(matches!(action, TransportSendAction::Idle));
}

#[test]
fn end_to_end_connect_send_disconnect_reconnect() {
    // Connect: command moves the phase to Connecting, handshake completion
    // to Connected(Primary).
    let mut state = State::new(None);
    let (reply, action) = state.handle_command(Command::ServerConnect {
        host: String::from("example.invalid"),
        port: 64738,
        username: String::from("self"),
        accept_invalid_cert: true,
    });
    assert!(matches!(reply, CommandReply::After(_)));
    assert!(matches!(action, CommandAction::OpenConnection { .. }));
    assert_eq!(state.phase_receiver(), StatePhase::Connecting);
    // Our own user state arrives and records the session id.
    let (diff, _) = state.parse_user_state(UserStateMsg {
        session: Some(5),
        name: Some(String::from("self")),
        channel_id: Some(0),
    });
    assert!(diff.is_none());
    state.initialized();
    assert_eq!(state.phase_receiver(), StatePhase::Connected(VoiceStreamType::Udp));

    // Sender side: 50 frames with sequence numbers 0..49.
    let mut sender = AudioCaptureChain::new(1, 64, 4, 100, 50);
    let block: Vec<i16> = vec![5000; FRAME_SAMPLES * 50];
    sender.push_samples(&block);

    // Receiver side: a peer stream for the remote session collects the
    // frames in arrival order.
    let peer_session: u32 = 77;
    let (_, _) = state.parse_user_state(UserStateMsg {
        session: Some(peer_session),
        name: Some(String::from("someone else")),
        channel_id: Some(0),
    });
    let mut arrived: usize = 0;
    let mut last_seq: u64 = 0;
    let mut seq_ordered = true;
    for _ in 0..50 {
        let frame = sender.pop_frame().expect("fifty frames were queued");
        if frame.seq_num < last_seq {
            seq_ordered = false;
        }
        last_seq = frame.seq_num;
        if state.audio_mut().decode_packet_payload(peer_session, &frame.payload) {
            arrived += 1;
        }
    }
    assert_eq!(last_seq, 49);
    assert!(seq_ordered, "arrival order carries non-decreasing sequence numbers");
    assert!(arrived <= 50);
    assert_eq!(arrived, 50);

    // Disconnect clears the per-connection state.
    let mut transport = VoiceTransport::new();
    transport.install_session(&material());
    let (reply, _) = state.handle_command(Command::ServerDisconnect);
    assert!(matches!(reply, CommandReply::Now(Ok(None))));
    transport.reset();
    assert_eq!(state.phase_receiver(), StatePhase::Disconnected);
    assert!(state.server().is_none());
    assert!(!state.audio_mut().decode_packet_payload(peer_session, &vec![0, 0]));

    // Reconnect starts with fresh sequence numbering from 0.
    let mut sender = AudioCaptureChain::new(1, 64, 4, 100, 50);
    let block: Vec<i16> = vec![5000; FRAME_SAMPLES];
    sender.push_samples(&block);
    let frame = sender.pop_frame().expect("one frame");
    assert_eq!(frame.seq_num, 0);
}

#[test]
fn opaque_payload_kinds_are_dropped() {
    // A voice packet with a legacy codec payload is not decodable by this
    // client and is dropped without touching any peer.
    let mut transport = VoiceTransport::new();
    transport.install_session(&material());
    let mut phase = PhaseMachine::new();
    phase.begin_connecting();
    phase.connect(VoiceStreamType::Udp);
    let mut audio = Audio::new(VOLUME_UNITY, VOLUME_UNITY, 1);
    audio.add_client(9);
    let mut server = server_state();
    let mut enc = BytesMut::new();
    server.encrypt(
        VoicePacket::Audio {
            _dst: std::marker::PhantomData,
            target: 0,
            session_id: 9,
            seq_num: 0,
            payload: VoicePacketPayload::CeltAlpha(vec![bytes::Bytes::from_static(&[1, 2, 3])]),
            position_info: None,
        },
        &mut enc,
    );
    let datagram: Vec<u8> = enc.to_vec();
    let (outcome, _) = transport.handle_datagram(&datagram, &mut phase, audio.output().mixer());
    assert_eq!(outcome, DatagramOutcome::VoiceDropped);
    let out = audio.output().mixer().pull(1);
    assert_eq!(out, vec![0]);
}

#[test]
fn received_packet_fields_survive_conversion() {
    // The decoded packet carries exactly the fields the server sent.
    let mut channel = CryptoChannel::new(&material());
    let mut server = server_state();
    let samples: Vec<i16> = vec![7, 8];
    let payload = FrameCodec::encode(&samples);
    let mut enc = BytesMut::new();
    server.encrypt(
        VoicePacket::Audio {
            _dst: std::marker::PhantomData,
            target: 3,
            session_id: 21,
            seq_num: 40,
            payload: VoicePacketPayload::Opus(bytes::Bytes::from(payload.clone()), true),
            position_info: None,
        },
        &mut enc,
    );
    let datagram: Vec<u8> = enc.to_vec();
    let (outcome, _) = channel.decrypt(&datagram);
    match outcome.expect("decrypts") {
        ReceivedPacket::Audio { session_id, seq_num, target, payload: p, position } => {
            assert_eq!(session_id, 21);
            assert_eq!(seq_num, 40);
            assert_eq!(target, 3);
            assert!(position.is_none());
            match p {
                mum::crypt::VoicePayload::Opus(data, end) => {
                    assert_eq!(data, payload);
                    assert!(end);
                },
                _ => panic!("expected an opus payload"),
            }
        },
        _ => panic!("expected a voice packet"),
    }
}

#[test]
fn four_byte_datagram_is_rejected_before_the_cipher() {
    // A four-byte datagram is only a header with nothing behind it; no
    // encoder produces one, and the channel rejects it as too short instead
    // of handing it to the outside parse path.
    let mut channel = CryptoChannel::new(&material());
    let (outcome, generation) = channel.decrypt(&vec![0, 0, 0, 0]);
    assert!(outcome.is_err());
    assert_eq!(generation, 0);
    // Through the transport it is an ordinary discard, never fatal.
    let mut transport = VoiceTransport::new();
    transport.install_session(&material());
    let mut phase = PhaseMachine::new();
    phase.begin_connecting();
    phase.connect(VoiceStreamType::Udp);
    let mut audio = Audio::new(VOLUME_UNITY, VOLUME_UNITY, 1);
    let (outcome, _) =
        transport.handle_datagram(&vec![9, 9, 9, 9], &mut phase, audio.output().mixer());
    assert_eq!(outcome, DatagramOutcome::Discarded);
}

