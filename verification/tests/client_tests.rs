//! Tests for the client-side bookkeeping: commands, the server tables,
//! configuration, errors, sound effects and the out-of-band ping registry.

use mum::audio::AudioOutput;
use mum::config::{Config, SoundEffect};
use mum::error::{decimal_string, ChannelIdentifierError, Error};
use mum::phase::StatePhase;
use mum::ping::PendingPings;
use mum::server::{ChannelRemoveMsg, ChannelStateMsg, ConnectedServer};
use mum::sound_effects::{
    get_default_sfx, prepare_samples, unpack_audio, wav_bytes, AudioFileKind, NotificationEvent,
    SoundEffects,
};
use mum::state::{Command, CommandAction, CommandReply, CommandResponse, State};

fn channel_msg(id: u32, name: &str, parent: Option<u32>) -> ChannelStateMsg {
    ChannelStateMsg { channel_id: Some(id), name: Some(String::from(name)), parent }
}

#[test]
fn channel_name_resolves_unique_suffix() {
    let mut server = ConnectedServer::new();
    server.parse_channel_state(channel_msg(0, "Root", None));
    server.parse_channel_state(channel_msg(1, "Games", Some(0)));
    server.parse_channel_state(channel_msg(2, "Music", Some(0)));
    let (id, channel) = server.channel_name("Games").expect("unique suffix");
    assert_eq!(id, 1);
    assert_eq!(channel.name, "Games");
    // The identifier matches against the full path, so a path suffix works.
    let (id, _) = server.channel_name("Root/Music").expect("path suffix");
    assert_eq!(id, 2);
}

#[test]
fn channel_name_falls_back_to_case_folding() {
    let mut server = ConnectedServer::new();
    server.parse_channel_state(channel_msg(0, "Root", None));
    server.parse_channel_state(channel_msg(1, "Games", Some(0)));
    let (id, _) = server.channel_name("games").expect("case-folded match");
    assert_eq!(id, 1);
}

#[test]
fn channel_name_reports_invalid_and_ambiguous() {
    let mut server = ConnectedServer::new();
    server.parse_channel_state(channel_msg(0, "Root", None));
    server.parse_channel_state(channel_msg(1, "a", Some(0)));
    server.parse_channel_state(channel_msg(2, "a", Some(0)));
    assert_eq!(server.channel_name("nowhere").unwrap_err(), ChannelIdentifierError::Invalid);
    assert_eq!(server.channel_name("a").unwrap_err(), ChannelIdentifierError::Ambiguous);
}

#[test]
fn channel_remove_deletes_only_named_channel() {
    let mut server = ConnectedServer::new();
    server.parse_channel_state(channel_msg(0, "Root", None));
    server.parse_channel_state(channel_msg(1, "Games", Some(0)));
    server.parse_channel_remove(ChannelRemoveMsg { channel_id: Some(1) });
    assert!(server.channel_name("Games").is_err());
    assert!(server.channel_name("Root").is_ok());
    // Removing an unknown channel changes nothing.
    server.parse_channel_remove(ChannelRemoveMsg { channel_id: Some(42) });
    assert!(server.channel_name("Root").is_ok());
}

#[test]
fn channel_state_updates_known_channel() {
    let mut server = ConnectedServer::new();
    server.parse_channel_state(channel_msg(0, "Root", None));
    server.parse_channel_state(channel_msg(0, "Renamed", None));
    assert_eq!(server.channels().len(), 1);
    let (id, channel) = server.channel_name("Renamed").expect("renamed");
    assert_eq!(id, 0);
    assert_eq!(channel.name, "Renamed");
}

#[test]
fn server_accessors_roundtrip() {
    let mut server = ConnectedServer::new();
    assert!(server.session_id().is_none());
    *server.session_id_mut() = Some(3);
    assert_eq!(server.session_id(), Some(3));
    *server.username_mut() = Some(String::from("me"));
    assert_eq!(server.username(), Some("me"));
    *server.password_mut() = Some(String::from("SECRET-REDACTED"));
    assert!(server.password().is_some());
    *server.host_mut() = Some(String::from("example.invalid:64738"));
    assert_eq!(server.host().as_deref(), Some("example.invalid:64738"));
    assert!(!server.muted());
    server.set_muted(true);
    assert!(server.muted());
    assert!(!server.deafened());
    server.set_deafened(true);
    assert!(server.deafened());
}

#[test]
fn current_channel_follows_session() {
    let mut server = ConnectedServer::new();
    server.parse_channel_state(channel_msg(0, "Root", None));
    server.parse_channel_state(channel_msg(4, "Games", Some(0)));
    *server.session_id_mut() = Some(9);
    server.put_user(9, mum::server::User { name: String::from("me"), channel: 4 });
    let (id, channel) = server.current_channel().expect("joined a channel");
    assert_eq!(id, 4);
    assert_eq!(channel.name, "Games");
}

#[test]
fn command_needs_connection() {
    let mut state = State::new(None);
    let (reply, action) = state.handle_command(Command::ChannelJoin {
        channel_identifier: String::from("Games"),
    });
    match reply {
        CommandReply::Now(Err(Error::DisconnectedError)) => {},
        _ => panic!("expected the disconnected error"),
    }
    assert!(matches!(action, CommandAction::Nothing));
    let (reply, _) = state.handle_command(Command::Status);
    assert!(matches!(reply, CommandReply::Now(Err(Error::DisconnectedError))));
    let (reply, _) = state.handle_command(Command::ServerDisconnect);
    assert!(matches!(reply, CommandReply::Now(Err(Error::DisconnectedError))));
}

#[test]
fn connect_twice_is_rejected() {
    let mut state = State::new(None);
    let (_, _) = state.handle_command(Command::ServerConnect {
        host: String::from("example.invalid"),
        port: 64738,
        username: String::from("me"),
        accept_invalid_cert: false,
    });
    let (reply, _) = state.handle_command(Command::ServerConnect {
        host: String::from("example.invalid"),
        port: 64738,
        username: String::from("me"),
        accept_invalid_cert: false,
    });
    assert!(matches!(reply, CommandReply::Now(Err(Error::AlreadyConnectedError))));
}

#[test]
fn connect_stores_host_with_port() {
    let mut state = State::new(None);
    let (_, _) = state.handle_command(Command::ServerConnect {
        host: String::from("example.invalid"),
        port: 64738,
        username: String::from("me"),
        accept_invalid_cert: false,
    });
    let server = state.server().expect("server exists while connecting");
    assert_eq!(server.host().as_deref(), Some("example.invalid:64738"));
    assert_eq!(state.phase_receiver(), StatePhase::Connecting);
}

#[test]
fn ping_command_answers_pong() {
    let mut state = State::new(None);
    let (reply, _) = state.handle_command(Command::Ping);
    match reply {
        CommandReply::Now(Ok(Some(CommandResponse::Pong))) => {},
        _ => panic!("expected a pong"),
    }
}

#[test]
fn error_messages_match_reported_reasons() {
    assert_eq!(Error::DisconnectedError.message(), "Not connected to a server");
    assert_eq!(Error::AlreadyConnectedError.message(), "Already connected to a server");
    let e = Error::ChannelIdentifierError(String::from("Games"), ChannelIdentifierError::Invalid);
    assert_eq!(e.message(), "Invalid channel identifier: Games");
    let e = Error::ChannelIdentifierError(String::from("a"), ChannelIdentifierError::Ambiguous);
    assert_eq!(e.message(), "Ambiguous channel identifier: a");
    let e = Error::InvalidServerAddrError(String::from("example.invalid"), 64738);
    assert_eq!(e.message(), "Invalid server address: example.invalid: 64738");
}

#[test]
fn decimal_rendering_is_exact() {
    assert_eq!(decimal_string(0), "0");
    assert_eq!(decimal_string(7), "7");
    assert_eq!(decimal_string(48000), "48000");
    assert_eq!(decimal_string(u64::MAX), "18446744073709551615");
}

#[test]
fn notification_events_parse_exactly() {
    assert_eq!(
        NotificationEvent::try_from("server_connect"),
        Ok(NotificationEvent::ServerConnect)
    );
    assert_eq!(
        NotificationEvent::try_from("server_disconnect"),
        Ok(NotificationEvent::ServerDisconnect)
    );
    assert_eq!(NotificationEvent::try_from("user_connected"), Ok(NotificationEvent::UserConnected));
    assert_eq!(
        NotificationEvent::try_from("user_disconnected"),
        Ok(NotificationEvent::UserDisconnected)
    );
    assert_eq!(
        NotificationEvent::try_from("user_joined_channel"),
        Ok(NotificationEvent::UserJoinedChannel)
    );
    assert_eq!(
        NotificationEvent::try_from("user_left_channel"),
        Ok(NotificationEvent::UserLeftChannel)
    );
    assert_eq!(NotificationEvent::try_from("mute"), Ok(NotificationEvent::Mute));
    assert_eq!(NotificationEvent::try_from("unmute"), Ok(NotificationEvent::Unmute));
    assert_eq!(NotificationEvent::try_from("deafen"), Ok(NotificationEvent::Deafen));
    assert_eq!(NotificationEvent::try_from("undeafen"), Ok(NotificationEvent::Undeafen));
    assert_eq!(NotificationEvent::try_from("something else"), Err(()));
}

#[test]
fn audio_file_kinds_parse_exactly() {
    assert_eq!(AudioFileKind::try_from("ogg"), Ok(AudioFileKind::Ogg));
    assert_eq!(AudioFileKind::try_from("wav"), Ok(AudioFileKind::Wav));
    assert_eq!(AudioFileKind::try_from("mp3"), Err(()));
}

#[test]
fn default_effect_survives_real_wav_decoder() {
    // The verified WAV writer and the outside decoder must agree: decoding
    // the generated default effect gives back exactly the synthesized
    // samples. This fails if the wrapper merely handed its input through.
    let bytes = get_default_sfx();
    let (samples, channels, rate) =
        unpack_audio(&bytes, AudioFileKind::Wav).expect("hound parses our header");
    assert_eq!(channels, 1);
    assert_eq!(rate, 48000);
    assert_eq!(samples.len(), 480);
    assert_eq!(samples[0], 8000);
    assert_eq!(samples[60], -8000);
    assert_eq!(samples[120], 8000);
}

#[test]
fn wav_writer_and_decoder_roundtrip_stereo() {
    let samples: Vec<i16> = vec![1, -1, 32767, -32768, 0, 9];
    let bytes = wav_bytes(2, 44100, &samples);
    let (decoded, channels, rate) = unpack_audio(&bytes, AudioFileKind::Wav).expect("valid wav");
    assert_eq!(channels, 2);
    assert_eq!(rate, 44100);
    assert_eq!(decoded, samples);
}

#[test]
fn decoders_reject_garbage() {
    let garbage: Vec<u8> = vec![1, 2, 3, 4, 5];
    assert!(unpack_audio(&garbage, AudioFileKind::Wav).is_none());
    assert!(unpack_audio(&garbage, AudioFileKind::Ogg).is_none());
}

#[test]
fn prepare_samples_duplicates_mono_for_stereo_device() {
    let samples: Vec<i16> = vec![10, 20, 30];
    let out = prepare_samples(&samples, 1, 48000, 2).expect("mono source");
    assert_eq!(out, vec![10, 10, 20, 20, 30, 30]);
}

#[test]
fn prepare_samples_takes_left_channel_for_mono_device() {
    let samples: Vec<i16> = vec![10, 11, 20, 21, 30, 31];
    let out = prepare_samples(&samples, 2, 48000, 1).expect("stereo source");
    assert_eq!(out, vec![10, 20, 30]);
}

#[test]
fn prepare_samples_rejects_odd_channel_counts() {
    let samples: Vec<i16> = vec![1, 2, 3];
    assert!(prepare_samples(&samples, 3, 48000, 2).is_err());
    assert!(prepare_samples(&samples, 0, 48000, 2).is_err());
}

#[test]
fn sound_effect_cache_falls_back_to_default() {
    let mut effects = SoundEffects::new(1);
    // Nothing configured: the default effect plays.
    let default_len = effects.get_samples(NotificationEvent::Mute).len();
    assert_eq!(default_len, 480);
    // A configured but never-loaded file also falls back.
    effects.set_sound_effect(
        &SoundEffect { event: String::from("mute"), file: String::from("missing.wav") },
    );
    assert_eq!(effects.unloaded_files(), vec![String::from("missing.wav")]);
    assert_eq!(effects.get_samples(NotificationEvent::Mute).len(), 480);
    // Loading failure (None) still falls back; loaded samples are returned.
    effects.load_file(String::from("missing.wav"), None);
    assert_eq!(effects.get_samples(NotificationEvent::Mute).len(), 480);
    effects.load_file(String::from("missing.wav"), Some(vec![1, 2, 3]));
    assert_eq!(effects.get_samples(NotificationEvent::Mute), &vec![1, 2, 3]);
    assert!(effects.unloaded_files().is_empty());
    effects.clear();
    assert_eq!(effects.get_samples(NotificationEvent::Mute).len(), 480);
}

#[test]
fn unknown_event_key_is_ignored() {
    let mut effects = SoundEffects::new(1);
    effects.set_sound_effect(
        &SoundEffect { event: String::from("no_such_event"), file: String::from("x.wav") },
    );
    assert!(effects.unloaded_files().is_empty());
}

#[test]
fn cfg_path_is_stable() {
    assert_eq!(mum::config::get_cfg_path(), ".mumdrc");
}

#[test]
fn config_volume_applies_on_reload() {
    let mut state = State::new(None);
    let config = Config {
        audio: Some(mum::config::AudioConfig { input_volume: Some(128) }),
        servers: None,
    };
    state.reload_config(Some(config));
    // No panic and the state stays disconnected; the volume application is
    // covered by the library contract.
    assert_eq!(state.phase_receiver(), StatePhase::Disconnected);
}

#[test]
fn ping_packet_layout_matches_wire_format() {
    let mut pending = PendingPings::new();
    let bytes = pending.make_request(0x0102030405060708);
    assert_eq!(bytes, vec![0, 0, 0, 0, 1, 2, 3, 4, 5, 6, 7, 8]);
}

#[test]
fn pong_parsing_reads_big_endian_fields() {
    // Build a 24-byte pong by hand: version 0x10300, id 7, 3 users of 100,
    // bandwidth 72000.
    let mut pending = PendingPings::new();
    pending.make_request(7);
    let mut bytes: Vec<u8> = Vec::new();
    bytes.extend_from_slice(&0x10300u32.to_be_bytes());
    bytes.extend_from_slice(&7u64.to_be_bytes());
    bytes.extend_from_slice(&3u32.to_be_bytes());
    bytes.extend_from_slice(&100u32.to_be_bytes());
    bytes.extend_from_slice(&72000u32.to_be_bytes());
    let pong = pending.handle_reply(&bytes).expect("24 bytes parse and the id is pending");
    assert_eq!(pong.version, 0x10300);
    assert_eq!(pong.id, 7);
    assert_eq!(pong.users, 3);
    assert_eq!(pong.max_users, 100);
    assert_eq!(pong.bandwidth, 72000);
    let short: Vec<u8> = vec![0; 23];
    assert!(pending.handle_reply(&short).is_none());
}

#[test]
fn pending_pings_match_replies_to_requests() {
    let mut pending = PendingPings::new();
    pending.register(1);
    pending.register(2);
    assert!(pending.complete(1));
    assert!(!pending.complete(1), "a completed request stops pending");
    assert!(!pending.complete(42), "an unknown id completes nothing");
    assert!(pending.complete(2));
}

#[test]
fn pong_for_unknown_request_is_ignored() {
    let mut pending = PendingPings::new();
    pending.make_request(5);
    let mut bytes: Vec<u8> = Vec::new();
    bytes.extend_from_slice(&0u32.to_be_bytes());
    bytes.extend_from_slice(&99u64.to_be_bytes());
    bytes.extend_from_slice(&[0u8; 12]);
    assert!(pending.handle_reply(&bytes).is_none());
    // The pending request is still waiting for its own reply.
    assert!(pending.complete(5));
}

#[test]
fn sound_effect_override_replaces_the_mapping() {
    let mut effects = SoundEffects::new(1);
    effects.set_sound_effect(
        &SoundEffect { event: String::from("mute"), file: String::from("a.wav") },
    );
    effects.set_sound_effect(
        &SoundEffect { event: String::from("mute"), file: String::from("b.wav") },
    );
    assert_eq!(effects.unloaded_files(), vec![String::from("b.wav")]);
    effects.load_file(String::from("b.wav"), Some(vec![7]));
    assert_eq!(effects.get_samples(NotificationEvent::Mute), &vec![7]);
}

#[test]
fn play_effect_queues_the_selected_samples() {
    let mut output = AudioOutput::new(256, 1);
    // Nothing configured: the default effect (480 samples, first one 8000)
    // is appended to the mixer's effect queue and mixed as a virtual peer.
    output.play_effect(NotificationEvent::Mute);
    let out = output.mixer().pull(2);
    assert_eq!(out, vec![8000, 8000]);
    // A loaded effect replaces the default for its event.
    output.sound_effects().set_sound_effect(
        &SoundEffect { event: String::from("deafen"), file: String::from("c.wav") },
    );
    output.sound_effects().load_file(String::from("c.wav"), Some(vec![-5, 5]));
    output.play_effect(NotificationEvent::Deafen);
    let out = output.mixer().pull(3);
    // The rest of the first (default) effect is still queued ahead.
    assert_eq!(out[0], 8000);
}

#[test]
fn join_soft_ambiguity_is_invalid_but_exact_ambiguity_is_ambiguous() {
    // The original command path answered "invalid" when no path matched
    // exactly and several matched case-insensitively, and kept "ambiguous"
    // for several exact matches; the lookup itself reports both as
    // ambiguous, and the command maps the soft case back.
    let mut state = State::new(None);
    state.handle_command(Command::ServerConnect {
        host: String::from("example.invalid"),
        port: 64738,
        username: String::from("self"),
        accept_invalid_cert: true,
    });
    state.parse_user_state(mum::state::UserStateMsg {
        session: Some(1),
        name: Some(String::from("self")),
        channel_id: Some(0),
    });
    state.initialized();
    {
        let server = state.server_mut().as_mut().expect("connected");
        server.parse_channel_state(channel_msg(0, "a", None));
        server.parse_channel_state(channel_msg(1, "a", None));
    }
    let (reply, _) = state.handle_command(Command::ChannelJoin {
        channel_identifier: String::from("A"),
    });
    match reply {
        CommandReply::Now(Err(Error::ChannelIdentifierError(_, kind))) => {
            assert_eq!(kind, ChannelIdentifierError::Invalid);
        }
        _ => panic!("expected the invalid-identifier error"),
    }
    let (reply, _) = state.handle_command(Command::ChannelJoin {
        channel_identifier: String::from("a"),
    });
    match reply {
        CommandReply::Now(Err(Error::ChannelIdentifierError(_, kind))) => {
            assert_eq!(kind, ChannelIdentifierError::Ambiguous);
        }
        _ => panic!("expected the ambiguous-identifier error"),
    }
}

