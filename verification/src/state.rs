//! The client's top-level state: configuration, the connected server, the
//! audio pipeline, and the connection phase, together with the dispatcher
//! that turns each command into a reply and an outgoing action.
//!
//! Commands arrive from the local command channel; instead of running side
//! effects itself, the dispatcher returns a tagged action that the
//! surrounding I/O code performs (send a packet, open a connection, reload
//! the configuration file).

use vstd::prelude::*;
use crate::audio::Audio;
use crate::config::Config;
use crate::error::{decimal_digits, decimal_string, ChannelIdentifierError, Error};
use crate::mixer::VOLUME_MAX;
use crate::phase::{PhaseMachine, StatePhase, VoiceStreamType};
use crate::server::{channel_matches, channel_path_spec, match_count, ConnectedServer, User};

verus! {

/// A command from the local control channel.
pub enum Command {
    ChannelJoin { channel_identifier: String },
    ChannelList,
    ServerConnect { host: String, port: u16, username: String, accept_invalid_cert: bool },
    Status,
    ServerDisconnect,
    InputVolumeSet(u32),
    ConfigReload,
    Ping,
}

/// A snapshot of the connected server for a status reply.
pub struct ServerInfo {
    pub channels: Vec<(u32, String)>,
    pub welcome_text: Option<String>,
    pub username: String,
    pub host: String,
}

/// What a command answers with.
pub enum CommandResponse {
    ChannelList { channels: Vec<(u32, String)> },
    ServerConnect { welcome_message: Option<String> },
    Status { server_state: ServerInfo },
    Pong,
}

/// Control-connection events a reply may wait for.
#[derive(Clone, Copy, Debug, PartialEq, Eq, Structural)]
pub enum TcpEvent {
    Connected,
}

/// The side effect the caller must perform for a handled command.
pub enum CommandAction {
    /// Nothing to do.
    Nothing,
    /// Ask the server to move our session to this channel.
    SendJoinChannel { session_id: u32, channel_id: u32 },
    /// Open a connection to this server (resolve the address, start the
    /// control handshake).
    OpenConnection { host: String, port: u16, accept_invalid_cert: bool },
    /// Re-read the configuration file and hand it back.
    ReloadConfig,
}

/// When the reply to a command is available.
pub enum CommandReply {
    /// Immediately.
    Now(Result<Option<CommandResponse>, Error>),
    /// Once the control connection reports [`TcpEvent::Connected`]; the
    /// reply is then built by [`connected_response`].
    After(TcpEvent),
}

/// The reply owed once the connected-handshake message arrives, carrying
/// its welcome text.
pub fn connected_response(welcome_text: Option<String>) -> (r: Result<
    Option<CommandResponse>,
    Error,
>)
    ensures
        (match r {
            Ok(Some(CommandResponse::ServerConnect { welcome_message })) => welcome_message
                == welcome_text,
            _ => false,
        }),
{
    Ok(Some(CommandResponse::ServerConnect { welcome_message: welcome_text }))
}

/// Whether a phase counts as connected.
pub open spec fn is_connected(p: StatePhase) -> bool {
    p matches StatePhase::Connected(_)
}

/// Fields a user-state message may carry.
pub struct UserStateMsg {
    pub session: Option<u32>,
    pub name: Option<String>,
    pub channel_id: Option<u32>,
}

/// Fields a user-remove message may carry.
pub struct UserRemoveMsg {
    pub session: Option<u32>,
}

/// What changed for a known user.
pub struct UserDiff {
    pub name: Option<String>,
    pub channel_id: Option<u32>,
}

/// What the surrounding code should tell the person at the keyboard.
pub enum NotificationHint {
    /// Nothing worth a notification.
    NoNotice,
    /// A user connected and joined a channel.
    UserConnected { user: String, channel: String },
    /// A user moved to another channel.
    UserMoved { user: String, channel: String },
}

/// Top-level client state.
pub struct State {
    config: Option<Config>,
    server: Option<ConnectedServer>,
    audio: Audio,
    phase: PhaseMachine,
}

impl State {
    pub closed spec fn config_spec(&self) -> Option<Config> {
        self.config
    }

    pub closed spec fn server_spec(&self) -> Option<ConnectedServer> {
        self.server
    }

    pub closed spec fn audio_spec(&self) -> Audio {
        self.audio
    }

    pub closed spec fn phase_spec(&self) -> StatePhase {
        self.phase.phase
    }

    /// The audio pipeline is well formed; whenever a server exists it is
    /// well formed and carries the credentials a connection was started
    /// with; away from `Disconnected` a server exists; and while connected
    /// our own session id is known.
    pub open spec fn wf(&self) -> bool {
        &&& self.audio_spec().wf()
        &&& (match self.server_spec() {
            Some(s) => s.wf() && s.username_spec() is Some && s.host_spec() is Some,
            None => true,
        })
        &&& self.phase_spec() != StatePhase::Disconnected ==> self.server_spec() is Some
        &&& is_connected(self.phase_spec()) ==> (match self.server_spec() {
            Some(s) => s.session_id_spec() is Some,
            None => false,
        })
    }

    /// A fresh client: disconnected, no server, audio at the configured
    /// input volume.
    pub fn new(config: Option<Config>) -> (r: State)
        requires
            (match config {
                Some(c) => c.wf(),
                None => true,
            }),
        ensures
            r.wf(),
            r.phase_spec() == StatePhase::Disconnected,
            r.server_spec() is None,
            r.config_spec() == config,
    {
        let input_volume: u32 = match &config {
            Some(c) => match &c.audio {
                Some(a) => match a.input_volume {
                    Some(v) => v,
                    None => crate::mixer::VOLUME_UNITY,
                },
                None => crate::mixer::VOLUME_UNITY,
            },
            None => crate::mixer::VOLUME_UNITY,
        };
        State {
            config,
            server: None,
            audio: Audio::new(input_volume, crate::mixer::VOLUME_UNITY, 2),
            phase: PhaseMachine::new(),
        }
    }

    /// Dispatch one command: check the phase it needs, update the state,
    /// and report the reply together with the side effect the caller must
    /// perform.
    pub fn handle_command(&mut self, command: Command) -> (r: (CommandReply, CommandAction))
        requires
            old(self).wf(),
        ensures
            final(self).wf(),
            (match command {
                Command::ChannelJoin { channel_identifier } => {
                    &&& !is_connected(old(self).phase_spec()) ==> r.0 == CommandReply::Now(
                        Err::<Option<CommandResponse>, Error>(Error::DisconnectedError),
                    ) && r.1 is Nothing && *final(self) == *old(self)
                    &&& is_connected(old(self).phase_spec()) ==> {
                        let srv = old(self).server_spec()->0;
                        let chans = srv.channels_view();
                        let n = chans.len() as int;
                        let hard = match_count(chans, n, channel_identifier@, false);
                        let soft = match_count(chans, n, channel_identifier@, true);
                        &&& *final(self) == *old(self)
                        &&& (hard == 1 || (hard == 0 && soft == 1)) ==> (r.0 == CommandReply::Now(
                            Ok::<Option<CommandResponse>, Error>(None),
                        ) && (match r.1 {
                            CommandAction::SendJoinChannel { session_id, channel_id } => Some(
                                session_id,
                            ) == srv.session_id_spec() && exists|i: int|
                                0 <= i < n && (#[trigger] chans[i]).0 == channel_id
                                    && channel_matches(chans, i, channel_identifier@, hard != 1),
                            _ => false,
                        }))
                        &&& (hard == 0 && soft != 1) ==> r.0 == CommandReply::Now(
                            Err::<Option<CommandResponse>, Error>(
                                Error::ChannelIdentifierError(
                                    channel_identifier,
                                    ChannelIdentifierError::Invalid,
                                ),
                            ),
                        ) && r.1 is Nothing
                        &&& hard > 1 ==> r.0 == CommandReply::Now(
                            Err::<Option<CommandResponse>, Error>(
                                Error::ChannelIdentifierError(
                                    channel_identifier,
                                    ChannelIdentifierError::Ambiguous,
                                ),
                            ),
                        ) && r.1 is Nothing
                    }
                },
                Command::ChannelList => {
                    &&& !is_connected(old(self).phase_spec()) ==> r.0 == CommandReply::Now(
                        Err::<Option<CommandResponse>, Error>(Error::DisconnectedError),
                    ) && r.1 is Nothing
                    &&& is_connected(old(self).phase_spec()) ==> {
                        let chans = old(self).server_spec()->0.channels_view();
                        &&& r.1 is Nothing
                        &&& (match r.0 {
                            CommandReply::Now(res) => (match res {
                                Ok(Some(CommandResponse::ChannelList { channels })) => channels@.len()
                                    == chans.len() && forall|i: int|
                                    0 <= i < chans.len() ==> (#[trigger] channels@[i]).0
                                        == chans[i].0 && (channels@[i].1)@ == channel_path_spec(
                                        chans,
                                        chans[i].0,
                                        chans.len(),
                                    ),
                                _ => false,
                            }),
                            _ => false,
                        })
                    }
                    &&& *final(self) == *old(self)
                },
                Command::ServerConnect { host, port, username, accept_invalid_cert } => {
                    &&& old(self).phase_spec() != StatePhase::Disconnected ==> r.0
                        == CommandReply::Now(
                        Err::<Option<CommandResponse>, Error>(Error::AlreadyConnectedError),
                    ) && r.1 is Nothing && *final(self) == *old(self)
                    &&& old(self).phase_spec() == StatePhase::Disconnected ==> {
                        &&& final(self).phase_spec() == StatePhase::Connecting
                        &&& (match final(self).server_spec() {
                            Some(s) => (match s.username_spec() {
                                Some(u) => u@ == username@,
                                None => false,
                            }) && (match s.host_spec() {
                                Some(h) => h@ == host@ + ":"@ + decimal_digits(port as int),
                                None => false,
                            }),
                            None => false,
                        })
                        &&& r.0 == CommandReply::After(TcpEvent::Connected)
                        &&& (match r.1 {
                            CommandAction::OpenConnection {
                                host: h,
                                port: p,
                                accept_invalid_cert: a,
                            } => h@ == host@ && p == port && a == accept_invalid_cert,
                            _ => false,
                        })
                        &&& final(self).audio_spec() == old(self).audio_spec()
                    }
                },
                Command::Status => {
                    &&& !is_connected(old(self).phase_spec()) ==> r.0 == CommandReply::Now(
                        Err::<Option<CommandResponse>, Error>(Error::DisconnectedError),
                    ) && r.1 is Nothing
                    &&& is_connected(old(self).phase_spec()) ==> {
                        let srv = old(self).server_spec()->0;
                        &&& r.1 is Nothing
                        &&& (match r.0 {
                            CommandReply::Now(res) => (match res {
                                Ok(Some(CommandResponse::Status { server_state })) => {
                                    &&& (server_state.username)@ == srv.username_spec()->0@
                                    &&& (server_state.host)@ == srv.host_spec()->0@
                                    &&& server_state.welcome_text == srv.welcome_text_spec()
                                    &&& server_state.channels@.len() == srv.channels_view().len()
                                },
                                _ => false,
                            }),
                            _ => false,
                        })
                    }
                    &&& *final(self) == *old(self)
                },
                Command::ServerDisconnect => {
                    &&& !is_connected(old(self).phase_spec()) ==> r.0 == CommandReply::Now(
                        Err::<Option<CommandResponse>, Error>(Error::DisconnectedError),
                    ) && r.1 is Nothing && *final(self) == *old(self)
                    &&& is_connected(old(self).phase_spec()) ==> {
                        &&& final(self).server_spec() is None
                        &&& final(self).phase_spec() == StatePhase::Disconnected
                        &&& final(self).audio_spec().output_spec().mixer_spec().peers_view().len() == 0
                        &&& r.0 == CommandReply::Now(Ok::<Option<CommandResponse>, Error>(None))
                        &&& r.1 is Nothing
                    }
                },
                Command::InputVolumeSet(volume) => {
                    &&& final(self).audio_spec().input_spec().chain_spec().volume_spec() == (
                    if volume <= VOLUME_MAX {
                        volume
                    } else {
                        VOLUME_MAX
                    })
                    &&& r.0 == CommandReply::Now(Ok::<Option<CommandResponse>, Error>(None))
                    &&& r.1 is Nothing
                    &&& final(self).phase_spec() == old(self).phase_spec()
                    &&& final(self).server_spec() == old(self).server_spec()
                },
                Command::ConfigReload => {
                    &&& r.0 == CommandReply::Now(Ok::<Option<CommandResponse>, Error>(None))
                    &&& r.1 is ReloadConfig
                    &&& *final(self) == *old(self)
                },
                Command::Ping => {
                    &&& r.0 == CommandReply::Now(
                        Ok::<Option<CommandResponse>, Error>(Some(CommandResponse::Pong)),
                    )
                    &&& r.1 is Nothing
                    &&& *final(self) == *old(self)
                },
            }),
    {
        match command {
            Command::ChannelJoin { channel_identifier } => {
                match self.phase.phase() {
                    StatePhase::Connected(_) => {},
                    _ => {
                        return (
                            CommandReply::Now(Err(Error::DisconnectedError)),
                            CommandAction::Nothing,
                        );
                    },
                }
                let (channel_id, session_id) = match &self.server {
                    Some(srv) => {
                        let cid = match srv.channel_name(channel_identifier.as_str()) {
                            Ok((id, _)) => id,
                            Err(kind) => {
                                // The lookup reports several case-folded
                                // matches as ambiguous; the command answers
                                // that case as invalid, and keeps ambiguous
                                // for several exact matches.
                                let kind = match kind {
                                    ChannelIdentifierError::Ambiguous => {
                                        if srv.count_exact_matches(channel_identifier.as_str())
                                            > 1 {
                                            ChannelIdentifierError::Ambiguous
                                        } else {
                                            ChannelIdentifierError::Invalid
                                        }
                                    },
                                    ChannelIdentifierError::Invalid => ChannelIdentifierError::Invalid,
                                };
                                return (
                                    CommandReply::Now(
                                        Err(Error::ChannelIdentifierError(channel_identifier, kind)),
                                    ),
                                    CommandAction::Nothing,
                                );
                            },
                        };
                        let sid = match srv.session_id() {
                            Some(s) => s,
                            None => {
                                return (
                                    CommandReply::Now(Err(Error::DisconnectedError)),
                                    CommandAction::Nothing,
                                );  // unreachable while connected
                            },
                        };
                        (cid, sid)
                    },
                    None => {
                        return (
                            CommandReply::Now(Err(Error::DisconnectedError)),
                            CommandAction::Nothing,
                        );  // unreachable while connected
                    },
                };
                (
                    CommandReply::Now(Ok(None)),
                    CommandAction::SendJoinChannel { session_id, channel_id },
                )
            },
            Command::ChannelList => {
                match self.phase.phase() {
                    StatePhase::Connected(_) => {},
                    _ => {
                        return (
                            CommandReply::Now(Err(Error::DisconnectedError)),
                            CommandAction::Nothing,
                        );
                    },
                }
                let channels = match &self.server {
                    Some(srv) => srv.channel_paths(),
                    None => {
                        return (
                            CommandReply::Now(Err(Error::DisconnectedError)),
                            CommandAction::Nothing,
                        );  // unreachable while connected
                    },
                };
                (
                    CommandReply::Now(Ok(Some(CommandResponse::ChannelList { channels }))),
                    CommandAction::Nothing,
                )
            },
            Command::ServerConnect { host, port, username, accept_invalid_cert } => {
                match self.phase.phase() {
                    StatePhase::Disconnected => {},
                    _ => {
                        return (
                            CommandReply::Now(Err(Error::AlreadyConnectedError)),
                            CommandAction::Nothing,
                        );
                    },
                }
                let mut srv = ConnectedServer::new();
                let username_store = username.clone();
                *srv.username_mut() = Some(username_store);
                let mut full_host = host.clone();
                full_host.append(":");
                let port_digits = decimal_string(port as u64);
                full_host.append(port_digits.as_str());
                *srv.host_mut() = Some(full_host);
                self.server = Some(srv);
                self.phase.begin_connecting();
                (
                    CommandReply::After(TcpEvent::Connected),
                    CommandAction::OpenConnection { host, port, accept_invalid_cert },
                )
            },
            Command::Status => {
                match self.phase.phase() {
                    StatePhase::Connected(_) => {},
                    _ => {
                        return (
                            CommandReply::Now(Err(Error::DisconnectedError)),
                            CommandAction::Nothing,
                        );
                    },
                }
                let info = match &self.server {
                    Some(srv) => {
                        let username = match srv.username() {
                            Some(u) => String::from_str(u),
                            None => {
                                return (
                                    CommandReply::Now(Err(Error::DisconnectedError)),
                                    CommandAction::Nothing,
                                );  // unreachable: a server always has credentials
                            },
                        };
                        let host = match srv.host() {
                            Some(h) => h,
                            None => {
                                return (
                                    CommandReply::Now(Err(Error::DisconnectedError)),
                                    CommandAction::Nothing,
                                );  // unreachable: a server always has credentials
                            },
                        };
                        ServerInfo {
                            channels: srv.channel_paths(),
                            welcome_text: srv.welcome_text_clone(),
                            username,
                            host,
                        }
                    },
                    None => {
                        return (
                            CommandReply::Now(Err(Error::DisconnectedError)),
                            CommandAction::Nothing,
                        );  // unreachable while connected
                    },
                };
                (
                    CommandReply::Now(Ok(Some(CommandResponse::Status { server_state: info }))),
                    CommandAction::Nothing,
                )
            },
            Command::ServerDisconnect => {
                match self.phase.phase() {
                    StatePhase::Connected(_) => {},
                    _ => {
                        return (
                            CommandReply::Now(Err(Error::DisconnectedError)),
                            CommandAction::Nothing,
                        );
                    },
                }
                self.server = None;
                self.audio.clear_clients();
                self.phase.disconnect();
                (CommandReply::Now(Ok(None)), CommandAction::Nothing)
            },
            Command::InputVolumeSet(volume) => {
                let v = if volume <= VOLUME_MAX {
                    volume
                } else {
                    VOLUME_MAX
                };
                self.audio.set_input_volume(v);
                (CommandReply::Now(Ok(None)), CommandAction::Nothing)
            },
            Command::ConfigReload => {
                (CommandReply::Now(Ok(None)), CommandAction::ReloadConfig)
            },
            Command::Ping => {
                (CommandReply::Now(Ok(Some(CommandResponse::Pong))), CommandAction::Nothing)
            },
        }
    }

    /// Apply one user-state message. A message without a session id does
    /// nothing. The first message for a session either records our own
    /// session id (when the name is ours) or creates the peer's stream and
    /// stores the user; a later message updates the stored user and
    /// reports the difference.
    pub fn parse_user_state(&mut self, msg: UserStateMsg) -> (r: (
        Option<UserDiff>,
        NotificationHint,
    ))
        requires
            old(self).wf(),
        ensures
            final(self).wf(),
            final(self).phase_spec() == old(self).phase_spec(),
            msg.session is None ==> *final(self) == *old(self) && r.0 is None,
            old(self).server_spec() is None ==> *final(self) == *old(self) && r.0 is None,
            (match (msg.session, old(self).server_spec()) {
                (Some(sid), Some(srv0)) => {
                    let is_self = match (msg.name, srv0.username_spec()) {
                        (Some(n), Some(u)) => n@ == u@,
                        _ => false,
                    };
                    &&& (match final(self).server_spec() {
                        Some(s) => has_peer_session(s, sid),
                        None => false,
                    })
                    &&& (r.0 is Some <==> has_peer_session(srv0, sid))
                    &&& !has_peer_session(srv0, sid) && is_self ==> (match final(self).server_spec() {
                        Some(s) => s.session_id_spec() == Some(sid),
                        None => false,
                    }) && final(self).audio_spec() == old(self).audio_spec()
                    &&& !has_peer_session(srv0, sid) && !is_self ==> (crate::mixer::has_peer(
                        final(self).audio_spec().output_spec().mixer_spec().peers_view(),
                        sid,
                    ) || old(self).audio_spec().output_spec().mixer_spec().peers_view().len()
                        == u32::MAX)
                    &&& !has_peer_session(srv0, sid) ==> (match final(self).server_spec() {
                        Some(s1) => exists|j: int|
                            0 <= j < s1.users_view().len() && (#[trigger] s1.users_view()[j]).0
                                == sid && (s1.users_view()[j].1.name)@ == (match msg.name {
                                Some(n) => n@,
                                None => Seq::<char>::empty(),
                            }) && s1.users_view()[j].1.channel == (match msg.channel_id {
                                Some(c) => c,
                                None => 0u32,
                            }),
                        None => false,
                    })
                    &&& has_peer_session(srv0, sid) ==> {
                        let i = crate::server::user_idx(srv0.users_view(), sid);
                        &&& r.0 == Some(UserDiff { name: msg.name, channel_id: msg.channel_id })
                        &&& final(self).audio_spec() == old(self).audio_spec()
                        &&& (match final(self).server_spec() {
                            Some(s1) => (forall|k: int|
                                0 <= k < srv0.users_view().len() && (#[trigger] srv0.users_view()[k]).0
                                    != sid ==> s1.users_view()[k] == srv0.users_view()[k])
                                && (exists|j: int|
                                0 <= j < s1.users_view().len() && (#[trigger] s1.users_view()[j]).0
                                    == sid && (s1.users_view()[j].1.name)@ == (match msg.name {
                                    Some(n) => n@,
                                    None => (srv0.users_view()[i].1.name)@,
                                }) && s1.users_view()[j].1.channel == (match msg.channel_id {
                                    Some(c) => c,
                                    None => srv0.users_view()[i].1.channel,
                                })),
                            None => false,
                        })
                    }
                },
                _ => true,
            }),
    {
        let session = match msg.session {
            Some(s) => s,
            None => {
                return (None, NotificationHint::NoNotice);
            },
        };
        let srv = match &mut self.server {
            Some(srv) => srv,
            None => {
                return (None, NotificationHint::NoNotice);
            },
        };
        if !srv.has_user(session) {
            // Initial state for this session.
            let is_self: bool = match (&msg.name, srv.username()) {
                (Some(n), Some(u)) => str_eq_owned(n.as_str(), u),
                _ => false,
            };
            let mut hint = NotificationHint::NoNotice;
            if is_self {
                srv.set_session_id(session);
            } else {
                let connected = match self.phase.phase() {
                    StatePhase::Connected(_) => true,
                    _ => false,
                };
                if connected {
                    let channel_id = match msg.channel_id {
                        Some(c) => c,
                        None => 0,
                    };
                    match srv.channel_display_name(channel_id) {
                        Some(channel) => {
                            let user = match &msg.name {
                                Some(n) => n.clone(),
                                None => String::new(),
                            };
                            hint = NotificationHint::UserConnected { user, channel };
                        },
                        None => {},
                    }
                }
                self.audio.add_client(session);
            }
            let name = match msg.name {
                Some(n) => n,
                None => String::new(),
            };
            let channel = match msg.channel_id {
                Some(c) => c,
                None => 0,
            };
            match &mut self.server {
                Some(srv2) => {
                    srv2.put_user(session, User { name, channel });
                },
                None => {},
            }
            (None, hint)
        } else {
            // Update for a known session.
            let ghost srv0 = *srv;
            let name0 = srv.user_name(session);
            proof {
                let i = crate::server::user_idx(srv0.users_view(), session);
                assert(0 <= i < srv0.users_view().len() && srv0.users_view()[i].0 == session);
                match name0 {
                    Some(ref n0) => {
                        let w = choose|k: int|
                            0 <= k < srv0.users_view().len() && (#[trigger] srv0.users_view()[k]).0
                                == session && (srv0.users_view()[k].1.name)@ == n0@;
                        if w < i {
                            assert(srv0.users_view()[w].0 != srv0.users_view()[i].0);
                        }
                        if w > i {
                            assert(srv0.users_view()[i].0 != srv0.users_view()[w].0);
                        }
                        assert(n0@ == (srv0.users_view()[i].1.name)@);
                    },
                    None => {},
                }
            }
            let stored_name = match (&msg.name, name0) {
                (Some(n), _) => n.clone(),
                (None, Some(n0)) => n0,
                (None, None) => String::new(),
            };
            let channel0 = srv.user_channel(session);
            proof {
                let i = crate::server::user_idx(srv0.users_view(), session);
                match channel0 {
                    Some(c0) => {
                        let w = choose|k: int|
                            0 <= k < srv0.users_view().len() && (#[trigger] srv0.users_view()[k]).0
                                == session && srv0.users_view()[k].1.channel == c0;
                        if w < i {
                            assert(srv0.users_view()[w].0 != srv0.users_view()[i].0);
                        }
                        if w > i {
                            assert(srv0.users_view()[i].0 != srv0.users_view()[w].0);
                        }
                        assert(c0 == srv0.users_view()[i].1.channel);
                    },
                    None => {
                        assert(false);
                    },
                }
            }
            let stored_channel = match (msg.channel_id, channel0) {
                (Some(c), _) => c,
                (None, Some(c0)) => c0,
                (None, None) => 0,
            };
            let mut hint = NotificationHint::NoNotice;
            match msg.channel_id {
                Some(cid) => {
                    match srv.channel_display_name(cid) {
                        Some(channel) => {
                            hint = NotificationHint::UserMoved {
                                user: stored_name.clone(),
                                channel,
                            };
                        },
                        None => {},
                    }
                },
                None => {},
            }
            srv.put_user(session, User { name: stored_name, channel: stored_channel });
            let diff = UserDiff { name: msg.name, channel_id: msg.channel_id };
            (Some(diff), hint)
        }
    }

    /// Apply a user-remove message: the user's stream and stored state
    /// disappear; the display name of a known user comes back so the caller
    /// can announce the departure.
    pub fn remove_client(&mut self, msg: UserRemoveMsg) -> (r: Option<String>)
        requires
            old(self).wf(),
        ensures
            final(self).wf(),
            final(self).phase_spec() == old(self).phase_spec(),
            msg.session is None ==> *final(self) == *old(self) && r is None,
            (match (msg.session, final(self).server_spec()) {
                (Some(sid), Some(srv)) => !has_peer_session(srv, sid) && !crate::mixer::has_peer(
                    final(self).audio_spec().output_spec().mixer_spec().peers_view(),
                    sid,
                ),
                _ => true,
            }),
            (match (msg.session, old(self).server_spec()) {
                (Some(sid), Some(srv0)) => {
                    let peers0 = old(self).audio_spec().output_spec().mixer_spec().peers_view();
                    let peers1 = final(self).audio_spec().output_spec().mixer_spec().peers_view();
                    &&& (match final(self).server_spec() {
                        Some(s1) => {
                            &&& !has_peer_session(srv0, sid) ==> s1.users_view()
                                == srv0.users_view()
                            &&& has_peer_session(srv0, sid) ==> s1.users_view()
                                == srv0.users_view().remove(
                                crate::server::user_idx(srv0.users_view(), sid),
                            )
                        },
                        None => false,
                    })
                    &&& !crate::mixer::has_peer(peers0, sid) ==> peers1 == peers0
                    &&& crate::mixer::has_peer(peers0, sid) ==> peers1 == peers0.remove(
                        crate::mixer::peer_index(peers0, sid),
                    )
                    &&& (match r {
                        Some(name) => exists|i: int|
                            0 <= i < srv0.users_view().len() && (#[trigger] srv0.users_view()[i]).0
                                == sid && name@ == (srv0.users_view()[i].1.name)@,
                        None => !has_peer_session(srv0, sid),
                    })
                },
                _ => true,
            }),
    {
        let session = match msg.session {
            Some(s) => s,
            None => {
                return None;
            },
        };
        let name = match &self.server {
            Some(srv) => srv.user_name(session),
            None => None,
        };
        self.audio.remove_client(session);
        match &mut self.server {
            Some(srv) => {
                srv.remove_user(session);
            },
            None => {},
        }
        name
    }

    /// Take a freshly read configuration: remember it and apply the input
    /// volume it sets.
    pub fn reload_config(&mut self, config: Option<Config>)
        requires
            old(self).wf(),
            (match config {
                Some(c) => c.wf(),
                None => true,
            }),
        ensures
            final(self).wf(),
            final(self).phase_spec() == old(self).phase_spec(),
            final(self).server_spec() == old(self).server_spec(),
            config is Some ==> final(self).config_spec() == config,
            config is None ==> final(self).config_spec() == old(self).config_spec(),
            (match config {
                Some(c) => (match c.audio {
                    Some(a) => (match a.input_volume {
                        Some(v) => final(self).audio_spec().input_spec().chain_spec().volume_spec()
                            == v,
                        None => final(self).audio_spec() == old(self).audio_spec(),
                    }),
                    None => final(self).audio_spec() == old(self).audio_spec(),
                }),
                None => final(self).audio_spec() == old(self).audio_spec(),
            }),
    {
        match config {
            Some(c) => {
                match &c.audio {
                    Some(a) => {
                        match a.input_volume {
                            Some(v) => {
                                self.audio.set_input_volume(v);
                            },
                            None => {},
                        }
                    },
                    None => {},
                }
                self.config = Some(c);
            },
            None => {},
        }
    }

    /// The handshake completed: the connection is live on the primary path.
    pub fn initialized(&mut self)
        requires
            old(self).wf(),
            old(self).phase_spec() == StatePhase::Connecting || is_connected(
                old(self).phase_spec(),
            ),
            (match old(self).server_spec() {
                Some(s) => s.session_id_spec() is Some,
                None => false,
            }),
        ensures
            final(self).wf(),
            final(self).phase_spec() == StatePhase::Connected(VoiceStreamType::Udp),
            final(self).server_spec() == old(self).server_spec(),
            final(self).audio_spec() == old(self).audio_spec(),
    {
        self.phase.connect(VoiceStreamType::Udp);
    }

    /// Broadcast a phase change decided by the transport; the caller is the
    /// single writer of the phase signal.
    pub fn phase_machine(&mut self) -> (r: &mut PhaseMachine)
        ensures
            *r == (PhaseMachine { phase: old(self).phase_spec() }),
            final(self).phase_spec() == (*final(r)).phase,
            final(self).server_spec() == old(self).server_spec(),
            final(self).audio_spec() == old(self).audio_spec(),
            final(self).config_spec() == old(self).config_spec(),
    {
        &mut self.phase
    }

    /// The phase every subscriber currently observes.
    pub fn phase_receiver(&self) -> (r: StatePhase)
        ensures
            r == self.phase_spec(),
    {
        self.phase.phase()
    }

    pub fn audio(&self) -> (r: &Audio)
        ensures
            *r == self.audio_spec(),
    {
        &self.audio
    }

    pub fn audio_mut(&mut self) -> (r: &mut Audio)
        ensures
            *r == old(self).audio_spec(),
            final(self).audio_spec() == *final(r),
            final(self).server_spec() == old(self).server_spec(),
            final(self).phase_spec() == old(self).phase_spec(),
            final(self).config_spec() == old(self).config_spec(),
    {
        &mut self.audio
    }

    pub fn server(&self) -> (r: Option<&ConnectedServer>)
        ensures
            match r {
                Some(s) => self.server_spec() == Some(*s),
                None => self.server_spec() is None,
            },
    {
        self.server.as_ref()
    }

    pub fn server_mut(&mut self) -> (r: &mut Option<ConnectedServer>)
        ensures
            *r == old(self).server_spec(),
            final(self).server_spec() == *final(r),
            final(self).audio_spec() == old(self).audio_spec(),
            final(self).phase_spec() == old(self).phase_spec(),
            final(self).config_spec() == old(self).config_spec(),
    {
        &mut self.server
    }

    pub fn username(&self) -> (r: Option<&str>)
        ensures
            match r {
                Some(u) => (match self.server_spec() {
                    Some(s) => s.username_spec() matches Some(n) && n@ == u@,
                    None => false,
                }),
                None => (match self.server_spec() {
                    Some(s) => s.username_spec() is None,
                    None => true,
                }),
            },
    {
        match &self.server {
            Some(s) => s.username(),
            None => None,
        }
    }
}

/// Whether user `sid` is stored in the server's user table.
pub open spec fn has_peer_session(srv: ConnectedServer, sid: u32) -> bool {
    exists|i: int| 0 <= i < srv.users_view().len() && (#[trigger] srv.users_view()[i]).0 == sid
}

/// Executable string equality where one side is borrowed from the server.
fn str_eq_owned(a: &str, b: &str) -> (r: bool)
    ensures
        r == (a@ == b@),
{
    let sa = String::from_str(a);
    let sb = String::from_str(b);
    sa == sb
}

} // verus!
