//! Dual-path voice transport: the primary datagram path with its liveness
//! tracker, the decision that falls back to tunnelling voice frames through
//! the reliable control connection, and the receive-side dispatch.
//!
//! Every fixed interval the transport sends a ping carrying the last-acked
//! timestamp plus one on the active path. A ping echo on the primary path
//! records the ack and moves the phase back to the primary path. If a
//! scheduled ping send finds the previous send's timestamp still unacked,
//! the phase moves to the fallback path — the first unacked ping switches;
//! there is no separate retry or backoff timer.

use vstd::prelude::*;
use crate::capture::{seq_add, AudioCaptureChain, EncodedVoiceFrame};
use crate::crypt::{CryptoChannel, CryptoSessionMaterial, ReceivedPacket, VoicePayload};
use crate::mixer::AudioPlaybackMixer;
use crate::phase::{PhaseMachine, StatePhase, VoiceStreamType};

verus! {

/// Per-path liveness bookkeeping: the timestamp of the last ping sent and
/// the last timestamp the remote end echoed back. It decides path health
/// only; it never guarantees delivery.
#[derive(Clone, Copy, Debug, PartialEq, Eq, Structural)]
pub struct PingLivenessTracker {
    /// Timestamp carried by the last ping that was actually sent, if any
    /// was sent since the last reset.
    pub last_timestamp_sent: Option<u64>,
    /// Last timestamp the remote end echoed back.
    pub last_timestamp_acked: u64,
}

/// The sole path-switch trigger: a ping was sent and its timestamp was
/// never echoed back.
pub open spec fn ping_overdue(t: PingLivenessTracker) -> bool {
    match t.last_timestamp_sent {
        Some(s) => s != t.last_timestamp_acked,
        None => false,
    }
}

impl PingLivenessTracker {
    /// A fresh tracker: nothing sent, nothing acked.
    pub fn new() -> (r: PingLivenessTracker)
        ensures
            r.last_timestamp_sent is None,
            r.last_timestamp_acked == 0,
            !ping_overdue(r),
    {
        PingLivenessTracker { last_timestamp_sent: None, last_timestamp_acked: 0 }
    }

    /// A fresh `Connecting` phase starts clean.
    pub fn reset(&mut self)
        ensures
            final(self).last_timestamp_sent is None,
            final(self).last_timestamp_acked == 0,
            !ping_overdue(*final(self)),
    {
        self.last_timestamp_sent = None;
        self.last_timestamp_acked = 0;
    }

    /// The timestamp the next ping must carry: the last-acked timestamp
    /// plus one.
    pub fn next_ping_timestamp(&self) -> (r: u64)
        ensures
            r == seq_add(self.last_timestamp_acked, 1),
    {
        proof {
            if self.last_timestamp_acked < u64::MAX {
                vstd::arithmetic::div_mod::lemma_small_mod(
                    (self.last_timestamp_acked + 1) as nat,
                    0x1_0000_0000_0000_0000,
                );
            }
        }
        self.last_timestamp_acked.wrapping_add(1)
    }

    /// Record that a ping carrying `timestamp` went out on the wire.
    pub fn mark_sent(&mut self, timestamp: u64)
        ensures
            final(self).last_timestamp_sent == Some(timestamp),
            final(self).last_timestamp_acked == old(self).last_timestamp_acked,
    {
        self.last_timestamp_sent = Some(timestamp);
    }

    /// Record a ping echo from the remote end.
    pub fn record_ack(&mut self, timestamp: u64)
        ensures
            final(self).last_timestamp_acked == timestamp,
            final(self).last_timestamp_sent == old(self).last_timestamp_sent,
    {
        self.last_timestamp_acked = timestamp;
    }
}

/// Path switch trigger, switching direction: a single ping sent with no
/// corresponding ack makes the very next scheduled send overdue — the
/// first unacked ping is enough.
pub proof fn lemma_first_unacked_ping_switches(t: PingLivenessTracker, sent: u64)
    requires
        t.last_timestamp_sent == Some(sent),
        t.last_timestamp_acked != sent,
    ensures
        ping_overdue(t),
{
}

/// Path switch trigger, keeping direction: an ack that arrives before the
/// next scheduled send — however late — matches the sent timestamp and the
/// next send finds nothing overdue, so the phase stays on the primary path.
pub proof fn lemma_late_ack_keeps_primary(t: PingLivenessTracker, sent: u64)
    requires
        t.last_timestamp_sent == Some(sent),
        t.last_timestamp_acked == sent,
    ensures
        !ping_overdue(t),
{
}

/// What the transport asks its caller to do after one step.
pub enum TransportSendAction {
    /// Send these encrypted bytes on the primary datagram socket.
    SendPrimary(Vec<u8>),
    /// Hand this frame to the reliable control channel for tunnelling.
    Tunnel(EncodedVoiceFrame),
    /// Nothing to send right now.
    Idle,
}

/// What became of one incoming datagram.
#[derive(Clone, Copy, Debug, PartialEq, Eq, Structural)]
pub enum DatagramOutcome {
    /// Undecryptable or malformed; logged and discarded, never fatal.
    Discarded,
    /// A ping echo carrying the echoed timestamp: liveness recorded, phase
    /// back on the primary path.
    PingEcho { timestamp: u64 },
    /// Voice appended to the sending peer's backlog.
    VoiceAccepted,
    /// Voice for an unknown session id (or an unusable payload): dropped
    /// with no side effect on any peer.
    VoiceDropped,
}

/// The dual-path voice transport: the one live crypto session (none until
/// the handshake supplies it) and the liveness tracker for the primary
/// path.
pub struct VoiceTransport {
    crypt: Option<CryptoChannel>,
    liveness: PingLivenessTracker,
}

impl VoiceTransport {
    pub closed spec fn crypt_spec(&self) -> Option<CryptoChannel> {
        self.crypt
    }

    pub open spec fn has_session(&self) -> bool {
        self.crypt_spec() is Some
    }

    pub open spec fn generation_spec(&self) -> u64 {
        match self.crypt_spec() {
            Some(c) => c.generation_spec(),
            None => 0,
        }
    }

    pub closed spec fn liveness_spec(&self) -> PingLivenessTracker {
        self.liveness
    }

    /// A transport waiting for its first crypto session.
    pub fn new() -> (r: VoiceTransport)
        ensures
            !r.has_session(),
            r.liveness_spec().last_timestamp_sent is None,
            r.liveness_spec().last_timestamp_acked == 0,
    {
        VoiceTransport { crypt: None, liveness: PingLivenessTracker::new() }
    }

    /// Whether a crypto session has been installed.
    pub fn session_ready(&self) -> (r: bool)
        ensures
            r == self.has_session(),
    {
        self.crypt.is_some()
    }

    /// Install key material arriving from the control channel: the first
    /// delivery opens the session at generation zero, every later one is a
    /// rotation that atomically replaces the cipher state and advances the
    /// generation. In-flight decode state elsewhere is untouched.
    pub fn install_session(&mut self, material: &CryptoSessionMaterial)
        ensures
            final(self).has_session(),
            final(self).liveness_spec() == old(self).liveness_spec(),
            !old(self).has_session() ==> final(self).generation_spec() == 0,
            old(self).has_session() ==> final(self).generation_spec() == seq_add(
                old(self).generation_spec(),
                1,
            ),
    {
        match &mut self.crypt {
            Some(channel) => {
                channel.rotate(material);
            },
            None => {
                self.crypt = Some(CryptoChannel::new(material));
            },
        }
    }

    /// Tear down all per-connection state: the session and the liveness
    /// tracker; the next `Connecting` phase starts clean.
    pub fn reset(&mut self)
        ensures
            !final(self).has_session(),
            final(self).liveness_spec().last_timestamp_sent is None,
            final(self).liveness_spec().last_timestamp_acked == 0,
    {
        self.crypt = None;
        self.liveness = PingLivenessTracker::new();
    }

    /// One scheduled ping: if the previous send's timestamp was never
    /// acked, move the phase to the fallback path — this is the sole
    /// path-switch trigger — and in every case return the encrypted ping
    /// to send on the primary path, carrying the last-acked timestamp plus
    /// one. The ping counts as sent only once the caller confirms the send
    /// with [`VoiceTransport::confirm_ping_sent`]; a failed send is merely
    /// dropped and never drives the switch.
    pub fn ping_tick(&mut self, phase: &mut PhaseMachine) -> (r: Option<(Vec<u8>, u64)>)
        requires
            old(self).has_session(),
        ensures
            final(self).has_session(),
            final(self).generation_spec() == old(self).generation_spec(),
            r is Some,
            r matches Some(p) ==> p.0@.len() >= 4 && p.1 == seq_add(
                old(self).liveness_spec().last_timestamp_acked,
                1,
            ),
            ({
                let switched = ping_overdue(old(self).liveness_spec()) && old(phase).phase matches StatePhase::Connected(_);
                &&& switched ==> final(phase).phase == StatePhase::Connected(VoiceStreamType::Tcp)
                &&& !switched ==> final(phase).phase == old(phase).phase
            }),
            final(self).liveness_spec() == old(self).liveness_spec(),
    {
        let overdue = match self.liveness.last_timestamp_sent {
            Some(s) => s != self.liveness.last_timestamp_acked,
            None => false,
        };
        if overdue {
            match phase.phase() {
                StatePhase::Connected(_) => {
                    phase.connect(VoiceStreamType::Tcp);
                },
                _ => {},
            }
        }
        let ts = self.liveness.next_ping_timestamp();
        let bytes = match &mut self.crypt {
            Some(channel) => channel.encrypt_ping(ts),
            None => {
                return None;  // unreachable under the precondition
            },
        };
        Some((bytes, ts))
    }

    /// The ping carrying `timestamp` actually left on the wire: only now
    /// does it count for the path-switch rule, so a failed send is only
    /// dropped, exactly as the original recorded sends.
    pub fn confirm_ping_sent(&mut self, timestamp: u64)
        ensures
            final(self).has_session() == old(self).has_session(),
            final(self).generation_spec() == old(self).generation_spec(),
            final(self).liveness_spec().last_timestamp_sent == Some(timestamp),
            final(self).liveness_spec().last_timestamp_acked == old(self).liveness_spec().last_timestamp_acked,
    {
        self.liveness.mark_sent(timestamp);
    }

    /// One incoming datagram from the primary socket. A decryption or
    /// parse failure is logged and the datagram discarded — it never tears
    /// down the socket or the session. A ping echo records liveness and
    /// moves the phase back to the primary path. A voice packet is decoded
    /// into the sending peer's backlog; a session id with no `PeerStream`
    /// is dropped with no side effect.
    pub fn handle_datagram(
        &mut self,
        datagram: &Vec<u8>,
        phase: &mut PhaseMachine,
        mixer: &mut AudioPlaybackMixer,
    ) -> (r: (DatagramOutcome, u64))
        requires
            old(self).has_session(),
            old(mixer).wf(),
            old(phase).phase != StatePhase::Disconnected,
        ensures
            final(self).has_session(),
            final(mixer).wf(),
            final(self).generation_spec() == old(self).generation_spec(),
            r.1 == old(self).generation_spec(),
            r.0 == DatagramOutcome::Discarded ==> *final(mixer) == *old(mixer) && *final(phase)
                == *old(phase) && final(self).liveness_spec() == old(self).liveness_spec(),
            r.0 matches DatagramOutcome::PingEcho { timestamp } ==> final(phase).phase
                == StatePhase::Connected(VoiceStreamType::Udp) && *final(mixer) == *old(mixer)
                && final(self).liveness_spec().last_timestamp_acked == timestamp && final(self).liveness_spec().last_timestamp_sent == old(self).liveness_spec().last_timestamp_sent,
            r.0 == DatagramOutcome::VoiceAccepted || r.0 == DatagramOutcome::VoiceDropped
                ==> *final(phase) == *old(phase) && final(self).liveness_spec()
                == old(self).liveness_spec(),
            r.0 == DatagramOutcome::VoiceDropped ==> final(mixer).peers_view() == old(mixer).peers_view(),
            r.0 == DatagramOutcome::VoiceAccepted ==> final(mixer).peers_view().len() == old(mixer).peers_view().len(),
    {
        let (outcome, generation) = match &mut self.crypt {
            Some(channel) => channel.decrypt(datagram),
            None => {
                return (DatagramOutcome::Discarded, 0);  // unreachable under the precondition
            },
        };
        match outcome {
            Err(_) => (DatagramOutcome::Discarded, generation),
            Ok(ReceivedPacket::Ping { timestamp }) => {
                self.liveness.record_ack(timestamp);
                phase.connect(VoiceStreamType::Udp);
                (DatagramOutcome::PingEcho { timestamp }, generation)
            },
            Ok(ReceivedPacket::Audio { session_id, payload, .. }) => {
                match payload {
                    VoicePayload::Opus(data, _) => {
                        let accepted = mixer.decode_packet_payload(session_id, &data);
                        if accepted {
                            (DatagramOutcome::VoiceAccepted, generation)
                        } else {
                            (DatagramOutcome::VoiceDropped, generation)
                        }
                    },
                    _ => (DatagramOutcome::VoiceDropped, generation),
                }
            },
        }
    }

    /// One step of the voice send loop: frames are pulled from the capture
    /// chain's queue in order whatever the active path is, so switching
    /// paths mid-stream drops no queued frame. On the primary path the
    /// frame leaves encrypted; on the fallback path it is handed to the
    /// control channel for tunnelling; in any other phase nothing is sent.
    pub fn next_send(&mut self, phase: &StatePhase, chain: &mut AudioCaptureChain) -> (r:
        TransportSendAction)
        requires
            old(self).has_session(),
            old(chain).wf(),
        ensures
            final(self).has_session(),
            final(chain).wf(),
            final(self).generation_spec() == old(self).generation_spec(),
            final(self).liveness_spec() == old(self).liveness_spec(),
            !(phase matches StatePhase::Connected(_)) ==> r is Idle && final(chain).queue_view()
                == old(chain).queue_view(),
            phase matches StatePhase::Connected(_) && old(chain).queue_view().len() == 0 ==> r is Idle
                && final(chain).queue_view() == old(chain).queue_view(),
            phase matches StatePhase::Connected(_) && old(chain).queue_view().len() > 0 ==> final(chain).queue_view() == old(chain).queue_view().skip(1) && !(r is Idle) && (match phase {
                StatePhase::Connected(VoiceStreamType::Udp) => {
                    &&& old(chain).queue_view()[0].payload@.len() < 0x2000 ==> (r matches
                    TransportSendAction::SendPrimary(b) && b@.len() >= 4)
                    &&& old(chain).queue_view()[0].payload@.len() >= 0x2000 ==> (r matches
                    TransportSendAction::Tunnel(f) && f == old(chain).queue_view()[0])
                },
                StatePhase::Connected(VoiceStreamType::Tcp) => (r matches
                TransportSendAction::Tunnel(f) && f == old(chain).queue_view()[0]),
                _ => false,
            }),
    {
        match phase {
            StatePhase::Connected(VoiceStreamType::Udp) => {
                match chain.pop_frame() {
                    Some(frame) => {
                        if frame.payload.len() < 0x2000 {
                            let code = frame.target.code();
                            let bytes = match &mut self.crypt {
                                Some(channel) => channel.encrypt_voice(
                                    code,
                                    frame.seq_num,
                                    &frame.payload,
                                    false,
                                ),
                                None => {
                                    return TransportSendAction::Idle;  // unreachable under the precondition
                                },
                            };
                            TransportSendAction::SendPrimary(bytes)
                        } else {
                            // An oversized payload cannot travel in one datagram;
                            // hand it to the reliable channel instead.
                            TransportSendAction::Tunnel(frame)
                        }
                    },
                    None => TransportSendAction::Idle,
                }
            },
            StatePhase::Connected(VoiceStreamType::Tcp) => {
                match chain.pop_frame() {
                    Some(frame) => TransportSendAction::Tunnel(frame),
                    None => TransportSendAction::Idle,
                }
            },
            _ => TransportSendAction::Idle,
        }
    }
}

} // verus!
