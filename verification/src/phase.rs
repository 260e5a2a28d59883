//! The observable connection phase and its legal transitions.
//!
//! Every long-running task of the pipeline observes the phase and stops its
//! work the instant the phase no longer matches the condition it was started
//! under. The phase only ever moves in the direction a connection attempt
//! dictates: `Disconnected -> Connecting -> Connected(path)`, between the two
//! `Connected` paths, and from anywhere back to `Disconnected` on failure or
//! an explicit disconnect.

use vstd::prelude::*;

verus! {

/// Which path voice frames currently travel over.
///
/// `Udp` is the primary low-latency datagram path; `Tcp` tunnels voice frames
/// inside the reliable control connection when the primary path appears
/// unresponsive.
#[derive(Clone, Copy, Debug, PartialEq, Eq, Structural)]
pub enum VoiceStreamType {
    Udp,
    Tcp,
}

/// The observable connection state shared by every transport and pipeline task.
#[derive(Clone, Copy, Debug, PartialEq, Eq, Structural)]
pub enum StatePhase {
    Disconnected,
    Connecting,
    Connected(VoiceStreamType),
}

/// The transitions a connection attempt may take: a fresh attempt leaves
/// `Disconnected` for `Connecting`, a completed handshake moves to
/// `Connected`, the two connected paths swap freely, and any state may fall
/// back to `Disconnected`. There is no `Connecting -> Connecting`.
pub open spec fn phase_transition_allowed(from: StatePhase, to: StatePhase) -> bool {
    match (from, to) {
        (_, StatePhase::Disconnected) => true,
        (StatePhase::Disconnected, StatePhase::Connecting) => true,
        (StatePhase::Connecting, StatePhase::Connected(_)) => true,
        (StatePhase::Connected(_), StatePhase::Connected(_)) => true,
        _ => false,
    }
}

/// Single writer of the broadcast phase signal.
///
/// Holders of the machine may only move the phase through
/// [`phase_transition_allowed`] steps; the methods below are the only
/// mutators and each one ensures exactly which step it took.
#[derive(Clone, Copy, Debug, PartialEq, Eq, Structural)]
pub struct PhaseMachine {
    pub phase: StatePhase,
}

impl PhaseMachine {
    /// A fresh machine starts out disconnected.
    pub fn new() -> (r: PhaseMachine)
        ensures
            r.phase == StatePhase::Disconnected,
    {
        PhaseMachine { phase: StatePhase::Disconnected }
    }

    pub fn phase(&self) -> (r: StatePhase)
        ensures
            r == self.phase,
    {
        self.phase
    }

    /// Begin a fresh connection attempt.
    pub fn begin_connecting(&mut self)
        requires
            old(self).phase == StatePhase::Disconnected,
        ensures
            final(self).phase == StatePhase::Connecting,
            phase_transition_allowed(old(self).phase, final(self).phase),
    {
        self.phase = StatePhase::Connecting;
    }

    /// The handshake completed: the connection is live on `stream_type`.
    pub fn connect(&mut self, stream_type: VoiceStreamType)
        requires
            old(self).phase == StatePhase::Connecting || old(self).phase matches StatePhase::Connected(_),
        ensures
            final(self).phase == StatePhase::Connected(stream_type),
            phase_transition_allowed(old(self).phase, final(self).phase),
    {
        self.phase = StatePhase::Connected(stream_type);
    }

    /// Abandon the connection; always allowed.
    pub fn disconnect(&mut self)
        ensures
            final(self).phase == StatePhase::Disconnected,
            phase_transition_allowed(old(self).phase, final(self).phase),
    {
        self.phase = StatePhase::Disconnected;
    }
}

/// A task started under condition `running_under` must stop as soon as the
/// observed phase no longer satisfies it. This is the cooperative-cancellation
/// test every subscriber applies on each phase broadcast.
pub fn phase_still_valid(observed: StatePhase, expected: StatePhase) -> (r: bool)
    ensures
        r == (observed == expected),
{
    observed == expected
}

/// The phase machine never takes a `Connecting -> Connecting` step, and every
/// step any of its methods takes is one of the allowed transitions.
pub proof fn lemma_no_connecting_to_connecting(from: StatePhase, to: StatePhase)
    requires
        phase_transition_allowed(from, to),
        from == StatePhase::Connecting,
    ensures
        to != StatePhase::Connecting,
{
}

} // verus!
