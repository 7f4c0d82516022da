//! The host's identity at the signaling server, and the decisions of the supervisor
//! that owns the signaling socket: it reconnects and re-registers forever, and stops
//! only when the host itself is gone.
use vstd::prelude::*;

verus! {

/// Everything needed to register the host again after a reconnect.
#[derive(Clone)]
pub struct HostRegistration {
    pub session_id: String,
    pub pin: String,
    pub device_name: String,
    pub preset: String,
    pub emulator: String,
}

/// How long the supervisor waits between reconnect attempts.
pub const RECONNECT_DELAY_MS: u64 = 1_000;

/// Where the supervisor is in its connection cycle.
#[derive(Debug, Clone, Copy, PartialEq, Eq, Structural)]
pub enum SupervisorPhase {
    /// Opening the socket.
    Connecting,
    /// Connected; the registration is being sent.
    Registering,
    /// Relaying messages both ways.
    Pumping,
    /// The host is gone: nothing more to do.
    Stopped,
}

/// What happened at the socket or at the host side.
#[derive(Debug, Clone, Copy, PartialEq, Eq, Structural)]
pub enum SupervisorEvent {
    ConnectFailed,
    Connected,
    /// The registration was sent (or could not be encoded, so there was nothing to send).
    RegistrationSent,
    RegistrationSendFailed,
    /// A message from the host was sent on the socket.
    OutboundSent,
    OutboundSendFailed,
    /// A message from the host could not be encoded.
    OutboundUnencodable,
    /// The host dropped its sender: it is shutting down.
    OutboundClosed,
    /// A text frame from the server decoded to a message.
    IncomingDecoded,
    IncomingUndecodable,
    /// A frame that is not text (ping, binary).
    IncomingNonText,
    /// Handing a message to the host failed: it is gone.
    InboundClosed,
    ReadFailed,
    /// The server closed the socket.
    ServerClosed,
}

/// What the supervisor does next.
#[derive(Debug, Clone, Copy, PartialEq, Eq, Structural)]
pub enum SupervisorAction {
    /// Wait [`RECONNECT_DELAY_MS`] and connect again, logging when `warn` holds.
    Reconnect { warn: bool },
    /// Send the host's registration on the new socket.
    SendRegistration,
    /// Hand the decoded message to the host.
    Forward,
    /// Log the message that could not be encoded or decoded, and go on.
    Warn,
    /// Go on waiting for the next event.
    Continue,
    Stop,
}

/// The supervisor's state.
#[derive(Debug, Clone, Copy, PartialEq, Eq, Structural)]
pub struct Supervisor {
    pub phase: SupervisorPhase,
    /// No connect failure since the last connection: the next failure is logged.
    pub first_attempt: bool,
}

/// The supervisor's transition: a failed connect is retried (logged once per run of
/// failures), every connection is followed by the registration, any socket failure
/// leads back to connecting, and only the host going away stops it. An event that
/// cannot occur in a phase changes nothing.
pub open spec fn spec_step(s: Supervisor, ev: SupervisorEvent) -> (Supervisor, SupervisorAction) {
    let to = |p: SupervisorPhase| Supervisor { phase: p, ..s };
    match s.phase {
        SupervisorPhase::Stopped => (s, SupervisorAction::Stop),
        SupervisorPhase::Connecting => match ev {
            SupervisorEvent::ConnectFailed => (
                Supervisor { phase: SupervisorPhase::Connecting, first_attempt: false },
                SupervisorAction::Reconnect { warn: s.first_attempt },
            ),
            SupervisorEvent::Connected => (
                Supervisor { phase: SupervisorPhase::Registering, first_attempt: true },
                SupervisorAction::SendRegistration,
            ),
            _ => (s, SupervisorAction::Continue),
        },
        SupervisorPhase::Registering => match ev {
            SupervisorEvent::RegistrationSent => (to(SupervisorPhase::Pumping), SupervisorAction::Continue),
            SupervisorEvent::RegistrationSendFailed => (
                to(SupervisorPhase::Connecting),
                SupervisorAction::Reconnect { warn: false },
            ),
            _ => (s, SupervisorAction::Continue),
        },
        SupervisorPhase::Pumping => match ev {
            SupervisorEvent::OutboundSent => (s, SupervisorAction::Continue),
            SupervisorEvent::OutboundUnencodable => (s, SupervisorAction::Warn),
            SupervisorEvent::OutboundSendFailed => (
                to(SupervisorPhase::Connecting),
                SupervisorAction::Reconnect { warn: true },
            ),
            SupervisorEvent::OutboundClosed => (to(SupervisorPhase::Stopped), SupervisorAction::Stop),
            SupervisorEvent::IncomingDecoded => (s, SupervisorAction::Forward),
            SupervisorEvent::IncomingUndecodable => (s, SupervisorAction::Warn),
            SupervisorEvent::IncomingNonText => (s, SupervisorAction::Continue),
            SupervisorEvent::InboundClosed => (to(SupervisorPhase::Stopped), SupervisorAction::Stop),
            SupervisorEvent::ReadFailed => (
                to(SupervisorPhase::Connecting),
                SupervisorAction::Reconnect { warn: true },
            ),
            SupervisorEvent::ServerClosed => (
                to(SupervisorPhase::Connecting),
                SupervisorAction::Reconnect { warn: true },
            ),
            _ => (s, SupervisorAction::Continue),
        },
    }
}

impl Supervisor {
    /// A supervisor about to make its first connection.
    pub fn new() -> (s: Self)
        ensures
            s == (Supervisor { phase: SupervisorPhase::Connecting, first_attempt: true }),
    {
        Supervisor { phase: SupervisorPhase::Connecting, first_attempt: true }
    }

    /// The next state and what to do, after `ev` (see [`spec_step`]).
    pub fn step(self, ev: SupervisorEvent) -> (r: (Supervisor, SupervisorAction))
        ensures
            r == spec_step(self, ev),
    {
        let to = Supervisor { phase: SupervisorPhase::Connecting, first_attempt: self.first_attempt };
        match self.phase {
            SupervisorPhase::Stopped => (self, SupervisorAction::Stop),
            SupervisorPhase::Connecting => match ev {
                SupervisorEvent::ConnectFailed => (
                    Supervisor { phase: SupervisorPhase::Connecting, first_attempt: false },
                    SupervisorAction::Reconnect { warn: self.first_attempt },
                ),
                SupervisorEvent::Connected => (
                    Supervisor { phase: SupervisorPhase::Registering, first_attempt: true },
                    SupervisorAction::SendRegistration,
                ),
                _ => (self, SupervisorAction::Continue),
            },
            SupervisorPhase::Registering => match ev {
                SupervisorEvent::RegistrationSent => (
                    Supervisor { phase: SupervisorPhase::Pumping, ..self },
                    SupervisorAction::Continue,
                ),
                SupervisorEvent::RegistrationSendFailed => (to, SupervisorAction::Reconnect { warn: false }),
                _ => (self, SupervisorAction::Continue),
            },
            SupervisorPhase::Pumping => match ev {
                SupervisorEvent::OutboundSent => (self, SupervisorAction::Continue),
                SupervisorEvent::OutboundUnencodable => (self, SupervisorAction::Warn),
                SupervisorEvent::OutboundSendFailed => (to, SupervisorAction::Reconnect { warn: true }),
                SupervisorEvent::OutboundClosed => (
                    Supervisor { phase: SupervisorPhase::Stopped, ..self },
                    SupervisorAction::Stop,
                ),
                SupervisorEvent::IncomingDecoded => (self, SupervisorAction::Forward),
                SupervisorEvent::IncomingUndecodable => (self, SupervisorAction::Warn),
                SupervisorEvent::IncomingNonText => (self, SupervisorAction::Continue),
                SupervisorEvent::InboundClosed => (
                    Supervisor { phase: SupervisorPhase::Stopped, ..self },
                    SupervisorAction::Stop,
                ),
                SupervisorEvent::ReadFailed => (to, SupervisorAction::Reconnect { warn: true }),
                SupervisorEvent::ServerClosed => (to, SupervisorAction::Reconnect { warn: true }),
                _ => (self, SupervisorAction::Continue),
            },
        }
    }
}

/// Every connection is followed by the host's registration, so a reconnect never
/// leaves the session without its host.
pub proof fn lemma_registers_on_every_connection(s: Supervisor)
    requires
        s.phase == SupervisorPhase::Connecting,
    ensures
        spec_step(s, SupervisorEvent::Connected).1 == SupervisorAction::SendRegistration,
        spec_step(s, SupervisorEvent::Connected).0.phase == SupervisorPhase::Registering,
{
}

/// The supervisor stops only when the host is gone: no failure of the socket or the
/// server ever ends it.
pub proof fn lemma_stops_only_when_host_gone(s: Supervisor, ev: SupervisorEvent)
    requires
        s.phase != SupervisorPhase::Stopped,
        spec_step(s, ev).0.phase == SupervisorPhase::Stopped,
    ensures
        ev == SupervisorEvent::OutboundClosed || ev == SupervisorEvent::InboundClosed,
{
}

/// A run of failed connects is logged once: the failure after a logged one is not
/// logged, and the first failure after a connection is.
pub proof fn lemma_connect_failures_logged_once(s: Supervisor)
    requires
        s.phase == SupervisorPhase::Connecting,
    ensures
        spec_step(spec_step(s, SupervisorEvent::ConnectFailed).0, SupervisorEvent::ConnectFailed).1
            == (SupervisorAction::Reconnect { warn: false }),
        spec_step(
            spec_step(spec_step(s, SupervisorEvent::Connected).0, SupervisorEvent::RegistrationSendFailed).0,
            SupervisorEvent::ConnectFailed,
        ).1 == (SupervisorAction::Reconnect { warn: true }),
{
}

} // verus!
