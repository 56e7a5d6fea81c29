//! Connection supervisor: the decision core of one device connection. The
//! host runtime reads, writes and registers; every decision — what to do
//! with a decoded message, the single liveness probe after a decode
//! failure, when to hand the connection over to registration, and when to
//! tear it down — is the pure transition function `step`.
use vstd::prelude::*;
use crate::codec::Message;

verus! {

/// Where the connection stands between two events.
#[derive(Debug, PartialEq)]
pub enum SupervisorState {
    /// Reading messages (the steady state, registered or not).
    AwaitingMessage,
    /// A decode failed; an `Echo` probe write was requested.
    EchoPending,
    /// The probe was written; exactly one more decode is allowed.
    ProbeAwait,
    /// An `AuthAssociate` arrived; an `Okay` write for this serial was
    /// requested.
    OkayPending(String),
    /// The `Okay` was written; a registry insert for this serial was
    /// requested.
    RegisterPending(String),
    /// The connection is finished; resources are to be released.
    Terminated,
}

/// What the host runtime reports back to the supervisor.
#[derive(Debug, PartialEq)]
pub enum Event {
    /// A message was decoded from the transport.
    Decoded(Message),
    /// Decoding failed: a read error, a timeout, or malformed data.
    DecodeFailed,
    /// The requested write went through.
    WriteOk,
    /// The requested write failed.
    WriteFailed,
    /// The requested registration was made, at this epoch.
    Registered(u64),
}

/// What the host runtime is asked to do next.
#[derive(Debug, PartialEq)]
pub enum SupervisorAction {
    /// Read and decode the next message.
    AwaitMessage,
    /// Write an `Echo` probe to the transport.
    SendEcho,
    /// Write an `Okay` acknowledgement to the transport.
    SendOkay,
    /// Register this serial with the current transport in the registry.
    Register(String),
    /// Release the connection; if `registration` is set, deregister it
    /// (epoch-guarded) first.
    Disconnect,
}

/// The supervisor: the current state and the registration this connection
/// made, if any (its serial and the epoch the registry returned).
pub struct Supervisor {
    pub state: SupervisorState,
    pub registration: Option<(String, u64)>,
}

/// A decoded message: `AuthAssociate` starts the acknowledge-then-register
/// handshake; everything else has no side effect and reading continues.
pub open spec fn spec_on_message(s: Supervisor, m: Message) -> (Supervisor, SupervisorAction) {
    match m {
        Message::AuthAssociate(serial, _model, _version) => (
            Supervisor { state: SupervisorState::OkayPending(serial), registration: s.registration },
            SupervisorAction::SendOkay,
        ),
        _ => (
            Supervisor { state: SupervisorState::AwaitingMessage, registration: s.registration },
            SupervisorAction::AwaitMessage,
        ),
    }
}

/// Tear the connection down, keeping the registration record so the host
/// can deregister it.
pub open spec fn spec_terminate(s: Supervisor) -> (Supervisor, SupervisorAction) {
    (
        Supervisor { state: SupervisorState::Terminated, registration: s.registration },
        SupervisorAction::Disconnect,
    )
}

/// The transition function: from state and event to next state and action.
/// A decode failure is answered by one `Echo` probe and at most one more
/// decode; a failed write anywhere tears the connection down; a decoded
/// `AuthAssociate` is acknowledged and then registered. An event the
/// current state does not expect changes nothing.
pub open spec fn spec_step(s: Supervisor, ev: Event) -> (Supervisor, SupervisorAction) {
    match s.state {
        SupervisorState::AwaitingMessage => match ev {
            Event::Decoded(m) => spec_on_message(s, m),
            Event::DecodeFailed => (
                Supervisor { state: SupervisorState::EchoPending, registration: s.registration },
                SupervisorAction::SendEcho,
            ),
            _ => (s, SupervisorAction::AwaitMessage),
        },
        SupervisorState::EchoPending => match ev {
            Event::WriteOk => (
                Supervisor { state: SupervisorState::ProbeAwait, registration: s.registration },
                SupervisorAction::AwaitMessage,
            ),
            Event::WriteFailed => spec_terminate(s),
            _ => (s, SupervisorAction::AwaitMessage),
        },
        SupervisorState::ProbeAwait => match ev {
            Event::Decoded(m) => spec_on_message(s, m),
            Event::DecodeFailed => spec_terminate(s),
            _ => (s, SupervisorAction::AwaitMessage),
        },
        SupervisorState::OkayPending(serial) => match ev {
            Event::WriteOk => (
                Supervisor {
                    state: SupervisorState::RegisterPending(serial),
                    registration: s.registration,
                },
                SupervisorAction::Register(serial),
            ),
            Event::WriteFailed => spec_terminate(s),
            _ => (s, SupervisorAction::AwaitMessage),
        },
        SupervisorState::RegisterPending(serial) => match ev {
            Event::Registered(epoch) => (
                Supervisor {
                    state: SupervisorState::AwaitingMessage,
                    registration: Some((serial, epoch)),
                },
                SupervisorAction::AwaitMessage,
            ),
            _ => (s, SupervisorAction::AwaitMessage),
        },
        SupervisorState::Terminated => (s, SupervisorAction::Disconnect),
    }
}

impl Supervisor {
    /// A fresh connection: awaiting its first message, nothing registered.
    pub fn new() -> (r: Supervisor)
        ensures
            r.state is AwaitingMessage,
            r.registration is None,
    {
        Supervisor { state: SupervisorState::AwaitingMessage, registration: None }
    }
}

/// Feed one event to the supervisor; exactly the transition `spec_step`
/// describes.
pub fn step(s: Supervisor, ev: Event) -> (r: (Supervisor, SupervisorAction))
    ensures
        r == spec_step(s, ev),
{
    let Supervisor { state, registration } = s;
    match state {
        SupervisorState::AwaitingMessage => match ev {
            Event::Decoded(m) => on_message(registration, m),
            Event::DecodeFailed => (
                Supervisor { state: SupervisorState::EchoPending, registration },
                SupervisorAction::SendEcho,
            ),
            _ => (
                Supervisor { state: SupervisorState::AwaitingMessage, registration },
                SupervisorAction::AwaitMessage,
            ),
        },
        SupervisorState::EchoPending => match ev {
            Event::WriteOk => (
                Supervisor { state: SupervisorState::ProbeAwait, registration },
                SupervisorAction::AwaitMessage,
            ),
            Event::WriteFailed => (
                Supervisor { state: SupervisorState::Terminated, registration },
                SupervisorAction::Disconnect,
            ),
            _ => (
                Supervisor { state: SupervisorState::EchoPending, registration },
                SupervisorAction::AwaitMessage,
            ),
        },
        SupervisorState::ProbeAwait => match ev {
            Event::Decoded(m) => on_message(registration, m),
            Event::DecodeFailed => (
                Supervisor { state: SupervisorState::Terminated, registration },
                SupervisorAction::Disconnect,
            ),
            _ => (
                Supervisor { state: SupervisorState::ProbeAwait, registration },
                SupervisorAction::AwaitMessage,
            ),
        },
        SupervisorState::OkayPending(serial) => match ev {
            Event::WriteOk => {
                let serial2 = serial.clone();
                (
                    Supervisor { state: SupervisorState::RegisterPending(serial), registration },
                    SupervisorAction::Register(serial2),
                )
            },
            Event::WriteFailed => (
                Supervisor { state: SupervisorState::Terminated, registration },
                SupervisorAction::Disconnect,
            ),
            _ => (
                Supervisor { state: SupervisorState::OkayPending(serial), registration },
                SupervisorAction::AwaitMessage,
            ),
        },
        SupervisorState::RegisterPending(serial) => match ev {
            Event::Registered(epoch) => (
                Supervisor {
                    state: SupervisorState::AwaitingMessage,
                    registration: Some((serial, epoch)),
                },
                SupervisorAction::AwaitMessage,
            ),
            _ => (
                Supervisor { state: SupervisorState::RegisterPending(serial), registration },
                SupervisorAction::AwaitMessage,
            ),
        },
        SupervisorState::Terminated => (
            Supervisor { state: SupervisorState::Terminated, registration },
            SupervisorAction::Disconnect,
        ),
    }
}

fn on_message(registration: Option<(String, u64)>, m: Message) -> (r: (
    Supervisor,
    SupervisorAction,
))
    ensures
        r == spec_on_message(
            Supervisor { state: SupervisorState::AwaitingMessage, registration },
            m,
        ),
        r == spec_on_message(Supervisor { state: SupervisorState::ProbeAwait, registration }, m),
{
    match m {
        Message::AuthAssociate(serial, _model, _version) => (
            Supervisor { state: SupervisorState::OkayPending(serial), registration },
            SupervisorAction::SendOkay,
        ),
        _ => (
            Supervisor { state: SupervisorState::AwaitingMessage, registration },
            SupervisorAction::AwaitMessage,
        ),
    }
}

} // verus!
