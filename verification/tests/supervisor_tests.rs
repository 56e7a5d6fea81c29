use flapit_server::codec::Message;
use flapit_server::supervisor::{step, Event, Supervisor, SupervisorAction, SupervisorState};

fn auth(serial: &str) -> Message {
    Message::AuthAssociate(serial.to_string(), "model".to_string(), "v1".to_string())
}

#[test]
fn handshake_registers() {
    let s = Supervisor::new();
    let (s, a) = step(s, Event::Decoded(auth("S1")));
    assert_eq!(a, SupervisorAction::SendOkay);
    let (s, a) = step(s, Event::WriteOk);
    assert_eq!(a, SupervisorAction::Register("S1".to_string()));
    let (s, a) = step(s, Event::Registered(5));
    assert_eq!(a, SupervisorAction::AwaitMessage);
    assert_eq!(s.state, SupervisorState::AwaitingMessage);
    assert_eq!(s.registration, Some(("S1".to_string(), 5)));
}

#[test]
fn failed_ack_terminates_without_registering() {
    let s = Supervisor::new();
    let (s, _) = step(s, Event::Decoded(auth("S1")));
    let (s, a) = step(s, Event::WriteFailed);
    assert_eq!(a, SupervisorAction::Disconnect);
    assert_eq!(s.state, SupervisorState::Terminated);
    assert_eq!(s.registration, None);
}

#[test]
fn decode_failure_probes_once_then_terminates() {
    let s = Supervisor::new();
    let (s, a) = step(s, Event::DecodeFailed);
    assert_eq!(a, SupervisorAction::SendEcho);
    let (s, a) = step(s, Event::WriteOk);
    assert_eq!(a, SupervisorAction::AwaitMessage);
    assert_eq!(s.state, SupervisorState::ProbeAwait);
    let (s, a) = step(s, Event::DecodeFailed);
    assert_eq!(a, SupervisorAction::Disconnect);
    assert_eq!(s.state, SupervisorState::Terminated);
}

#[test]
fn probe_recovery_continues_reading() {
    let s = Supervisor::new();
    let (s, _) = step(s, Event::DecodeFailed);
    let (s, _) = step(s, Event::WriteOk);
    let (s, a) = step(s, Event::Decoded(Message::Idle));
    assert_eq!(a, SupervisorAction::AwaitMessage);
    assert_eq!(s.state, SupervisorState::AwaitingMessage);
}

#[test]
fn failed_probe_write_terminates() {
    let s = Supervisor::new();
    let (s, _) = step(s, Event::DecodeFailed);
    let (s, a) = step(s, Event::WriteFailed);
    assert_eq!(a, SupervisorAction::Disconnect);
    assert_eq!(s.state, SupervisorState::Terminated);
}

#[test]
fn idle_and_echo_have_no_side_effect() {
    let s = Supervisor::new();
    let (s, a) = step(s, Event::Decoded(Message::Idle));
    assert_eq!(a, SupervisorAction::AwaitMessage);
    let (s, a) = step(s, Event::Decoded(Message::Echo));
    assert_eq!(a, SupervisorAction::AwaitMessage);
    assert_eq!(s.state, SupervisorState::AwaitingMessage);
    assert_eq!(s.registration, None);
}

#[test]
fn reauth_keeps_old_registration_until_new_epoch() {
    let s = Supervisor::new();
    let (s, _) = step(s, Event::Decoded(auth("S1")));
    let (s, _) = step(s, Event::WriteOk);
    let (s, _) = step(s, Event::Registered(1));
    // A second handshake on the same connection re-registers.
    let (s, a) = step(s, Event::Decoded(auth("S1")));
    assert_eq!(a, SupervisorAction::SendOkay);
    assert_eq!(s.registration, Some(("S1".to_string(), 1)));
    let (s, _) = step(s, Event::WriteOk);
    let (s, _) = step(s, Event::Registered(2));
    assert_eq!(s.registration, Some(("S1".to_string(), 2)));
}
