use kitabu_server::connection::{ConnectionAction, ConnectionEvent, ConnectionState, Session};
use kitabu_server::message::{Message, Payload};
use kitabu_server::wire::{encode, DecodeError};

fn active(id: u64) -> Session {
    let mut session = Session::new(id);
    assert_eq!(session.on_event(ConnectionEvent::Upgraded), ConnectionAction::Register);
    session
}

#[test]
fn new_session_is_connecting() {
    let session = Session::new(3);
    assert_eq!(session, Session { id: 3, state: ConnectionState::Connecting });
}

#[test]
fn upgrade_registers_the_session() {
    let mut session = Session::new(3);
    assert_eq!(session.on_event(ConnectionEvent::Upgraded), ConnectionAction::Register);
    assert_eq!(session, Session { id: 3, state: ConnectionState::Active });
    assert_eq!(session.on_event(ConnectionEvent::Upgraded), ConnectionAction::Nothing);
    assert_eq!(session.state, ConnectionState::Active);
}

#[test]
fn failed_upgrade_closes_without_registering() {
    let mut session = Session::new(3);
    assert_eq!(session.on_event(ConnectionEvent::TransportFailed), ConnectionAction::Nothing);
    assert_eq!(session.state, ConnectionState::Closed);
    assert_eq!(session.on_event(ConnectionEvent::Upgraded), ConnectionAction::Nothing);
    assert_eq!(session.on_event(ConnectionEvent::Stopped), ConnectionAction::Nothing);
    assert_eq!(session.state, ConnectionState::Closed);
}

#[test]
fn frames_before_the_upgrade_are_not_read() {
    let mut session = Session::new(3);
    let frame = encode(&Message { id: 1, payload: Payload::Initialization });
    assert_eq!(session.on_event(ConnectionEvent::Binary(frame)), ConnectionAction::Nothing);
    assert_eq!(session.on_event(ConnectionEvent::CloseFrame), ConnectionAction::Nothing);
    assert_eq!(session.on_event(ConnectionEvent::Stopped), ConnectionAction::Nothing);
    assert_eq!(session.state, ConnectionState::Connecting);
}

#[test]
fn malformed_frame_is_dropped_and_the_next_one_is_dispatched() {
    let mut session = active(1);
    assert_eq!(
        session.on_event(ConnectionEvent::Binary(vec![1, 2, 3])),
        ConnectionAction::Discard(DecodeError::Truncated)
    );
    assert_eq!(session.state, ConnectionState::Active);
    assert_eq!(
        session.on_event(ConnectionEvent::Binary(vec![0, 0, 0, 0, 0, 0, 0, 0, 200])),
        ConnectionAction::Discard(DecodeError::UnknownKind)
    );
    assert_eq!(session.state, ConnectionState::Active);
    let message = Message { id: 42, payload: Payload::Initialization };
    assert_eq!(
        session.on_event(ConnectionEvent::Binary(encode(&message))),
        ConnectionAction::Dispatch(message)
    );
    assert_eq!(session.state, ConnectionState::Active);
}

#[test]
fn frames_without_protocol_content_are_ignored() {
    let mut session = active(1);
    assert_eq!(session.on_event(ConnectionEvent::Other), ConnectionAction::Nothing);
    assert_eq!(session.state, ConnectionState::Active);
}

#[test]
fn close_frame_ends_the_connection_and_unregisters_once() {
    let mut session = active(8);
    assert_eq!(session.on_event(ConnectionEvent::CloseFrame), ConnectionAction::Shutdown);
    assert_eq!(session.state, ConnectionState::Closing);
    assert_eq!(session.on_event(ConnectionEvent::TransportFailed), ConnectionAction::Nothing);
    assert_eq!(session.on_event(ConnectionEvent::CloseFrame), ConnectionAction::Nothing);
    let frame = encode(&Message { id: 1, payload: Payload::Initialization });
    assert_eq!(session.on_event(ConnectionEvent::Binary(frame)), ConnectionAction::Nothing);
    assert_eq!(session.state, ConnectionState::Closing);
    assert_eq!(session.on_event(ConnectionEvent::Stopped), ConnectionAction::Unregister);
    assert_eq!(session, Session { id: 8, state: ConnectionState::Closed });
    assert_eq!(session.on_event(ConnectionEvent::Stopped), ConnectionAction::Nothing);
    assert_eq!(session.on_event(ConnectionEvent::TransportFailed), ConnectionAction::Nothing);
    assert_eq!(session.state, ConnectionState::Closed);
}

#[test]
fn transport_failure_ends_the_connection() {
    let mut session = active(8);
    assert_eq!(session.on_event(ConnectionEvent::TransportFailed), ConnectionAction::Shutdown);
    assert_eq!(session.state, ConnectionState::Closing);
    assert_eq!(session.on_event(ConnectionEvent::Stopped), ConnectionAction::Unregister);
    assert_eq!(session.state, ConnectionState::Closed);
}

#[test]
fn duties_that_stop_by_themselves_unregister_the_session() {
    let mut session = active(8);
    assert_eq!(session.on_event(ConnectionEvent::Stopped), ConnectionAction::Unregister);
    assert_eq!(session.state, ConnectionState::Closed);
    assert_eq!(session.on_event(ConnectionEvent::CloseFrame), ConnectionAction::Nothing);
}
