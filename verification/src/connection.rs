//! The life of one connection, as a state machine.
//!
//! The adapter that owns the socket feeds the machine what it observes and
//! does what the machine tells it to. The machine decides: when the session
//! is registered with the hub, what becomes of each frame, when both duties
//! stop, and when the session is unregistered.

use vstd::prelude::*;
use crate::message::{Message, MessageView};
use crate::wire::{decode, spec_decode, DecodeError};

verus! {

/// Where a connection stands.
#[derive(Clone, Copy, Debug, PartialEq, Eq, Structural)]
pub enum ConnectionState {
    /// The upgrade of the socket is under way.
    Connecting,
    /// Frames are read and written.
    Active,
    /// The connection is ending: both duties are told to stop.
    Closing,
    /// The connection has ended.
    Closed,
}

/// What the adapter observed.
#[derive(Clone, Debug, PartialEq, Eq)]
pub enum ConnectionEvent {
    /// The upgrade has completed.
    Upgraded,
    /// A binary frame has arrived.
    Binary(Vec<u8>),
    /// A frame has arrived that holds no protocol content: text, ping, pong.
    Other,
    /// A close frame has arrived.
    CloseFrame,
    /// The socket failed, or the peer is gone.
    TransportFailed,
    /// Both duties have stopped.
    Stopped,
}

/// The view of a [`ConnectionEvent`].
pub enum ConnectionEventView {
    Upgraded,
    Binary(Seq<u8>),
    Other,
    CloseFrame,
    TransportFailed,
    Stopped,
}

impl View for ConnectionEvent {
    type V = ConnectionEventView;

    open spec fn view(&self) -> ConnectionEventView {
        match *self {
            ConnectionEvent::Upgraded => ConnectionEventView::Upgraded,
            ConnectionEvent::Binary(frame) => ConnectionEventView::Binary(frame@),
            ConnectionEvent::Other => ConnectionEventView::Other,
            ConnectionEvent::CloseFrame => ConnectionEventView::CloseFrame,
            ConnectionEvent::TransportFailed => ConnectionEventView::TransportFailed,
            ConnectionEvent::Stopped => ConnectionEventView::Stopped,
        }
    }
}

/// What the adapter is to do.
#[derive(Clone, Debug, PartialEq, Eq)]
pub enum ConnectionAction {
    /// Nothing.
    Nothing,
    /// Register the session with the hub and start both duties.
    Register,
    /// Dispatch this message on a task of its own.
    Dispatch(Message),
    /// Drop the frame, which holds no message, and go on reading.
    Discard(DecodeError),
    /// Tell both duties to stop.
    Shutdown,
    /// Unregister the session from the hub and release the connection.
    Unregister,
}

/// The view of a [`ConnectionAction`].
pub enum ConnectionActionView {
    Nothing,
    Register,
    Dispatch(MessageView),
    Discard(DecodeError),
    Shutdown,
    Unregister,
}

impl View for ConnectionAction {
    type V = ConnectionActionView;

    open spec fn view(&self) -> ConnectionActionView {
        match *self {
            ConnectionAction::Nothing => ConnectionActionView::Nothing,
            ConnectionAction::Register => ConnectionActionView::Register,
            ConnectionAction::Dispatch(message) => ConnectionActionView::Dispatch(message@),
            ConnectionAction::Discard(e) => ConnectionActionView::Discard(e),
            ConnectionAction::Shutdown => ConnectionActionView::Shutdown,
            ConnectionAction::Unregister => ConnectionActionView::Unregister,
        }
    }
}

/// What becomes of a binary frame on an active connection.
pub open spec fn frame_action(frame: Seq<u8>) -> ConnectionActionView {
    match spec_decode(frame) {
        Ok(message) => ConnectionActionView::Dispatch(message),
        Err(e) => ConnectionActionView::Discard(e),
    }
}

/// The state after an event, and what the adapter is to do.
///
/// A connection becomes active when its upgrade completes, and is
/// registered then. While it is active every binary frame is decoded: a
/// message is dispatched, and a frame that holds none is dropped without
/// ending the connection. A close frame or a failure of the socket begins
/// the closing. The session is unregistered when both duties have stopped,
/// and a closed connection answers nothing any more.
pub open spec fn spec_step(state: ConnectionState, event: ConnectionEventView) -> (
    ConnectionState,
    ConnectionActionView,
) {
    match state {
        ConnectionState::Connecting => match event {
            ConnectionEventView::Upgraded => (ConnectionState::Active, ConnectionActionView::Register),
            ConnectionEventView::TransportFailed => (
                ConnectionState::Closed,
                ConnectionActionView::Nothing,
            ),
            _ => (ConnectionState::Connecting, ConnectionActionView::Nothing),
        },
        ConnectionState::Active => match event {
            ConnectionEventView::Binary(frame) => (ConnectionState::Active, frame_action(frame)),
            ConnectionEventView::CloseFrame => (ConnectionState::Closing, ConnectionActionView::Shutdown),
            ConnectionEventView::TransportFailed => (
                ConnectionState::Closing,
                ConnectionActionView::Shutdown,
            ),
            ConnectionEventView::Stopped => (ConnectionState::Closed, ConnectionActionView::Unregister),
            _ => (ConnectionState::Active, ConnectionActionView::Nothing),
        },
        ConnectionState::Closing => match event {
            ConnectionEventView::Stopped => (ConnectionState::Closed, ConnectionActionView::Unregister),
            _ => (ConnectionState::Closing, ConnectionActionView::Nothing),
        },
        ConnectionState::Closed => (ConnectionState::Closed, ConnectionActionView::Nothing),
    }
}

/// One session: its identifier and where its connection stands.
#[derive(Clone, Copy, Debug, PartialEq, Eq, Structural)]
pub struct Session {
    pub id: u64,
    pub state: ConnectionState,
}

impl Session {
    /// The session of a connection whose upgrade is under way.
    pub fn new(id: u64) -> (session: Self)
        ensures
            session == (Session { id, state: ConnectionState::Connecting }),
    {
        Session { id, state: ConnectionState::Connecting }
    }

    /// Takes one event: moves the session on and says what is to be done.
    pub fn on_event(&mut self, event: ConnectionEvent) -> (action: ConnectionAction)
        ensures
            final(self).id == old(self).id,
            (final(self).state, action@) == spec_step(old(self).state, event@),
    {
        match self.state {
            ConnectionState::Connecting => match event {
                ConnectionEvent::Upgraded => {
                    self.state = ConnectionState::Active;
                    ConnectionAction::Register
                },
                ConnectionEvent::TransportFailed => {
                    self.state = ConnectionState::Closed;
                    ConnectionAction::Nothing
                },
                _ => ConnectionAction::Nothing,
            },
            ConnectionState::Active => match event {
                ConnectionEvent::Binary(frame) => match decode(frame.as_slice()) {
                    Ok(message) => ConnectionAction::Dispatch(message),
                    Err(e) => ConnectionAction::Discard(e),
                },
                ConnectionEvent::CloseFrame => {
                    self.state = ConnectionState::Closing;
                    ConnectionAction::Shutdown
                },
                ConnectionEvent::TransportFailed => {
                    self.state = ConnectionState::Closing;
                    ConnectionAction::Shutdown
                },
                ConnectionEvent::Stopped => {
                    self.state = ConnectionState::Closed;
                    ConnectionAction::Unregister
                },
                _ => ConnectionAction::Nothing,
            },
            ConnectionState::Closing => match event {
                ConnectionEvent::Stopped => {
                    self.state = ConnectionState::Closed;
                    ConnectionAction::Unregister
                },
                _ => ConnectionAction::Nothing,
            },
            ConnectionState::Closed => ConnectionAction::Nothing,
        }
    }
}

/// The state that a run of events leads to.
pub open spec fn run(state: ConnectionState, events: Seq<ConnectionEventView>) -> ConnectionState
    decreases events.len(),
{
    if events.len() == 0 {
        state
    } else {
        run(spec_step(state, events[0]).0, events.drop_first())
    }
}

/// How often a run of events has the session registered.
pub open spec fn registrations(state: ConnectionState, events: Seq<ConnectionEventView>) -> nat
    decreases events.len(),
{
    if events.len() == 0 {
        0
    } else {
        let (next, action) = spec_step(state, events[0]);
        (if action is Register {
            1nat
        } else {
            0nat
        }) + registrations(next, events.drop_first())
    }
}

/// How often a run of events has the session unregistered.
pub open spec fn unregistrations(state: ConnectionState, events: Seq<ConnectionEventView>) -> nat
    decreases events.len(),
{
    if events.len() == 0 {
        0
    } else {
        let (next, action) = spec_step(state, events[0]);
        (if action is Unregister {
            1nat
        } else {
            0nat
        }) + unregistrations(next, events.drop_first())
    }
}

/// A frame that holds no message does not end the connection: it is
/// dropped, the connection stays active, and the message of a well-formed
/// frame that follows is dispatched.
pub proof fn law_malformed_frame_survives(bad: Seq<u8>, good: Seq<u8>)
    requires
        spec_decode(bad) is Err,
        spec_decode(good) is Ok,
    ensures
        spec_step(ConnectionState::Active, ConnectionEventView::Binary(bad)) == (
            ConnectionState::Active,
            ConnectionActionView::Discard(spec_decode(bad)->Err_0),
        ),
        spec_step(
            spec_step(ConnectionState::Active, ConnectionEventView::Binary(bad)).0,
            ConnectionEventView::Binary(good),
        ) == (ConnectionState::Active, ConnectionActionView::Dispatch(spec_decode(good)->Ok_0)),
{
}

/// A session is unregistered once and no more, whichever event ends its
/// connection and whatever follows: no run of events unregisters it
/// twice, none unregisters a session that it has not registered before,
/// and every run that brings a registered session to the closed state
/// unregisters it.
pub proof fn law_unregistered_once(state: ConnectionState, events: Seq<ConnectionEventView>)
    ensures
        unregistrations(state, events) <= 1,
        state is Closed ==> unregistrations(state, events) == 0,
        state is Connecting ==> unregistrations(state, events) <= registrations(state, events) <= 1,
        !(state is Connecting) ==> registrations(state, events) == 0,
        (state is Active || state is Closing) && run(state, events) is Closed ==> unregistrations(
            state,
            events,
        ) == 1,
        state is Connecting && run(state, events) is Closed ==> unregistrations(state, events)
            == registrations(state, events),
    decreases events.len(),
{
    if events.len() > 0 {
        law_unregistered_once(spec_step(state, events[0]).0, events.drop_first());
    }
}

} // verus!
