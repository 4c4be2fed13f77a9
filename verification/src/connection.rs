//! One connection of a node, as a state machine.
//!
//! The machine does no reading or writing itself. It is told what happened
//! on the stream (an `Event`) and answers with what to do next (an
//! `Action`). Between `AwaitingMessage` and `Writing` one step takes a frame
//! from the buffer, decodes the command in it, lets the node carry it out
//! and encodes the node's answer.

use crate::common::{CommandHandler, KVStoreError, KVStoreErrorView, Response, ResponseView};
use crate::framing::{
    encode_frame, frame_bytes, frame_is_found, front, take_frame, Front, FrontView,
};
use crate::node::{answer, apply, Node};
use crate::wire::{
    command_of, decode_command, encode_response, malformed, malformed_message, response_bytes,
};
use vstd::prelude::*;
use vstd::string::*;

verus! {

/// Where a connection stands.
#[derive(Debug, PartialEq, Eq)]
pub enum ConnectionState {
    /// Waiting for the bytes of the next command.
    AwaitingMessage,
    /// An answer is being written; the connection goes on after it.
    Writing,
    /// An `Error` response is being written; the connection closes after
    /// it, with this error.
    Rejecting(KVStoreError),
    /// The connection is over.
    Closed,
}

/// The mathematical value of a `ConnectionState`.
pub enum ConnectionStateView {
    AwaitingMessage,
    Writing,
    Rejecting(KVStoreErrorView),
    Closed,
}

impl View for ConnectionState {
    type V = ConnectionStateView;

    open spec fn view(&self) -> ConnectionStateView {
        match *self {
            ConnectionState::AwaitingMessage => ConnectionStateView::AwaitingMessage,
            ConnectionState::Writing => ConnectionStateView::Writing,
            ConnectionState::Rejecting(error) => ConnectionStateView::Rejecting(error@),
            ConnectionState::Closed => ConnectionStateView::Closed,
        }
    }
}

/// What happened on the stream.
#[derive(Debug, PartialEq, Eq)]
pub enum Event {
    /// A read delivered these bytes. No bytes: the peer closed the stream.
    Received(Vec<u8>),
    /// The bytes that were to be written have been written.
    Written,
    /// Reading or writing failed, with the transport's message.
    Failed(String),
}

/// The mathematical value of an `Event`.
pub enum EventView {
    Received(Seq<u8>),
    Written,
    Failed(Seq<char>),
}

impl View for Event {
    type V = EventView;

    open spec fn view(&self) -> EventView {
        match *self {
            Event::Received(bytes) => EventView::Received(bytes@),
            Event::Written => EventView::Written,
            Event::Failed(message) => EventView::Failed(message@),
        }
    }
}

/// What to do next on the stream.
#[derive(Debug, PartialEq, Eq)]
pub enum Action {
    /// Read, and report what came as `Received`.
    Read,
    /// Write these bytes, and report `Written`.
    Write(Vec<u8>),
    /// Stop. The connection ended in this way.
    Close(Result<(), KVStoreError>),
}

/// The mathematical value of an `Action`.
pub enum ActionView {
    Read,
    Write(Seq<u8>),
    Close(Result<(), KVStoreErrorView>),
}

impl View for Action {
    type V = ActionView;

    open spec fn view(&self) -> ActionView {
        match *self {
            Action::Read => ActionView::Read,
            Action::Write(bytes) => ActionView::Write(bytes@),
            Action::Close(Ok(())) => ActionView::Close(Ok(())),
            Action::Close(Err(error)) => ActionView::Close(Err(error@)),
        }
    }
}

/// The mathematical value of a `Connection`: its state, and the bytes
/// received that no command has used up yet.
pub struct ConnectionView {
    pub state: ConnectionStateView,
    pub buffer: Seq<u8>,
}

/// What one step leads to: the connection and the store after it, and what
/// to do next.
pub struct Transition {
    pub connection: ConnectionView,
    pub store: Map<Seq<char>, Seq<char>>,
    pub action: ActionView,
}

/// The message of the error that an event out of turn ends a connection
/// with.
pub open spec fn unexpected_event_message() -> Seq<char> {
    "unexpected event"@
}

/// The frame that tells the peer that its bytes were no command.
pub open spec fn rejection_frame() -> Seq<u8> {
    frame_bytes(response_bytes(ResponseView::Error(malformed_message())))
}

/// The step of a connection that is free to serve the next command, with
/// `buffer` received so far.
///
/// While no whole frame is there, it reads on. A whole frame is taken from
/// the buffer. If it holds a command, the command is carried out on the
/// store and its answer is written. If it does not, or if it announces more
/// bytes than can ever arrive, an `Error` response is written and the
/// connection closes after it.
pub open spec fn serve(buffer: Seq<u8>, store: Map<Seq<char>, Seq<char>>) -> Transition {
    match front(buffer) {
        FrontView::Incomplete => Transition {
            connection: ConnectionView { state: ConnectionStateView::AwaitingMessage, buffer },
            store,
            action: ActionView::Read,
        },
        FrontView::Oversized => Transition {
            connection: ConnectionView {
                state: ConnectionStateView::Rejecting(
                    KVStoreErrorView::SerializationError(malformed_message()),
                ),
                buffer,
            },
            store,
            action: ActionView::Write(rejection_frame()),
        },
        FrontView::Frame { payload, rest } => match command_of(payload) {
            Some(command) => Transition {
                connection: ConnectionView { state: ConnectionStateView::Writing, buffer: rest },
                store: apply(store, command),
                action: ActionView::Write(frame_bytes(response_bytes(answer(store, command)))),
            },
            None => Transition {
                connection: ConnectionView {
                    state: ConnectionStateView::Rejecting(
                        KVStoreErrorView::SerializationError(malformed_message()),
                    ),
                    buffer: rest,
                },
                store,
                action: ActionView::Write(rejection_frame()),
            },
        },
    }
}

/// The connection is closed, in this way.
pub open spec fn closed(
    buffer: Seq<u8>,
    store: Map<Seq<char>, Seq<char>>,
    outcome: Result<(), KVStoreErrorView>,
) -> Transition {
    Transition {
        connection: ConnectionView { state: ConnectionStateView::Closed, buffer },
        store,
        action: ActionView::Close(outcome),
    }
}

/// One step of a connection.
///
/// - A closed connection stays closed.
/// - A failure of the transport closes the connection with a
///   `NetworkError`.
/// - Bytes received while awaiting a message are added to the buffer, and
///   the connection serves what the buffer holds. A read without bytes
///   means that the peer is gone: the connection closes, in good order if
///   the buffer is empty, with a `SerializationError` if part of a message
///   is left in it.
/// - When an answer has been written, the connection serves what the buffer
///   holds. When an `Error` response has been written, it closes with the
///   error that it kept.
/// - Any other event comes out of turn and closes the connection with a
///   `NetworkError`.
pub open spec fn transition(
    connection: ConnectionView,
    store: Map<Seq<char>, Seq<char>>,
    event: EventView,
) -> Transition {
    let buffer = connection.buffer;
    let out_of_turn = closed(
        buffer,
        store,
        Err(KVStoreErrorView::NetworkError(unexpected_event_message())),
    );
    match connection.state {
        ConnectionStateView::Closed => closed(buffer, store, Ok(())),
        ConnectionStateView::AwaitingMessage => match event {
            EventView::Failed(message) => closed(
                buffer,
                store,
                Err(KVStoreErrorView::NetworkError(message)),
            ),
            EventView::Received(bytes) => if bytes.len() > 0 {
                serve(buffer + bytes, store)
            } else if buffer.len() == 0 {
                closed(buffer, store, Ok(()))
            } else {
                closed(buffer, store, Err(KVStoreErrorView::SerializationError(malformed_message())))
            },
            EventView::Written => out_of_turn,
        },
        ConnectionStateView::Writing => match event {
            EventView::Failed(message) => closed(
                buffer,
                store,
                Err(KVStoreErrorView::NetworkError(message)),
            ),
            EventView::Received(_) => out_of_turn,
            EventView::Written => serve(buffer, store),
        },
        ConnectionStateView::Rejecting(error) => match event {
            EventView::Failed(message) => closed(
                buffer,
                store,
                Err(KVStoreErrorView::NetworkError(message)),
            ),
            EventView::Received(_) => out_of_turn,
            EventView::Written => closed(buffer, store, Err(error)),
        },
    }
}

/// While the connection awaits a message, its buffer holds no whole frame:
/// every frame that has arrived is served before more is read.
pub open spec fn nothing_left_unserved(connection: ConnectionView) -> bool {
    connection.state is AwaitingMessage ==> front(connection.buffer) is Incomplete
}

/// A new connection leaves nothing unserved, and no step changes that.
pub proof fn steps_leave_nothing_unserved(
    connection: ConnectionView,
    store: Map<Seq<char>, Seq<char>>,
    event: EventView,
)
    requires
        nothing_left_unserved(connection),
    ensures
        nothing_left_unserved(
            ConnectionView {
                state: ConnectionStateView::AwaitingMessage,
                buffer: Seq::<u8>::empty(),
            },
        ),
        nothing_left_unserved(transition(connection, store, event).connection),
{
}

/// Bytes may arrive in any number of reads: as long as no whole frame is
/// there, a connection that awaits a message reads on, and what it does
/// when the rest arrives is what it would have done had all arrived at
/// once.
pub proof fn delivery_in_parts(
    buffer: Seq<u8>,
    store: Map<Seq<char>, Seq<char>>,
    first: Seq<u8>,
    second: Seq<u8>,
)
    requires
        first.len() > 0,
        second.len() > 0,
        front(buffer + first) is Incomplete,
    ensures
        ({
            let waiting = ConnectionView { state: ConnectionStateView::AwaitingMessage, buffer };
            let part = transition(waiting, store, EventView::Received(first));
            &&& part.action == ActionView::Read
            &&& part.store == store
            &&& transition(part.connection, part.store, EventView::Received(second))
                == transition(waiting, store, EventView::Received(first + second))
        }),
{
    assert((buffer + first) + second =~= buffer + (first + second));
}

/// A frame that holds no command is answered with an `Error` response, the
/// store stays as it is, and once the response is written the connection
/// closes with a `SerializationError`.
pub proof fn frame_without_command_is_rejected(
    store: Map<Seq<char>, Seq<char>>,
    payload: Seq<u8>,
)
    requires
        payload.len() + 8 <= usize::MAX,
        command_of(payload) is None,
    ensures
        ({
            let idle = ConnectionView {
                state: ConnectionStateView::AwaitingMessage,
                buffer: Seq::<u8>::empty(),
            };
            let rejected = transition(idle, store, EventView::Received(frame_bytes(payload)));
            let ended = transition(rejected.connection, rejected.store, EventView::Written);
            &&& rejected.action == ActionView::Write(rejection_frame())
            &&& rejected.store == store
            &&& ended.action == ActionView::Close(
                Err(KVStoreErrorView::SerializationError(malformed_message())),
            )
            &&& ended.connection.state is Closed
            &&& ended.store == store
        }),
{
    frame_is_found(payload, Seq::<u8>::empty());
    vstd::bytes::lemma_auto_spec_u64_to_from_le_bytes();
}

/// One connection of a node.
pub struct Connection {
    state: ConnectionState,
    buffer: Vec<u8>,
}

impl View for Connection {
    type V = ConnectionView;

    closed spec fn view(&self) -> ConnectionView {
        ConnectionView { state: self.state@, buffer: self.buffer@ }
    }
}

impl Connection {
    /// A connection that awaits its first message. The first thing to do on
    /// it is to read.
    pub fn new() -> (connection: Connection)
        ensures
            connection@ == (ConnectionView {
                state: ConnectionStateView::AwaitingMessage,
                buffer: Seq::<u8>::empty(),
            }),
    {
        Connection { state: ConnectionState::AwaitingMessage, buffer: Vec::new() }
    }

    /// Whether the connection is over.
    pub fn is_closed(&self) -> (closed: bool)
        ensures
            closed == (self@.state is Closed),
    {
        match self.state {
            ConnectionState::Closed => true,
            _ => false,
        }
    }

    /// Serves what the buffer holds, as `serve` says.
    fn serve_buffer(&mut self, node: &mut Node) -> (action: Action)
        ensures
            final(self)@ == serve(old(self)@.buffer, old(node)@).connection,
            final(node)@ == serve(old(self)@.buffer, old(node)@).store,
            action@ == serve(old(self)@.buffer, old(node)@).action,
    {
        match take_frame(&mut self.buffer) {
            Front::Incomplete => {
                self.state = ConnectionState::AwaitingMessage;
                Action::Read
            },
            Front::Oversized => {
                let error = malformed();
                let reply = Response::Error(String::from_str(error.message()));
                self.state = ConnectionState::Rejecting(error);
                Action::Write(encode_frame(encode_response(&reply).as_slice()))
            },
            Front::Frame(payload) => match decode_command(payload.as_slice()) {
                Ok(command) => match node.handle_command(command) {
                    Ok(response) => {
                        self.state = ConnectionState::Writing;
                        Action::Write(encode_frame(encode_response(&response).as_slice()))
                    },
                    Err(error) => {
                        self.state = ConnectionState::Closed;
                        Action::Close(Err(error))
                    },
                },
                Err(error) => {
                    let reply = Response::Error(String::from_str(error.message()));
                    self.state = ConnectionState::Rejecting(error);
                    Action::Write(encode_frame(encode_response(&reply).as_slice()))
                },
            },
        }
    }

    /// Takes the connection one step on: `event` has happened on the
    /// stream, and the action that comes back is the next thing to do on
    /// it. Only a step that carries out a command changes the node.
    pub fn step(&mut self, node: &mut Node, event: Event) -> (action: Action)
        ensures
            final(self)@ == transition(old(self)@, old(node)@, event@).connection,
            final(node)@ == transition(old(self)@, old(node)@, event@).store,
            action@ == transition(old(self)@, old(node)@, event@).action,
    {
        let mut state = ConnectionState::Closed;
        core::mem::swap(&mut self.state, &mut state);
        match state {
            ConnectionState::Closed => Action::Close(Ok(())),
            ConnectionState::AwaitingMessage => match event {
                Event::Failed(message) => Action::Close(Err(KVStoreError::NetworkError(message))),
                Event::Received(bytes) => {
                    let mut bytes = bytes;
                    if bytes.len() > 0 {
                        self.buffer.append(&mut bytes);
                        self.serve_buffer(node)
                    } else if self.buffer.len() == 0 {
                        Action::Close(Ok(()))
                    } else {
                        Action::Close(Err(malformed()))
                    }
                },
                Event::Written => Action::Close(Err(out_of_turn())),
            },
            ConnectionState::Writing => match event {
                Event::Failed(message) => Action::Close(Err(KVStoreError::NetworkError(message))),
                Event::Received(_) => Action::Close(Err(out_of_turn())),
                Event::Written => self.serve_buffer(node),
            },
            ConnectionState::Rejecting(error) => match event {
                Event::Failed(message) => Action::Close(Err(KVStoreError::NetworkError(message))),
                Event::Received(_) => Action::Close(Err(out_of_turn())),
                Event::Written => Action::Close(Err(error)),
            },
        }
    }
}

/// The error that an event out of turn ends a connection with.
fn out_of_turn() -> (error: KVStoreError)
    ensures
        error@ == KVStoreErrorView::NetworkError(unexpected_event_message()),
{
    KVStoreError::NetworkError(String::from_str("unexpected event"))
}

} // verus!
