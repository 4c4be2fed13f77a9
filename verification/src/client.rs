//! The client's side of an exchange: the bytes of a request, and the reply
//! found in the bytes that come back.

use crate::common::{Command, CommandView, KVStoreError, KVStoreErrorView, Response, ResponseView};
use crate::connection::{transition, ActionView, ConnectionStateView, ConnectionView, EventView};
use crate::framing::{
    encode_frame, frame_bytes, frame_is_found, front, take_frame, Front, FrontView,
};
use crate::node::{answer, apply};
use crate::wire::{
    command_bytes, command_fits, command_round_trip, decode_response, encode_command, malformed,
    malformed_message, response_bytes, response_fits, response_of, response_round_trip,
};
use vstd::prelude::*;
use vstd::string::*;

verus! {

/// The message of the error that a client gets when the node closes the
/// stream before its reply is whole.
pub open spec fn connection_closed_message() -> Seq<char> {
    "connection closed"@
}

/// The bytes to write for `command`: its byte form, in a frame.
pub fn encode_request(command: &Command) -> (bytes: Vec<u8>)
    ensures
        bytes@ == frame_bytes(command_bytes(command@)),
{
    encode_frame(encode_command(command).as_slice())
}

/// What the bytes received so far hold of a reply.
///
/// Nothing, while the reply's frame is not whole. Then the response in the
/// frame; or a `SerializationError`, when the frame holds no response or
/// announces more bytes than can ever arrive.
pub open spec fn reply_of(buffer: Seq<u8>) -> Option<Result<ResponseView, KVStoreErrorView>> {
    match front(buffer) {
        FrontView::Incomplete => None,
        FrontView::Oversized => Some(
            Err(KVStoreErrorView::SerializationError(malformed_message())),
        ),
        FrontView::Frame { payload, rest } => match response_of(payload) {
            Some(response) => Some(Ok(response)),
            None => Some(Err(KVStoreErrorView::SerializationError(malformed_message()))),
        },
    }
}

/// What `buffer` holds after the reply at its front has been taken.
pub open spec fn after_reply(buffer: Seq<u8>) -> Seq<u8> {
    match front(buffer) {
        FrontView::Frame { payload, rest } => rest,
        _ => buffer,
    }
}

/// The mathematical value of what the client has of a reply.
pub open spec fn reply_view(reply: Option<Result<Response, KVStoreError>>) -> Option<
    Result<ResponseView, KVStoreErrorView>,
> {
    match reply {
        None => None,
        Some(Ok(response)) => Some(Ok(response@)),
        Some(Err(error)) => Some(Err(error@)),
    }
}

/// Takes the reply at the front of `buffer`, if its frame is whole.
/// Nothing comes back while more bytes are needed.
pub fn take_reply(buffer: &mut Vec<u8>) -> (reply: Option<Result<Response, KVStoreError>>)
    ensures
        reply_view(reply) == reply_of(old(buffer)@),
        final(buffer)@ == after_reply(old(buffer)@),
{
    match take_frame(buffer) {
        Front::Incomplete => None,
        Front::Oversized => Some(Err(malformed())),
        Front::Frame(payload) => Some(decode_response(payload.as_slice())),
    }
}

/// What the client has of a reply when a read has delivered `bytes` and
/// `buffer` was received before: with no bytes a `NetworkError`, else what
/// all the bytes together hold.
pub open spec fn reply_on_receipt(buffer: Seq<u8>, bytes: Seq<u8>) -> Option<
    Result<ResponseView, KVStoreErrorView>,
> {
    if bytes.len() == 0 {
        Some(Err(KVStoreErrorView::NetworkError(connection_closed_message())))
    } else {
        reply_of(buffer + bytes)
    }
}

/// Adds what a read delivered to `buffer` and takes the reply from it, if
/// its frame is now whole. A read without bytes means that the node closed
/// the stream: the reply will never be whole, which is a `NetworkError`.
pub fn receive_reply(buffer: &mut Vec<u8>, bytes: &[u8]) -> (reply: Option<
    Result<Response, KVStoreError>,
>)
    ensures
        reply_view(reply) == reply_on_receipt(old(buffer)@, bytes@),
        final(buffer)@ == if bytes@.len() == 0 {
            old(buffer)@
        } else {
            after_reply(old(buffer)@ + bytes@)
        },
{
    if bytes.len() == 0 {
        return Some(Err(KVStoreError::NetworkError(String::from_str("connection closed"))));
    }
    buffer.extend_from_slice(bytes);
    assert(buffer@ =~= old(buffer)@ + bytes@);
    take_reply(buffer)
}

/// A whole exchange. The client writes the request for `command`. A
/// connection that awaits a message, with nothing left over, receives it,
/// carries the command out once and writes its reply. In that reply the
/// client finds the answer to the command.
pub proof fn exchange_gives_answer(store: Map<Seq<char>, Seq<char>>, command: CommandView)
    requires
        command_fits(command),
        response_fits(answer(store, command)),
        command_bytes(command).len() + 8 <= usize::MAX,
        response_bytes(answer(store, command)).len() + 8 <= usize::MAX,
    ensures
        ({
            let idle = ConnectionView {
                state: ConnectionStateView::AwaitingMessage,
                buffer: Seq::<u8>::empty(),
            };
            let request = frame_bytes(command_bytes(command));
            let served = transition(idle, store, EventView::Received(request));
            let reply = frame_bytes(response_bytes(answer(store, command)));
            let resumed = transition(served.connection, served.store, EventView::Written);
            &&& served.action == ActionView::Write(reply)
            &&& served.store == apply(store, command)
            &&& reply_of(reply) == Some(Ok::<ResponseView, KVStoreErrorView>(answer(store, command)))
            &&& after_reply(reply) == Seq::<u8>::empty()
            &&& resumed.action == ActionView::Read
            &&& resumed.connection == idle
            &&& resumed.store == apply(store, command)
        }),
{
    frame_is_found(command_bytes(command), Seq::<u8>::empty());
    command_round_trip(command);
    frame_is_found(response_bytes(answer(store, command)), Seq::<u8>::empty());
    response_round_trip(answer(store, command));
    vstd::bytes::lemma_auto_spec_u64_to_from_le_bytes();
}

} // verus!
