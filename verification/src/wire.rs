//! The byte form of commands and responses.
//!
//! A message is one kind byte followed by the message's texts, each as its
//! length in bytes (eight bytes, least significant first) and its UTF-8
//! form. No two messages share a byte form, and the decoders accept the
//! byte forms of messages and nothing else.

use crate::common::{Command, CommandView, KVStoreError, KVStoreErrorView, Response, ResponseView};
use vstd::bytes::*;
use vstd::prelude::*;
use vstd::slice::*;
use vstd::string::*;
use vstd::utf8::*;

verus! {

/// The kind byte of a `Get` command.
pub const KIND_GET: u8 = 0x01;

/// The kind byte of a `Put` command.
pub const KIND_PUT: u8 = 0x02;

/// The kind byte of a `Delete` command.
pub const KIND_DELETE: u8 = 0x03;

/// The kind byte of a `Value` response.
pub const KIND_VALUE: u8 = 0x11;

/// The kind byte of a `Done` response.
pub const KIND_DONE: u8 = 0x12;

/// The kind byte of a `NotFound` response.
pub const KIND_NOT_FOUND: u8 = 0x13;

/// The kind byte of an `Error` response.
pub const KIND_ERROR: u8 = 0x14;

/// The message of the error that the decoders give.
pub open spec fn malformed_message() -> Seq<char> {
    "malformed message"@
}

/// A text fits when the length of its UTF-8 form is a `usize`, as it is for
/// every `String`.
pub open spec fn text_fits(text: Seq<char>) -> bool {
    encode_utf8(text).len() <= usize::MAX
}

/// The byte form of one text: the length of its UTF-8 form, then that form.
pub open spec fn field(text: Seq<char>) -> Seq<u8> {
    spec_u64_to_le_bytes(encode_utf8(text).len() as u64) + encode_utf8(text)
}

/// The bytes of `bytes` from `start` on begin with the byte form of `text`.
spec fn has_field_at(bytes: Seq<u8>, start: int, text: Seq<char>) -> bool {
    &&& 0 <= start
    &&& start + field(text).len() <= bytes.len()
    &&& bytes.subrange(start, start + field(text).len()) == field(text)
}

/// The byte form of a text is eight bytes longer than its UTF-8 form.
proof fn field_len(text: Seq<char>)
    ensures
        field(text).len() == 8 + encode_utf8(text).len(),
{
    lemma_auto_spec_u64_to_from_le_bytes();
}

/// At one place in a byte sequence at most one text has its byte form.
proof fn field_at_is_unique(bytes: Seq<u8>, start: int, a: Seq<char>, b: Seq<char>)
    requires
        text_fits(a),
        text_fits(b),
        has_field_at(bytes, start, a),
        has_field_at(bytes, start, b),
    ensures
        a == b,
{
    lemma_auto_spec_u64_to_from_le_bytes();
    let la = encode_utf8(a).len() as u64;
    let lb = encode_utf8(b).len() as u64;
    assert(field(a).subrange(0, 8) =~= spec_u64_to_le_bytes(la));
    assert(field(b).subrange(0, 8) =~= spec_u64_to_le_bytes(lb));
    assert(bytes.subrange(start, start + 8) =~= field(a).subrange(0, 8));
    assert(bytes.subrange(start, start + 8) =~= field(b).subrange(0, 8));
    assert(field(b).subrange(8, 8 + lb) =~= encode_utf8(b));
    assert(encode_utf8(a) == encode_utf8(b));
    encode_utf8_decode_utf8(a);
    encode_utf8_decode_utf8(b);
}

/// Calls `String::from_utf8`. Its contract is not proved here; it is what
/// the standard library documents of that function: the call succeeds on
/// valid UTF-8 and on nothing else, and the `String` that it gives is the
/// text that the bytes are the UTF-8 form of.
#[verifier::external_body]
fn string_from_utf8(bytes: Vec<u8>) -> (text: Option<String>)
    ensures
        text is Some <==> valid_utf8(bytes@),
        text matches Some(t) ==> t@ == decode_utf8(bytes@),
{
    String::from_utf8(bytes).ok()
}

/// Appends the byte form of `text` to `out`.
fn write_text(out: &mut Vec<u8>, text: &str)
    ensures
        final(out)@ == old(out)@ + field(text@),
        text_fits(text@),
{
    let raw = text.as_bytes();
    let len: usize = raw.len();
    let mut prefix = u64_to_le_bytes(len as u64);
    out.append(&mut prefix);
    out.extend_from_slice(raw);
}

/// Reads the text whose byte form begins at `start`, and tells where the
/// byte form ends. Nothing comes back when no text has its byte form there.
fn read_text(bytes: &[u8], start: usize) -> (result: Option<(String, usize)>)
    requires
        start <= bytes@.len(),
    ensures
        match result {
            Some((text, end)) => {
                &&& text_fits(text@)
                &&& has_field_at(bytes@, start as int, text@)
                &&& end == start + field(text@).len()
            },
            None => forall|text: Seq<char>|
                text_fits(text) ==> !has_field_at(bytes@, start as int, text),
        },
{
    proof {
        lemma_auto_spec_u64_to_from_le_bytes();
    }
    let available: usize = bytes.len() - start;
    if available < 8 {
        assert forall|text: Seq<char>| text_fits(text) implies !has_field_at(
            bytes@,
            start as int,
            text,
        ) by {
            field_len(text);
        }
        return None;
    }
    let prefix = slice_subrange(bytes, start, start + 8);
    let len: u64 = u64_from_le_bytes(prefix);
    let rest: usize = available - 8;
    if len > rest as u64 {
        assert forall|text: Seq<char>| text_fits(text) implies !has_field_at(
            bytes@,
            start as int,
            text,
        ) by {
            if has_field_at(bytes@, start as int, text) {
                field_len(text);
                let n = encode_utf8(text).len() as u64;
                assert(field(text).subrange(0, 8) =~= spec_u64_to_le_bytes(n));
                assert(prefix@ =~= field(text).subrange(0, 8));
            }
        }
        return None;
    }
    let end: usize = start + 8 + len as usize;
    let raw = slice_to_vec(slice_subrange(bytes, start + 8, end));
    match string_from_utf8(raw) {
        Some(text) => {
            proof {
                decode_utf8_encode_utf8(raw@);
                assert(bytes@.subrange(start as int, end as int) =~= field(text@));
            }
            Some((text, end))
        },
        None => {
            assert forall|text: Seq<char>| text_fits(text) implies !has_field_at(
                bytes@,
                start as int,
                text,
            ) by {
                if has_field_at(bytes@, start as int, text) {
                    field_len(text);
                    let n = encode_utf8(text).len() as u64;
                    assert(field(text).subrange(0, 8) =~= spec_u64_to_le_bytes(n));
                    assert(prefix@ =~= field(text).subrange(0, 8));
                    assert(raw@ =~= field(text).subrange(8, 8 + n));
                    assert(raw@ =~= encode_utf8(text));
                    encode_utf8_valid_utf8(text);
                }
            }
            None
        },
    }
}

/// A message of kind `kind` that carries one text.
pub open spec fn one_text(kind: u8, text: Seq<char>) -> Seq<u8> {
    seq![kind] + field(text)
}

/// A message of kind `kind` that carries two texts.
pub open spec fn two_texts(kind: u8, first: Seq<char>, second: Seq<char>) -> Seq<u8> {
    seq![kind] + field(first) + field(second)
}

/// Where the texts of a message lie: the first right after the kind byte,
/// the second right after the first.
proof fn texts_lie_in_order(kind: u8, first: Seq<char>, second: Seq<char>)
    ensures
        has_field_at(one_text(kind, first), 1, first),
        one_text(kind, first).len() == 1 + field(first).len(),
        has_field_at(two_texts(kind, first, second), 1, first),
        has_field_at(two_texts(kind, first, second), 1 + field(first).len() as int, second),
        two_texts(kind, first, second).len() == 1 + field(first).len() + field(second).len(),
{
    let one = one_text(kind, first);
    let two = two_texts(kind, first, second);
    let a = field(first).len() as int;
    let b = field(second).len() as int;
    assert(one.subrange(1, 1 + a) =~= field(first));
    assert(two.subrange(1, 1 + a) =~= field(first));
    assert(two.subrange(1 + a, 1 + a + b) =~= field(second));
}

/// Bytes that are a kind byte and then one text, and no more, are a message
/// with one text.
proof fn one_text_from_parts(bytes: Seq<u8>, text: Seq<char>)
    requires
        has_field_at(bytes, 1, text),
        bytes.len() == 1 + field(text).len(),
    ensures
        bytes == one_text(bytes[0], text),
{
}

/// Bytes that are a kind byte and then two texts, and no more, are a message
/// with two texts.
proof fn two_texts_from_parts(bytes: Seq<u8>, first: Seq<char>, second: Seq<char>)
    requires
        has_field_at(bytes, 1, first),
        has_field_at(bytes, 1 + field(first).len() as int, second),
        bytes.len() == 1 + field(first).len() + field(second).len(),
    ensures
        bytes == two_texts(bytes[0], first, second),
{
    let a = field(first).len() as int;
    let b = field(second).len() as int;
    assert(bytes =~= seq![bytes[0]] + bytes.subrange(1, 1 + a) + bytes.subrange(
        1 + a,
        1 + a + b,
    ));
}

/// The byte form of a command.
pub open spec fn command_bytes(command: CommandView) -> Seq<u8> {
    match command {
        CommandView::Get { key } => one_text(KIND_GET, key),
        CommandView::Put { key, value } => two_texts(KIND_PUT, key, value),
        CommandView::Delete { key } => one_text(KIND_DELETE, key),
    }
}

/// The byte form of a response.
pub open spec fn response_bytes(response: ResponseView) -> Seq<u8> {
    match response {
        ResponseView::Value(value) => one_text(KIND_VALUE, value),
        ResponseView::Done => seq![KIND_DONE],
        ResponseView::NotFound => seq![KIND_NOT_FOUND],
        ResponseView::Error(message) => one_text(KIND_ERROR, message),
    }
}

/// Every text of the command fits.
pub open spec fn command_fits(command: CommandView) -> bool {
    match command {
        CommandView::Get { key } => text_fits(key),
        CommandView::Put { key, value } => text_fits(key) && text_fits(value),
        CommandView::Delete { key } => text_fits(key),
    }
}

/// Every text of the response fits.
pub open spec fn response_fits(response: ResponseView) -> bool {
    match response {
        ResponseView::Value(value) => text_fits(value),
        ResponseView::Done => true,
        ResponseView::NotFound => true,
        ResponseView::Error(message) => text_fits(message),
    }
}

/// The command that `bytes` is the byte form of, if there is one.
pub open spec fn command_of(bytes: Seq<u8>) -> Option<CommandView> {
    if exists|command: CommandView| command_fits(command) && command_bytes(command) == bytes {
        Some(choose|command: CommandView| command_fits(command) && command_bytes(command) == bytes)
    } else {
        None
    }
}

/// The response that `bytes` is the byte form of, if there is one.
pub open spec fn response_of(bytes: Seq<u8>) -> Option<ResponseView> {
    if exists|response: ResponseView|
        response_fits(response) && response_bytes(response) == bytes {
        Some(
            choose|response: ResponseView|
                response_fits(response) && response_bytes(response) == bytes,
        )
    } else {
        None
    }
}

/// No two commands share a byte form.
pub proof fn command_bytes_are_distinct(a: CommandView, b: CommandView)
    requires
        command_fits(a),
        command_fits(b),
        command_bytes(a) == command_bytes(b),
    ensures
        a == b,
{
    let bytes = command_bytes(a);
    assert(command_bytes(a)[0] == command_bytes(b)[0]);
    match a {
        CommandView::Put { key, value } => {
            let other_key = b->Put_key;
            let other_value = b->Put_value;
            texts_lie_in_order(KIND_PUT, key, value);
            texts_lie_in_order(KIND_PUT, other_key, other_value);
            field_at_is_unique(bytes, 1, key, other_key);
            field_at_is_unique(bytes, 1 + field(key).len() as int, value, other_value);
        },
        _ => {
            texts_lie_in_order(bytes[0], a.key(), a.key());
            texts_lie_in_order(bytes[0], b.key(), b.key());
            field_at_is_unique(bytes, 1, a.key(), b.key());
        },
    }
}

/// No two responses share a byte form.
pub proof fn response_bytes_are_distinct(a: ResponseView, b: ResponseView)
    requires
        response_fits(a),
        response_fits(b),
        response_bytes(a) == response_bytes(b),
    ensures
        a == b,
{
    let bytes = response_bytes(a);
    assert(response_bytes(a)[0] == response_bytes(b)[0]);
    match a {
        ResponseView::Value(value) => {
            let other = b->Value_0;
            texts_lie_in_order(KIND_VALUE, value, value);
            texts_lie_in_order(KIND_VALUE, other, other);
            field_at_is_unique(bytes, 1, value, other);
        },
        ResponseView::Error(message) => {
            let other = b->Error_0;
            texts_lie_in_order(KIND_ERROR, message, message);
            texts_lie_in_order(KIND_ERROR, other, other);
            field_at_is_unique(bytes, 1, message, other);
        },
        _ => {},
    }
}

/// Decoding the byte form of a command gives the command back.
pub proof fn command_round_trip(command: CommandView)
    requires
        command_fits(command),
    ensures
        command_of(command_bytes(command)) == Some(command),
{
    let bytes = command_bytes(command);
    let found = choose|c: CommandView| command_fits(c) && command_bytes(c) == bytes;
    command_bytes_are_distinct(found, command);
}

/// Decoding the byte form of a response gives the response back.
pub proof fn response_round_trip(response: ResponseView)
    requires
        response_fits(response),
    ensures
        response_of(response_bytes(response)) == Some(response),
{
    let bytes = response_bytes(response);
    let found = choose|r: ResponseView| response_fits(r) && response_bytes(r) == bytes;
    response_bytes_are_distinct(found, response);
}

/// Bytes that decode to a command are the byte form of that command.
pub proof fn decoded_command_encodes_back(bytes: Seq<u8>)
    requires
        command_of(bytes) is Some,
    ensures
        command_fits(command_of(bytes)->0),
        command_bytes(command_of(bytes)->0) == bytes,
{
}

/// Bytes that decode to a response are the byte form of that response.
pub proof fn decoded_response_encodes_back(bytes: Seq<u8>)
    requires
        response_of(bytes) is Some,
    ensures
        response_fits(response_of(bytes)->0),
        response_bytes(response_of(bytes)->0) == bytes,
{
}

/// The error that the decoders give.
pub fn malformed() -> (error: KVStoreError)
    ensures
        error@ == KVStoreErrorView::SerializationError(malformed_message()),
{
    KVStoreError::SerializationError(String::from_str("malformed message"))
}

/// Reads a message that carries one text. Nothing comes back when `bytes`
/// is no such message.
fn read_one_text(bytes: &[u8]) -> (result: Option<String>)
    requires
        bytes@.len() > 0,
    ensures
        match result {
            Some(text) => text_fits(text@) && bytes@ == one_text(bytes@[0], text@),
            None => forall|text: Seq<char>|
                text_fits(text) ==> bytes@ != one_text(bytes@[0], text),
        },
{
    match read_text(bytes, 1) {
        Some((text, end)) => {
            if end == bytes.len() {
                proof {
                    one_text_from_parts(bytes@, text@);
                }
                Some(text)
            } else {
                assert forall|other: Seq<char>| text_fits(other) implies bytes@ != one_text(
                    bytes@[0],
                    other,
                ) by {
                    if bytes@ == one_text(bytes@[0], other) {
                        texts_lie_in_order(bytes@[0], other, other);
                        field_at_is_unique(bytes@, 1, text@, other);
                    }
                }
                None
            }
        },
        None => {
            assert forall|other: Seq<char>| text_fits(other) implies bytes@ != one_text(
                bytes@[0],
                other,
            ) by {
                texts_lie_in_order(bytes@[0], other, other);
            }
            None
        },
    }
}

/// Reads a message that carries two texts. Nothing comes back when `bytes`
/// is no such message.
fn read_two_texts(bytes: &[u8]) -> (result: Option<(String, String)>)
    requires
        bytes@.len() > 0,
    ensures
        match result {
            Some((first, second)) => {
                &&& text_fits(first@)
                &&& text_fits(second@)
                &&& bytes@ == two_texts(bytes@[0], first@, second@)
            },
            None => forall|first: Seq<char>, second: Seq<char>|
                text_fits(first) && text_fits(second) ==> bytes@ != #[trigger] two_texts(
                    bytes@[0],
                    first,
                    second,
                ),
        },
{
    match read_text(bytes, 1) {
        Some((first, middle)) => match read_text(bytes, middle) {
            Some((second, end)) => {
                if end == bytes.len() {
                    proof {
                        two_texts_from_parts(bytes@, first@, second@);
                    }
                    Some((first, second))
                } else {
                    assert forall|a: Seq<char>, b: Seq<char>|
                        text_fits(a) && text_fits(b) implies bytes@ != #[trigger] two_texts(
                        bytes@[0],
                        a,
                        b,
                    ) by {
                        if bytes@ == two_texts(bytes@[0], a, b) {
                            texts_lie_in_order(bytes@[0], a, b);
                            field_at_is_unique(bytes@, 1, first@, a);
                            field_at_is_unique(bytes@, middle as int, second@, b);
                        }
                    }
                    None
                }
            },
            None => {
                assert forall|a: Seq<char>, b: Seq<char>|
                    text_fits(a) && text_fits(b) implies bytes@ != #[trigger] two_texts(
                    bytes@[0],
                    a,
                    b,
                ) by {
                    if bytes@ == two_texts(bytes@[0], a, b) {
                        texts_lie_in_order(bytes@[0], a, b);
                        field_at_is_unique(bytes@, 1, first@, a);
                    }
                }
                None
            },
        },
        None => {
            assert forall|a: Seq<char>, b: Seq<char>|
                text_fits(a) && text_fits(b) implies bytes@ != #[trigger] two_texts(
                bytes@[0],
                a,
                b,
            ) by {
                texts_lie_in_order(bytes@[0], a, b);
            }
            None
        },
    }
}

/// The byte form of `command`. Decoding it gives `command` back.
pub fn encode_command(command: &Command) -> (bytes: Vec<u8>)
    ensures
        bytes@ == command_bytes(command@),
        command_of(bytes@) == Some(command@),
{
    let mut bytes: Vec<u8> = Vec::new();
    match command {
        Command::Get { key } => {
            bytes.push(KIND_GET);
            write_text(&mut bytes, key.as_str());
        },
        Command::Put { key, value } => {
            bytes.push(KIND_PUT);
            write_text(&mut bytes, key.as_str());
            write_text(&mut bytes, value.as_str());
        },
        Command::Delete { key } => {
            bytes.push(KIND_DELETE);
            write_text(&mut bytes, key.as_str());
        },
    }
    proof {
        command_round_trip(command@);
    }
    bytes
}

/// The command that `bytes` is the byte form of. Bytes that are the byte
/// form of no command give a `SerializationError`.
pub fn decode_command(bytes: &[u8]) -> (result: Result<Command, KVStoreError>)
    ensures
        match command_of(bytes@) {
            Some(expected) => result matches Ok(command) && command@ == expected,
            None => result matches Err(error) && error@ == KVStoreErrorView::SerializationError(
                malformed_message(),
            ),
        },
{
    if bytes.len() == 0 {
        return Err(malformed());
    }
    let kind: u8 = bytes[0];
    let decoded: Option<Command> = if kind == KIND_GET {
        match read_one_text(bytes) {
            Some(key) => Some(Command::Get { key }),
            None => None,
        }
    } else if kind == KIND_PUT {
        match read_two_texts(bytes) {
            Some((key, value)) => Some(Command::Put { key, value }),
            None => None,
        }
    } else if kind == KIND_DELETE {
        match read_one_text(bytes) {
            Some(key) => Some(Command::Delete { key }),
            None => None,
        }
    } else {
        None
    };
    match decoded {
        Some(command) => {
            proof {
                command_round_trip(command@);
            }
            Ok(command)
        },
        None => {
            assert forall|c: CommandView| command_fits(c) implies command_bytes(c) != bytes@ by {}
            Err(malformed())
        },
    }
}

/// The byte form of `response`. Decoding it gives `response` back.
pub fn encode_response(response: &Response) -> (bytes: Vec<u8>)
    ensures
        bytes@ == response_bytes(response@),
        response_of(bytes@) == Some(response@),
{
    let mut bytes: Vec<u8> = Vec::new();
    match response {
        Response::Value(value) => {
            bytes.push(KIND_VALUE);
            write_text(&mut bytes, value.as_str());
        },
        Response::Done => {
            bytes.push(KIND_DONE);
        },
        Response::NotFound => {
            bytes.push(KIND_NOT_FOUND);
        },
        Response::Error(message) => {
            bytes.push(KIND_ERROR);
            write_text(&mut bytes, message.as_str());
        },
    }
    proof {
        response_round_trip(response@);
    }
    bytes
}

/// The response that `bytes` is the byte form of. Bytes that are the byte
/// form of no response give a `SerializationError`.
pub fn decode_response(bytes: &[u8]) -> (result: Result<Response, KVStoreError>)
    ensures
        match response_of(bytes@) {
            Some(expected) => result matches Ok(response) && response@ == expected,
            None => result matches Err(error) && error@ == KVStoreErrorView::SerializationError(
                malformed_message(),
            ),
        },
{
    if bytes.len() == 0 {
        return Err(malformed());
    }
    let kind: u8 = bytes[0];
    let decoded: Option<Response> = if kind == KIND_VALUE {
        match read_one_text(bytes) {
            Some(value) => Some(Response::Value(value)),
            None => None,
        }
    } else if kind == KIND_ERROR {
        match read_one_text(bytes) {
            Some(message) => Some(Response::Error(message)),
            None => None,
        }
    } else if kind == KIND_DONE && bytes.len() == 1 {
        Some(Response::Done)
    } else if kind == KIND_NOT_FOUND && bytes.len() == 1 {
        Some(Response::NotFound)
    } else {
        None
    };
    match decoded {
        Some(response) => {
            proof {
                assert(bytes@ =~= response_bytes(response@));
                response_round_trip(response@);
            }
            Ok(response)
        },
        None => {
            assert forall|r: ResponseView| response_fits(r) implies response_bytes(r)
                != bytes@ by {}
            Err(malformed())
        },
    }
}

} // verus!
