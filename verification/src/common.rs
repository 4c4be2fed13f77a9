//! Message and error types shared by the node and its clients.

use vstd::prelude::*;
use vstd::string::*;
use vstd::utf8::*;

verus! {

/// The port a node listens on unless told otherwise.
pub const DEFAULT_COORDINATOR_PORT: u16 = 8080;

/// The ports set aside for further nodes.
pub const DEFAULT_NODE_PORT_RANGE: std::ops::Range<u16> = 8081..8090;

/// The longest key the store accepts, counted in bytes of its UTF-8 form.
pub const MAX_KEY_LEN: usize = 256;

/// A request sent by a client.
#[derive(Debug, PartialEq, Eq)]
pub enum Command {
    /// Asks for the value under `key`.
    Get { key: String },
    /// Sets `key` to `value`, whatever it held before.
    Put { key: String, value: String },
    /// Removes `key`; it need not be there.
    Delete { key: String },
}

/// The mathematical value of a `Command`.
pub enum CommandView {
    Get { key: Seq<char> },
    Put { key: Seq<char>, value: Seq<char> },
    Delete { key: Seq<char> },
}

impl View for Command {
    type V = CommandView;

    open spec fn view(&self) -> CommandView {
        match *self {
            Command::Get { key } => CommandView::Get { key: key@ },
            Command::Put { key, value } => CommandView::Put { key: key@, value: value@ },
            Command::Delete { key } => CommandView::Delete { key: key@ },
        }
    }
}

impl CommandView {
    /// The key that the command is about.
    pub open spec fn key(self) -> Seq<char> {
        match self {
            CommandView::Get { key } => key,
            CommandView::Put { key, .. } => key,
            CommandView::Delete { key } => key,
        }
    }
}

impl Clone for Command {
    fn clone(&self) -> (copy: Command)
        ensures
            copy@ == self@,
    {
        match self {
            Command::Get { key } => Command::Get { key: key.clone() },
            Command::Put { key, value } => Command::Put { key: key.clone(), value: value.clone() },
            Command::Delete { key } => Command::Delete { key: key.clone() },
        }
    }
}

impl Command {
    /// The key that the command is about.
    pub fn key(&self) -> (key: &str)
        ensures
            key@ == self@.key(),
    {
        match self {
            Command::Get { key } => key.as_str(),
            Command::Put { key, .. } => key.as_str(),
            Command::Delete { key } => key.as_str(),
        }
    }
}

/// The node's answer to one `Command`.
#[derive(Debug, PartialEq, Eq)]
pub enum Response {
    /// The value found under the key.
    Value(String),
    /// The command was carried out.
    Done,
    /// The key holds no value.
    NotFound,
    /// The command was refused, with the reason.
    Error(String),
}

/// The mathematical value of a `Response`.
pub enum ResponseView {
    Value(Seq<char>),
    Done,
    NotFound,
    Error(Seq<char>),
}

impl View for Response {
    type V = ResponseView;

    open spec fn view(&self) -> ResponseView {
        match *self {
            Response::Value(value) => ResponseView::Value(value@),
            Response::Done => ResponseView::Done,
            Response::NotFound => ResponseView::NotFound,
            Response::Error(message) => ResponseView::Error(message@),
        }
    }
}

impl Clone for Response {
    fn clone(&self) -> (copy: Response)
        ensures
            copy@ == self@,
    {
        match self {
            Response::Value(value) => Response::Value(value.clone()),
            Response::Done => Response::Done,
            Response::NotFound => Response::NotFound,
            Response::Error(message) => Response::Error(message.clone()),
        }
    }
}

/// What can go wrong between a client and a node.
#[derive(Debug, PartialEq, Eq)]
pub enum KVStoreError {
    /// The transport failed: connecting, reading or writing.
    NetworkError(String),
    /// Bytes that are no valid message.
    SerializationError(String),
    /// The store itself failed. The in-memory store never does.
    StorageError(String),
}

/// The mathematical value of a `KVStoreError`.
pub enum KVStoreErrorView {
    NetworkError(Seq<char>),
    SerializationError(Seq<char>),
    StorageError(Seq<char>),
}

impl View for KVStoreError {
    type V = KVStoreErrorView;

    open spec fn view(&self) -> KVStoreErrorView {
        match *self {
            KVStoreError::NetworkError(message) => KVStoreErrorView::NetworkError(message@),
            KVStoreError::SerializationError(message) => KVStoreErrorView::SerializationError(
                message@,
            ),
            KVStoreError::StorageError(message) => KVStoreErrorView::StorageError(message@),
        }
    }
}

impl KVStoreErrorView {
    /// The message that the error carries.
    pub open spec fn message(self) -> Seq<char> {
        match self {
            KVStoreErrorView::NetworkError(message) => message,
            KVStoreErrorView::SerializationError(message) => message,
            KVStoreErrorView::StorageError(message) => message,
        }
    }

    /// The text shown for the error: the name of its kind, a colon and its
    /// message.
    pub open spec fn description(self) -> Seq<char> {
        match self {
            KVStoreErrorView::NetworkError(message) => "Network error: "@ + message,
            KVStoreErrorView::SerializationError(message) => "Serialization error: "@ + message,
            KVStoreErrorView::StorageError(message) => "Storage error: "@ + message,
        }
    }
}

impl Clone for KVStoreError {
    fn clone(&self) -> (copy: KVStoreError)
        ensures
            copy@ == self@,
    {
        match self {
            KVStoreError::NetworkError(message) => KVStoreError::NetworkError(message.clone()),
            KVStoreError::SerializationError(message) => KVStoreError::SerializationError(
                message.clone(),
            ),
            KVStoreError::StorageError(message) => KVStoreError::StorageError(message.clone()),
        }
    }
}

impl KVStoreError {
    /// The message that the error carries.
    pub fn message(&self) -> (message: &str)
        ensures
            message@ == self@.message(),
    {
        match self {
            KVStoreError::NetworkError(message) => message.as_str(),
            KVStoreError::SerializationError(message) => message.as_str(),
            KVStoreError::StorageError(message) => message.as_str(),
        }
    }

    /// The text shown for the error.
    pub fn describe(&self) -> (text: String)
        ensures
            text@ == self@.description(),
    {
        match self {
            KVStoreError::NetworkError(message) => String::from_str("Network error: ").concat(
                message.as_str(),
            ),
            KVStoreError::SerializationError(message) => String::from_str(
                "Serialization error: ",
            ).concat(message.as_str()),
            KVStoreError::StorageError(message) => String::from_str("Storage error: ").concat(
                message.as_str(),
            ),
        }
    }
}

/// Something that answers commands, one at a time.
pub trait CommandHandler {
    /// Carries out `command` and gives the answer to send back.
    fn handle_command(&mut self, command: Command) -> Result<Response, KVStoreError>;
}

/// A key is valid when it is not empty and its UTF-8 form has at most
/// `MAX_KEY_LEN` bytes.
pub open spec fn valid_key(key: Seq<char>) -> bool {
    key.len() > 0 && encode_utf8(key).len() <= MAX_KEY_LEN
}

/// Tells whether `key` may be used as a key of the store.
pub fn is_valid_key(key: &str) -> (valid: bool)
    ensures
        valid == valid_key(key@),
{
    let len: usize = key.as_bytes().len();
    !key.is_empty() && len <= MAX_KEY_LEN
}

} // verus!
