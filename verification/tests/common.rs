use kvstore::common::{
    is_valid_key, Command, KVStoreError, DEFAULT_COORDINATOR_PORT, DEFAULT_NODE_PORT_RANGE,
    MAX_KEY_LEN,
};

#[test]
fn empty_key_is_not_valid() {
    assert!(!is_valid_key(""));
}

#[test]
fn short_keys_are_valid() {
    assert!(is_valid_key("a"));
    assert!(is_valid_key("key1"));
    assert!(is_valid_key(" "));
}

#[test]
fn key_of_256_bytes_is_valid_and_of_257_is_not() {
    assert_eq!(MAX_KEY_LEN, 256);
    assert!(is_valid_key(&"k".repeat(256)));
    assert!(!is_valid_key(&"k".repeat(257)));
    assert!(!is_valid_key(&"k".repeat(10_000)));
}

#[test]
fn key_length_is_counted_in_bytes() {
    assert!(is_valid_key(&"é".repeat(128)));
    assert!(!is_valid_key(&"é".repeat(129)));
    assert!(is_valid_key(&"🦀".repeat(64)));
    assert!(!is_valid_key(&"🦀".repeat(65)));
}

#[test]
fn command_knows_its_key() {
    assert_eq!(Command::Get { key: "a".to_string() }.key(), "a");
    assert_eq!(Command::Put { key: "b".to_string(), value: "v".to_string() }.key(), "b");
    assert_eq!(Command::Delete { key: "c".to_string() }.key(), "c");
}

#[test]
fn errors_are_described_by_kind_and_message() {
    let error = KVStoreError::NetworkError("connection refused".to_string());
    assert_eq!(error.describe(), "Network error: connection refused");
    assert_eq!(error.message(), "connection refused");
    let error = KVStoreError::SerializationError("malformed message".to_string());
    assert_eq!(error.describe(), "Serialization error: malformed message");
    assert_eq!(error.message(), "malformed message");
    let error = KVStoreError::StorageError(String::new());
    assert_eq!(error.describe(), "Storage error: ");
    assert_eq!(error.message(), "");
}

#[test]
fn default_ports() {
    assert_eq!(DEFAULT_COORDINATOR_PORT, 8080);
    assert_eq!(DEFAULT_NODE_PORT_RANGE, 8081..8090);
    assert!(!DEFAULT_NODE_PORT_RANGE.contains(&DEFAULT_COORDINATOR_PORT));
}

#[test]
fn clones_are_equal_to_what_they_were_made_from() {
    let command = Command::Put { key: "k".to_string(), value: "v".to_string() };
    assert_eq!(command.clone(), command);
    assert_eq!(Command::Get { key: "k".to_string() }.clone(), Command::Get { key: "k".to_string() });
    assert_eq!(
        Command::Delete { key: "k".to_string() }.clone(),
        Command::Delete { key: "k".to_string() }
    );
    let responses = vec![
        kvstore::common::Response::Value("v".to_string()),
        kvstore::common::Response::Done,
        kvstore::common::Response::NotFound,
        kvstore::common::Response::Error("m".to_string()),
    ];
    for response in responses {
        assert_eq!(response.clone(), response);
    }
    let errors = vec![
        KVStoreError::NetworkError("n".to_string()),
        KVStoreError::SerializationError("s".to_string()),
        KVStoreError::StorageError("t".to_string()),
    ];
    for error in errors {
        assert_eq!(error.clone(), error);
    }
}
