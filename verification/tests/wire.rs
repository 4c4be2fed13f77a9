use kvstore::common::{Command, KVStoreError, Response};
use kvstore::wire::{decode_command, decode_response, encode_command, encode_response};

fn text_field(text: &str) -> Vec<u8> {
    let mut bytes = (text.len() as u64).to_le_bytes().to_vec();
    bytes.extend_from_slice(text.as_bytes());
    bytes
}

fn malformed() -> KVStoreError {
    KVStoreError::SerializationError("malformed message".to_string())
}

#[test]
fn get_is_encoded_as_kind_and_key() {
    let bytes = encode_command(&Command::Get { key: "a".to_string() });
    assert_eq!(bytes, vec![0x01, 1, 0, 0, 0, 0, 0, 0, 0, b'a']);
}

#[test]
fn put_is_encoded_as_kind_key_and_value() {
    let bytes = encode_command(&Command::Put { key: "k".to_string(), value: "vw".to_string() });
    assert_eq!(
        bytes,
        vec![0x02, 1, 0, 0, 0, 0, 0, 0, 0, b'k', 2, 0, 0, 0, 0, 0, 0, 0, b'v', b'w']
    );
}

#[test]
fn delete_is_encoded_as_kind_and_key() {
    let bytes = encode_command(&Command::Delete { key: "key1".to_string() });
    let mut expected = vec![0x03];
    expected.extend(text_field("key1"));
    assert_eq!(bytes, expected);
}

#[test]
fn responses_are_encoded_as_kind_and_text() {
    let mut value = vec![0x11];
    value.extend(text_field("value1"));
    assert_eq!(encode_response(&Response::Value("value1".to_string())), value);
    assert_eq!(encode_response(&Response::Done), vec![0x12]);
    assert_eq!(encode_response(&Response::NotFound), vec![0x13]);
    let mut error = vec![0x14];
    error.extend(text_field("invalid key"));
    assert_eq!(encode_response(&Response::Error("invalid key".to_string())), error);
}

#[test]
fn length_is_counted_in_bytes_of_utf8() {
    let bytes = encode_command(&Command::Get { key: "é".to_string() });
    assert_eq!(bytes, vec![0x01, 2, 0, 0, 0, 0, 0, 0, 0, 0xc3, 0xa9]);
}

#[test]
fn every_command_survives_a_round_trip() {
    let commands = vec![
        Command::Get { key: "key1".to_string() },
        Command::Put { key: "key1".to_string(), value: "value1".to_string() },
        Command::Delete { key: "key1".to_string() },
        Command::Get { key: String::new() },
        Command::Put { key: String::new(), value: String::new() },
        Command::Put { key: "ключ".to_string(), value: "值\n\"\\\u{0}".to_string() },
        Command::Delete { key: "x".repeat(1000) },
    ];
    for command in commands {
        assert_eq!(decode_command(&encode_command(&command)), Ok(command));
    }
}

#[test]
fn every_response_survives_a_round_trip() {
    let responses = vec![
        Response::Value("value1".to_string()),
        Response::Value(String::new()),
        Response::Done,
        Response::NotFound,
        Response::Error("invalid key".to_string()),
        Response::Error("🦀".to_string()),
    ];
    for response in responses {
        assert_eq!(decode_response(&encode_response(&response)), Ok(response));
    }
}

#[test]
fn what_decodes_encodes_back_to_the_same_bytes() {
    let mut bytes = vec![0x02];
    bytes.extend(text_field("a"));
    bytes.extend(text_field("b"));
    let command = decode_command(&bytes).unwrap();
    assert_eq!(command, Command::Put { key: "a".to_string(), value: "b".to_string() });
    assert_eq!(encode_command(&command), bytes);
}

#[test]
fn no_bytes_are_no_command() {
    assert_eq!(decode_command(&[]), Err(malformed()));
    assert_eq!(decode_response(&[]), Err(malformed()));
}

#[test]
fn unknown_kind_is_refused() {
    let mut bytes = vec![0x00];
    bytes.extend(text_field("a"));
    assert_eq!(decode_command(&bytes), Err(malformed()));
    bytes[0] = 0x04;
    assert_eq!(decode_command(&bytes), Err(malformed()));
    bytes[0] = 0xff;
    assert_eq!(decode_command(&bytes), Err(malformed()));
    assert_eq!(decode_response(&bytes), Err(malformed()));
    assert_eq!(decode_response(&[0x15]), Err(malformed()));
}

#[test]
fn a_response_is_no_command_and_a_command_no_response() {
    let response = encode_response(&Response::Value("a".to_string()));
    assert_eq!(decode_command(&response), Err(malformed()));
    let command = encode_command(&Command::Get { key: "a".to_string() });
    assert_eq!(decode_response(&command), Err(malformed()));
}

#[test]
fn truncated_messages_are_refused() {
    let whole = encode_command(&Command::Put { key: "key".to_string(), value: "value".to_string() });
    for len in 0..whole.len() {
        assert_eq!(decode_command(&whole[..len]), Err(malformed()), "prefix of {} bytes", len);
    }
    let whole = encode_response(&Response::Error("message".to_string()));
    for len in 0..whole.len() {
        assert_eq!(decode_response(&whole[..len]), Err(malformed()), "prefix of {} bytes", len);
    }
}

#[test]
fn bytes_after_the_message_are_refused() {
    let mut bytes = encode_command(&Command::Get { key: "a".to_string() });
    bytes.push(0);
    assert_eq!(decode_command(&bytes), Err(malformed()));
    let mut bytes = encode_command(&Command::Put { key: "a".to_string(), value: "b".to_string() });
    bytes.push(0);
    assert_eq!(decode_command(&bytes), Err(malformed()));
    assert_eq!(decode_response(&[0x12, 0]), Err(malformed()));
    assert_eq!(decode_response(&[0x13, 0]), Err(malformed()));
    let mut bytes = encode_response(&Response::Value("a".to_string()));
    bytes.extend(text_field("b"));
    assert_eq!(decode_response(&bytes), Err(malformed()));
}

#[test]
fn a_put_without_value_is_refused() {
    let mut bytes = vec![0x02];
    bytes.extend(text_field("a"));
    assert_eq!(decode_command(&bytes), Err(malformed()));
}

#[test]
fn a_length_beyond_the_message_is_refused() {
    let bytes = vec![0x01, 2, 0, 0, 0, 0, 0, 0, 0, b'a'];
    assert_eq!(decode_command(&bytes), Err(malformed()));
    let bytes = vec![0x01, 0xff, 0xff, 0xff, 0xff, 0xff, 0xff, 0xff, 0xff, b'a'];
    assert_eq!(decode_command(&bytes), Err(malformed()));
    let bytes = vec![0x11, 0, 0, 0, 0, 0, 0, 0, 0x80, b'a'];
    assert_eq!(decode_response(&bytes), Err(malformed()));
}

#[test]
fn text_that_is_not_utf8_is_refused() {
    let bytes = vec![0x01, 2, 0, 0, 0, 0, 0, 0, 0, 0xc3, 0x28];
    assert_eq!(decode_command(&bytes), Err(malformed()));
    let bytes = vec![0x01, 1, 0, 0, 0, 0, 0, 0, 0, 0xff];
    assert_eq!(decode_command(&bytes), Err(malformed()));
    let bytes = vec![0x11, 3, 0, 0, 0, 0, 0, 0, 0, 0xed, 0xa0, 0x80];
    assert_eq!(decode_response(&bytes), Err(malformed()));
    let bytes = vec![0x02, 1, 0, 0, 0, 0, 0, 0, 0, b'k', 1, 0, 0, 0, 0, 0, 0, 0, 0x80];
    assert_eq!(decode_command(&bytes), Err(malformed()));
}

#[test]
fn text_is_decoded_from_its_utf8_form() {
    let bytes = vec![0x11, 4, 0, 0, 0, 0, 0, 0, 0, 0xf0, 0x9f, 0xa6, 0x80];
    assert_eq!(decode_response(&bytes), Ok(Response::Value("🦀".to_string())));
    let bytes = vec![0x03, 3, 0, 0, 0, 0, 0, 0, 0, 0xe2, 0x82, 0xac];
    assert_eq!(decode_command(&bytes), Ok(Command::Delete { key: "€".to_string() }));
}

#[test]
fn arbitrary_bytes_never_crash_the_decoders() {
    let mut state: u32 = 0x2545_f491;
    for _ in 0..2000 {
        let mut bytes = Vec::new();
        state ^= state << 13;
        state ^= state >> 17;
        state ^= state << 5;
        let len = (state % 40) as usize;
        for _ in 0..len {
            state ^= state << 13;
            state ^= state >> 17;
            state ^= state << 5;
            bytes.push((state % 32) as u8);
        }
        match decode_command(&bytes) {
            Ok(command) => assert_eq!(encode_command(&command), bytes),
            Err(error) => assert_eq!(error, malformed()),
        }
        match decode_response(&bytes) {
            Ok(response) => assert_eq!(encode_response(&response), bytes),
            Err(error) => assert_eq!(error, malformed()),
        }
    }
}
