//! Tests of client message serialization and deserialization.

use microbat::client_messages::{deserialize_client_message, MicrobatClientMessage};
use microbat::messages::MicrobatMessage;
use microbat::static_values::{
    CLIENT_MSG_TYPE_DISCONNECT, CLIENT_MSG_TYPE_HANDSHAKE, CLIENT_MSG_TYPE_QUERY,
    SERVER_MSG_TYPE_HANDSHAKE, SERVER_MSG_TYPE_READY_FOR_QUERY,
};

fn assert_serialisation(
    message_name_for_failures: &str,
    bytes: Vec<u8>,
    expected_message_type: u8,
    expected_length: usize,
    check_payload: Option<&str>,
) {
    assert_eq!(
        bytes[0], expected_message_type,
        "{} did not contain expected message type {} as the first byte. Was: {}",
        message_name_for_failures, expected_message_type, bytes[0]
    );
    let length = u32::from_le_bytes(bytes[1..5].try_into().unwrap()) as usize;
    assert_eq!(length, expected_length, "Expected length did not match.");
    assert_eq!(
        length,
        bytes[5..].len(),
        "{} did not contain exactly length amount of bytes after the length.",
        message_name_for_failures
    );
    if let Some(expected_payload) = check_payload {
        let deserialized = String::from_utf8(bytes[5..].to_vec()).unwrap();
        assert_eq!(
            expected_payload, deserialized,
            "{} did not deserialize as expected.",
            message_name_for_failures
        );
    }
}

#[test]
fn test_client_handshake_deserialization() {
    let handshake_bytes = MicrobatClientMessage::Handshake.as_bytes();
    let length = u32::from_le_bytes(handshake_bytes[1..5].try_into().unwrap()) as usize;
    let deserialized =
        deserialize_client_message(handshake_bytes[0], length, &handshake_bytes[5..]).unwrap();
    assert_eq!(deserialized, MicrobatClientMessage::Handshake);
}

#[test]
fn test_client_disconnect_deserialization() {
    let disconnect_bytes = MicrobatClientMessage::Disconnect.as_bytes();
    let length = u32::from_le_bytes(disconnect_bytes[1..5].try_into().unwrap()) as usize;
    println!("length: {}", length);
    let deserialized =
        deserialize_client_message(disconnect_bytes[0], length, &disconnect_bytes[5..]).unwrap();
    assert_eq!(deserialized, MicrobatClientMessage::Disconnect);
}

#[test]
fn test_client_query_deserialization() {
    let query = "hello world!";
    let query_bytes = MicrobatClientMessage::Query(String::from(query)).as_bytes();
    let length = u32::from_le_bytes(query_bytes[1..5].try_into().unwrap()) as usize;
    let deserialized =
        deserialize_client_message(query_bytes[0], length, &query_bytes[5..]).unwrap();
    assert_eq!(deserialized, MicrobatClientMessage::Query(String::from("hello world!")));
    match deserialized {
        MicrobatClientMessage::Query(deserialized_query) => {
            assert_eq!(deserialized_query, query)
        }
        _ => panic!("This shouldn't happen as deserialized is asserted to be Query"),
    }
}

#[test]
fn test_client_message_serialisation() {
    assert_serialisation(
        "client handshake",
        MicrobatClientMessage::Handshake.as_bytes(),
        CLIENT_MSG_TYPE_HANDSHAKE,
        "hello microbat".len(),
        Some("hello microbat"),
    );
    assert_serialisation(
        "client disconnect",
        MicrobatClientMessage::Disconnect.as_bytes(),
        CLIENT_MSG_TYPE_DISCONNECT,
        "bye and so on".len(),
        Some("bye and so on"),
    );
    assert_serialisation(
        "client query",
        MicrobatClientMessage::Query(String::from("abba")).as_bytes(),
        CLIENT_MSG_TYPE_QUERY,
        4,
        Some("abba"),
    );
    assert_serialisation(
        "client query",
        MicrobatClientMessage::Query(String::from("abba kabba")).as_bytes(),
        CLIENT_MSG_TYPE_QUERY,
        10,
        Some("abba kabba"),
    );
}

#[test]
fn test_invalid_client_deserialization() {
    assert!(deserialize_client_message(b'\0', 0, &[]).is_err());
    assert!(deserialize_client_message(b'h', 0, &[]).is_err());
    assert!(deserialize_client_message(CLIENT_MSG_TYPE_HANDSHAKE, 0, &[b't']).is_err());
    assert!(deserialize_client_message(CLIENT_MSG_TYPE_HANDSHAKE, 5, &[b't']).is_err());
    assert!(deserialize_client_message(CLIENT_MSG_TYPE_QUERY, 2, &[0, 159]).is_err());
}

#[test]
fn client_messages_test_deserialization_fails_if_length_and_bytes_do_not_match() {
    assert!(deserialize_client_message(CLIENT_MSG_TYPE_QUERY, 5, &[b'0', 1]).is_err());
    assert!(deserialize_client_message(CLIENT_MSG_TYPE_QUERY, 5, &[b'0', 10]).is_err());
}

#[test]
fn client_messages_test_deserialization_fails_for_unknown_marker_bytes() {
    assert!(deserialize_client_message(SERVER_MSG_TYPE_READY_FOR_QUERY, 5, &[b'0', 5]).is_err());
    assert!(deserialize_client_message(SERVER_MSG_TYPE_HANDSHAKE, 5, &[b'0', 5]).is_err());
}
