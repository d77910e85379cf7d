//! Tests of server message serialization and deserialization.

use microbat::data::{Column, DataDescription, DataRow, MData, MDataType};
use microbat::messages::MicrobatMessage;
use microbat::server_messages::{deserialize_server_message, MicrobatServerMessage};
use microbat::static_values::{
    CLIENT_MSG_TYPE_DISCONNECT, CLIENT_MSG_TYPE_HANDSHAKE, SERVER_MSG_TYPE_DATA_ROW,
    SERVER_MSG_TYPE_ERROR, SERVER_MSG_TYPE_HANDSHAKE, SERVER_MSG_TYPE_INSERT_RESULT,
    SERVER_MSG_TYPE_READY_FOR_QUERY, SERVER_MSG_TYPE_ROW_DESCRIPTION,
};

fn assert_serialisation(
    message_name_for_failures: &str,
    bytes: Vec<u8>,
    expected_message_type: u8,
    expected_length: usize,
    check_payload: Option<&str>,
) {
    assert_eq!(
        bytes[0], expected_message_type,
        "{} did not contain expected message type {} as the first byte. Was: {}",
        message_name_for_failures, expected_message_type, bytes[0]
    );
    let length = u32::from_le_bytes(bytes[1..5].try_into().unwrap()) as usize;
    assert_eq!(length, expected_length, "Expected length did not match.");
    assert_eq!(
        length,
        bytes[5..].len(),
        "{} did not contain exactly length amount of bytes after the length.",
        message_name_for_failures
    );
    if let Some(expected_payload) = check_payload {
        let deserialized = String::from_utf8(bytes[5..].to_vec()).unwrap();
        assert_eq!(
            expected_payload, deserialized,
            "{} did not deserialize as expected.",
            message_name_for_failures
        );
    }
}

#[test]
fn test_server_message_serialisation() {
    assert_serialisation(
        "server handshake",
        MicrobatServerMessage::Handshake.as_bytes(),
        SERVER_MSG_TYPE_HANDSHAKE,
        "hello client".len(),
        Some("hello client"),
    );
    assert_serialisation(
        "server ready",
        MicrobatServerMessage::Ready.as_bytes(),
        SERVER_MSG_TYPE_READY_FOR_QUERY,
        "shoot".len(),
        Some("shoot"),
    );
    assert_serialisation(
        "server error",
        MicrobatServerMessage::Error(String::from("error")).as_bytes(),
        SERVER_MSG_TYPE_ERROR,
        5,
        Some("error"),
    );
    assert_serialisation(
        "server row description",
        MicrobatServerMessage::DataDescription(DataDescription {
            columns: vec![Column {
                name: String::from("foo"),
                data_type: MDataType::Varchar,
            }],
        })
        .as_bytes(),
        SERVER_MSG_TYPE_ROW_DESCRIPTION,
        7, // We just know this expected size of 7 bytes
        None,
    );
    assert_serialisation(
        "server row description",
        MicrobatServerMessage::DataRow(DataRow {
            columns: vec![MData::Varchar(String::from("foo"))],
        })
        .as_bytes(),
        SERVER_MSG_TYPE_DATA_ROW,
        8, // We just know this..
        None,
    );
    assert_serialisation(
        "server row description with null",
        MicrobatServerMessage::DataRow(DataRow {
            columns: vec![MData::Null, MData::Varchar(String::from("foo"))],
        })
        .as_bytes(),
        SERVER_MSG_TYPE_DATA_ROW,
        13, // We just know this..
        None,
    );
    assert_serialisation(
        "Insert result",
        MicrobatServerMessage::InsertResult(1).as_bytes(),
        SERVER_MSG_TYPE_INSERT_RESULT,
        4,
        None,
    )
}

#[test]
fn test_server_handshake_deserialisation() {
    let handshake_bytes = MicrobatServerMessage::Handshake.as_bytes();
    let length = u32::from_le_bytes(handshake_bytes[1..5].try_into().unwrap()) as usize;
    let deserialized =
        deserialize_server_message(handshake_bytes[0], length, &handshake_bytes[5..]).unwrap();
    assert_eq!(deserialized, MicrobatServerMessage::Handshake);
}

#[test]
fn test_server_datarow_deserialization_varchar() {
    let data_row = DataRow {
        columns: vec![MData::Varchar(String::from("hello"))],
    };
    let message_bytes = MicrobatServerMessage::DataRow(data_row).as_bytes();
    let length = u32::from_le_bytes(message_bytes[1..5].try_into().unwrap()) as usize;
    let deserialized =
        deserialize_server_message(message_bytes[0], length, &message_bytes[5..]).unwrap();
    let expected_data_row = DataRow {
        columns: vec![MData::Varchar(String::from("hello"))],
    };
    assert_eq!(deserialized, MicrobatServerMessage::DataRow(expected_data_row));
}

#[test]
fn test_server_datarow_deserialization_integer() {
    let data_row = DataRow {
        columns: vec![MData::Integer(83728)],
    };
    let message_bytes = MicrobatServerMessage::DataRow(data_row).as_bytes();
    let length = u32::from_le_bytes(message_bytes[1..5].try_into().unwrap()) as usize;
    let deserialized =
        deserialize_server_message(message_bytes[0], length, &message_bytes[5..]).unwrap();
    let expected_data_row = DataRow {
        columns: vec![MData::Integer(83728)],
    };
    assert_eq!(deserialized, MicrobatServerMessage::DataRow(expected_data_row));
}

#[test]
fn test_invalid_server_deserialization() {
    assert!(deserialize_server_message(b'\0', 0, &[]).is_err());
    assert!(deserialize_server_message(b'h', 0, &[]).is_err());
    assert!(deserialize_server_message(SERVER_MSG_TYPE_HANDSHAKE, 0, &[b't']).is_err());
    assert!(deserialize_server_message(SERVER_MSG_TYPE_HANDSHAKE, 5, &[b't']).is_err());
    assert!(deserialize_server_message(SERVER_MSG_TYPE_ERROR, 2, &[0, 159]).is_err());
}

#[test]
fn server_messages_test_deserialization_fails_if_length_and_bytes_do_not_match() {
    assert!(deserialize_server_message(SERVER_MSG_TYPE_HANDSHAKE, 5, &[b'0', 1]).is_err());
    assert!(deserialize_server_message(SERVER_MSG_TYPE_HANDSHAKE, 5, &[b'0', 10]).is_err());
}

#[test]
fn server_messages_test_deserialization_fails_for_unknown_marker_bytes() {
    assert!(deserialize_server_message(CLIENT_MSG_TYPE_HANDSHAKE, 5, &[b'0', 5]).is_err());
    assert!(deserialize_server_message(CLIENT_MSG_TYPE_DISCONNECT, 5, &[b'0', 5]).is_err());
}

#[test]
fn test_server_description_round_trips() {
    let message = MicrobatServerMessage::DataDescription(DataDescription {
        columns: vec![
            Column { name: String::from("id"), data_type: MDataType::Integer },
            Column { name: String::from("name"), data_type: MDataType::Integer },
        ],
    });
    let bytes = message.as_bytes();
    let length = u32::from_le_bytes(bytes[1..5].try_into().unwrap()) as usize;
    let deserialized = deserialize_server_message(bytes[0], length, &bytes[5..]).unwrap();
    assert_eq!(deserialized, message);
}

#[test]
fn test_server_error_round_trips() {
    let message = MicrobatServerMessage::Error(String::from("No such table: foo"));
    let bytes = message.as_bytes();
    let length = u32::from_le_bytes(bytes[1..5].try_into().unwrap()) as usize;
    let deserialized = deserialize_server_message(bytes[0], length, &bytes[5..]).unwrap();
    assert_eq!(deserialized, message);
}

#[test]
fn test_insert_result_round_trips() {
    let message = MicrobatServerMessage::InsertResult(70000);
    let bytes = message.as_bytes();
    let length = u32::from_le_bytes(bytes[1..5].try_into().unwrap()) as usize;
    let deserialized = deserialize_server_message(bytes[0], length, &bytes[5..]).unwrap();
    assert_eq!(deserialized, message);
}

#[test]
fn test_truncated_data_row_payload_fails() {
    // A data row whose declared value length runs past the payload.
    let payload: Vec<u8> = vec![b'v', 10, 0, 0, 0, b'x'];
    assert!(deserialize_server_message(SERVER_MSG_TYPE_DATA_ROW, payload.len(), &payload).is_err());
}

#[test]
fn test_truncated_row_description_payload_fails() {
    let payload: Vec<u8> = vec![3, 0, 0];
    assert!(
        deserialize_server_message(SERVER_MSG_TYPE_ROW_DESCRIPTION, payload.len(), &payload)
            .is_err()
    );
}
