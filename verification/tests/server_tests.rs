//! End-to-end tests of statement execution and the per-connection protocol:
//! the handshake exchange, query responses with their ready barriers, and
//! error propagation.

use microbat::client::{read_data_rows_step, read_handshake, read_ready, DataRowsStep};
use microbat::client_messages::MicrobatClientMessage;
use microbat::connect::{initial_catalog, respond};
use microbat::data::{Column, MData, MDataType};
use microbat::db::{execute_sql, QueryResult};
use microbat::manager::InMemoryManager;
use microbat::messages::MicrobatMessage;
use microbat::server_messages::MicrobatServerMessage;

fn people_catalog() -> InMemoryManager {
    let mut manager = InMemoryManager::new();
    manager
        .create_table(
            String::from("PEOPLE"),
            vec![
                Column::new(String::from("id"), MDataType::Integer),
                Column::new(String::from("name"), MDataType::Varchar),
            ],
        )
        .unwrap();
    manager
        .insert("PEOPLE", vec![MData::Integer(1), MData::Varchar(String::from("Juho"))])
        .unwrap();
    manager
        .insert("PEOPLE", vec![MData::Integer(2), MData::Varchar(String::from("Simo"))])
        .unwrap();
    manager
        .create_table(
            String::from("DEPARTMENTS"),
            vec![Column::new(String::from("id_dep"), MDataType::Integer)],
        )
        .unwrap();
    manager
}

#[test]
fn test_projection_without_from_evaluates_once() {
    let manager = InMemoryManager::new();
    let result = execute_sql(String::from("select 1 + (5 - 2);"), &manager).unwrap();
    let QueryResult::Table(schema, rows) = result;
    assert_eq!(schema.len(), 1);
    assert_eq!(rows.len(), 1);
    assert_eq!(rows[0].columns, vec![MData::Integer(4)]);
}

#[test]
fn test_select_from_table() {
    let manager = people_catalog();
    let result = execute_sql(String::from("select id, name from PEOPLE"), &manager).unwrap();
    let QueryResult::Table(schema, rows) = result;
    assert_eq!(schema.columns.len(), 2);
    assert_eq!(schema.columns[0].name, "ID");
    assert_eq!(schema.columns[0].data_type, MDataType::Integer);
    assert_eq!(schema.columns[1].name, "NAME");
    assert_eq!(schema.columns[1].data_type, MDataType::Varchar);
    assert_eq!(rows.len(), 2);
    assert_eq!(rows[0].columns, vec![MData::Integer(1), MData::Varchar(String::from("Juho"))]);
    assert_eq!(rows[1].columns, vec![MData::Integer(2), MData::Varchar(String::from("Simo"))]);
}

#[test]
fn test_show_tables_lists_catalog_order() {
    let manager = people_catalog();
    let result = execute_sql(String::from("SHOW TABLES;"), &manager).unwrap();
    let QueryResult::Table(schema, rows) = result;
    assert_eq!(schema.columns.len(), 1);
    assert_eq!(schema.columns[0].name, "table");
    assert_eq!(schema.columns[0].data_type, MDataType::Varchar);
    assert_eq!(rows.len(), 2);
    assert_eq!(rows[0].columns, vec![MData::Varchar(String::from("PEOPLE"))]);
    assert_eq!(rows[1].columns, vec![MData::Varchar(String::from("DEPARTMENTS"))]);
}

#[test]
fn test_missing_column_error_text() {
    let manager = people_catalog();
    let err = execute_sql(String::from("select bogus from PEOPLE"), &manager).unwrap_err();
    assert_eq!(err.msg, "No such column BOGUS");
}

#[test]
fn test_handshake_exchange() {
    let manager = initial_catalog();
    let (frames, keep) = respond(&manager, MicrobatClientMessage::Handshake);
    assert!(keep);
    assert_eq!(frames.len(), 2);
    assert_eq!(frames[0], MicrobatServerMessage::Handshake);
    assert_eq!(frames[1], MicrobatServerMessage::Ready);

    // The exact bytes of the exchange.
    let client_bytes = MicrobatClientMessage::Handshake.as_bytes();
    let mut expected = vec![b'a', 14, 0, 0, 0];
    expected.extend_from_slice("hello microbat".as_bytes());
    assert_eq!(client_bytes, expected);

    let server_bytes = frames[0].as_bytes();
    assert_eq!(&server_bytes[0..5], &[b'b', 12, 0, 0, 0]);
    let ready_bytes = frames[1].as_bytes();
    assert_eq!(&ready_bytes[0..5], &[b'x', 5, 0, 0, 0]);
}

#[test]
fn test_disconnect_closes_without_reply() {
    let manager = initial_catalog();
    let (frames, keep) = respond(&manager, MicrobatClientMessage::Disconnect);
    assert!(!keep);
    assert!(frames.is_empty());
}

#[test]
fn test_query_response_ends_with_exactly_one_ready() {
    let manager = people_catalog();
    for query in ["select id from PEOPLE", "select bogus from PEOPLE", "nonsense", "SHOW TABLES;"]
    {
        let (frames, keep) = respond(&manager, MicrobatClientMessage::Query(query.to_string()));
        assert!(keep);
        let ready_count = frames
            .iter()
            .filter(|f| matches!(f, MicrobatServerMessage::Ready))
            .count();
        assert_eq!(ready_count, 1, "query {} did not produce exactly one READY", query);
        assert_eq!(frames.last().unwrap(), &MicrobatServerMessage::Ready);
    }
}

#[test]
fn test_show_tables_response_frames() {
    let manager = people_catalog();
    let (frames, _) = respond(&manager, MicrobatClientMessage::Query(String::from("SHOW TABLES;")));
    assert_eq!(frames.len(), 4);
    match &frames[0] {
        MicrobatServerMessage::DataDescription(description) => {
            assert_eq!(description.columns.len(), 1);
            assert_eq!(description.columns[0].name, "table");
            assert_eq!(description.columns[0].data_type, MDataType::Varchar);
        }
        other => panic!("expected a data description, got {:?}", other),
    }
    match &frames[1] {
        MicrobatServerMessage::DataRow(row) => {
            assert_eq!(row.columns, vec![MData::Varchar(String::from("PEOPLE"))]);
        }
        other => panic!("expected a data row, got {:?}", other),
    }
    match &frames[2] {
        MicrobatServerMessage::DataRow(row) => {
            assert_eq!(row.columns, vec![MData::Varchar(String::from("DEPARTMENTS"))]);
        }
        other => panic!("expected a data row, got {:?}", other),
    }
    assert_eq!(frames[3], MicrobatServerMessage::Ready);
}

#[test]
fn test_error_path_keeps_connection_usable() {
    let manager = people_catalog();
    let (frames, keep) =
        respond(&manager, MicrobatClientMessage::Query(String::from("select bogus from PEOPLE")));
    assert!(keep);
    assert_eq!(frames.len(), 2);
    assert_eq!(frames[0], MicrobatServerMessage::Error(String::from("No such column BOGUS")));
    assert_eq!(frames[1], MicrobatServerMessage::Ready);

    // The connection stays usable: the next query is answered normally.
    let (frames, keep) =
        respond(&manager, MicrobatClientMessage::Query(String::from("select id from PEOPLE")));
    assert!(keep);
    assert_eq!(frames.len(), 4);
    assert_eq!(frames[3], MicrobatServerMessage::Ready);
}

#[test]
fn test_initial_catalog_answers_people_query() {
    let manager = initial_catalog();
    let (frames, _) = respond(
        &manager,
        MicrobatClientMessage::Query(String::from("select id, name from PEOPLE")),
    );
    assert_eq!(frames.len(), 7);
    match &frames[1] {
        MicrobatServerMessage::DataRow(row) => {
            assert_eq!(
                row.columns,
                vec![MData::Integer(1), MData::Varchar(String::from("Juho"))]
            );
        }
        other => panic!("expected a data row, got {:?}", other),
    }
}

#[test]
fn test_client_side_message_classification() {
    assert!(read_handshake(MicrobatServerMessage::Handshake).is_ok());
    assert!(read_handshake(MicrobatServerMessage::Ready).is_err());
    assert_eq!(
        read_handshake(MicrobatServerMessage::Error(String::from("boom"))).unwrap_err().msg,
        "boom"
    );
    assert!(read_ready(MicrobatServerMessage::Ready).is_ok());
    assert!(read_ready(MicrobatServerMessage::Handshake).is_err());
    match read_data_rows_step(MicrobatServerMessage::DataRow(microbat::data::DataRow {
        columns: vec![MData::Integer(5)],
    })) {
        DataRowsStep::Row(values) => assert_eq!(values, vec![MData::Integer(5)]),
        _ => panic!("expected a row"),
    }
    assert!(matches!(read_data_rows_step(MicrobatServerMessage::Ready), DataRowsStep::Finished));
    assert!(matches!(
        read_data_rows_step(MicrobatServerMessage::Handshake),
        DataRowsStep::Failed(_)
    ));
}

#[test]
fn test_full_frame_round_trip_over_bytes() {
    // Serialize a whole response, then read it back frame by frame as the
    // client would: type byte, little-endian length, payload.
    let manager = people_catalog();
    let (frames, _) =
        respond(&manager, MicrobatClientMessage::Query(String::from("select name from PEOPLE")));
    let mut wire: Vec<u8> = vec![];
    for frame in &frames {
        wire.extend_from_slice(&frame.as_bytes());
    }
    let mut cursor = 0;
    let mut decoded = vec![];
    while cursor < wire.len() {
        let message_type = wire[cursor];
        let length =
            u32::from_le_bytes(wire[cursor + 1..cursor + 5].try_into().unwrap()) as usize;
        let payload = &wire[cursor + 5..cursor + 5 + length];
        decoded.push(
            microbat::server_messages::deserialize_server_message(message_type, length, payload)
                .unwrap(),
        );
        cursor += 5 + length;
    }
    assert_eq!(decoded.len(), frames.len());
    assert_eq!(decoded.last().unwrap(), &MicrobatServerMessage::Ready);
    match &decoded[1] {
        MicrobatServerMessage::DataRow(row) => {
            assert_eq!(row.columns, vec![MData::Varchar(String::from("Juho"))]);
        }
        other => panic!("expected a data row, got {:?}", other),
    }
}

#[test]
fn test_client_message_round_trip() {
    for message in [
        MicrobatClientMessage::Handshake,
        MicrobatClientMessage::Disconnect,
        MicrobatClientMessage::Query(String::from("select 1;")),
    ] {
        let bytes = message.as_bytes();
        let length = u32::from_le_bytes(bytes[1..5].try_into().unwrap()) as usize;
        let decoded =
            microbat::client_messages::deserialize_client_message(bytes[0], length, &bytes[5..])
                .unwrap();
        assert_eq!(decoded, message);
    }
}

#[test]
fn test_frame_header_rejects_hangup() {
    assert!(microbat::messages::frame_header(0, 1, 0, 0, 0).is_err());
    let (message_type, length) = microbat::messages::frame_header(b'q', 5, 1, 0, 0).unwrap();
    assert_eq!(message_type, b'q');
    assert_eq!(length, 5 + 256);
}
