//! Tests of the in-memory catalog: lookups, creation, inserts and fetches.

use microbat::data::{Column, MData, MDataType};
use microbat::manager::InMemoryManager;

#[test]
fn test_no_such_table() {
    let manager = InMemoryManager::new();
    let res = manager.get_table_meta("foo");
    assert!(res.is_err());
    assert_eq!(res.unwrap_err().msg, "No such table: foo");
}

#[test]
fn test_fetching_table() {
    let mut manager = InMemoryManager::new();

    let create_res = manager.create_table(
        String::from("foo"),
        vec![Column::new(String::from("id"), MDataType::Integer)],
    );
    assert!(create_res.is_ok());

    let res = manager.get_table_meta("foo");
    assert!(res.is_ok());
    let table_metadata = res.unwrap();
    assert_eq!(table_metadata.name, "foo");
    assert_eq!(table_metadata.schema.len(), 1);
}

#[test]
fn test_can_not_create_existing_table() {
    let mut manager = InMemoryManager::new();

    let create_res = manager.create_table(
        String::from("foo"),
        vec![Column::new(String::from("id"), MDataType::Integer)],
    );
    assert!(create_res.is_ok());

    let fails = manager.create_table(
        String::from("foo"),
        vec![Column::new(String::from("id"), MDataType::Integer)],
    );
    assert!(fails.is_err());
    assert_eq!(fails.unwrap_err().msg, "Table already exists: foo");
}

#[test]
fn test_insert() {
    let mut manager = InMemoryManager::new();

    let create_res = manager.create_table(
        String::from("foo"),
        vec![Column::new(String::from("id"), MDataType::Integer)],
    );
    assert!(create_res.is_ok());

    let insert_result = manager.insert("foo", vec![MData::Integer(1)]);
    assert!(insert_result.is_ok());
    let table_data = manager.fetch("foo").unwrap();
    assert_eq!(table_data.len(), 1);
}

#[test]
fn test_insert_when_schema_does_not_match() {
    let mut manager = InMemoryManager::new();

    let create_res = manager.create_table(
        String::from("foo"),
        vec![Column::new(String::from("id"), MDataType::Integer)],
    );
    assert!(create_res.is_ok());

    let insert_result = manager.insert("foo", vec![MData::Varchar(String::from("hello"))]);
    assert!(insert_result.is_err());
    assert_eq!(insert_result.unwrap_err().msg, "Can't put this here");
}

#[test]
fn test_inserts_keep_order_and_count() {
    let mut manager = InMemoryManager::new();
    manager
        .create_table(String::from("t"), vec![Column::new(String::from("n"), MDataType::Integer)])
        .unwrap();
    for i in 0..5 {
        manager.insert("t", vec![MData::Integer(i)]).unwrap();
    }
    let rows = manager.fetch("t").unwrap();
    assert_eq!(rows.len(), 5);
    for (i, row) in rows.iter().enumerate() {
        assert_eq!(row[0], MData::Integer(i as i32));
    }
}

#[test]
fn test_failed_insert_changes_nothing() {
    let mut manager = InMemoryManager::new();
    manager
        .create_table(String::from("t"), vec![Column::new(String::from("n"), MDataType::Integer)])
        .unwrap();
    manager.insert("t", vec![MData::Integer(7)]).unwrap();
    assert!(manager.insert("t", vec![MData::Null]).is_err());
    assert!(manager.insert("t", vec![]).is_err());
    assert!(manager.insert("missing", vec![MData::Integer(1)]).is_err());
    let rows = manager.fetch("t").unwrap();
    assert_eq!(rows.len(), 1);
    assert_eq!(rows[0], vec![MData::Integer(7)]);
}

#[test]
fn test_get_tables_in_creation_order() {
    let mut manager = InMemoryManager::new();
    manager
        .create_table(String::from("B"), vec![Column::new(String::from("x"), MDataType::Integer)])
        .unwrap();
    manager
        .create_table(String::from("A"), vec![Column::new(String::from("y"), MDataType::Varchar)])
        .unwrap();
    let names = manager.get_tables().unwrap();
    assert_eq!(names, vec![String::from("B"), String::from("A")]);
}
