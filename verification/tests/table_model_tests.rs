//! Tests of schemas and relation tables.

use microbat::data::{Column, MData, MDataType};
use microbat::table_model::{RelationTable, TableSchema};

#[test]
fn test_empty_schema_errors() {
    let error = TableSchema::new(vec![]).unwrap_err();
    assert_eq!(error.msg, "Can't build empty schema")
}

#[test]
fn test_building_ok_schema() {
    let schema = TableSchema::new(vec![Column::new(String::from("foo"), MDataType::Integer)])
        .unwrap();
    assert!(schema.matches_at(0, MDataType::Integer));
    assert!(!schema.matches_at(1, MDataType::Varchar));
}

#[test]
fn test_filling_relation() {
    let schema = TableSchema::new(vec![Column::new(String::from("foo"), MDataType::Integer)])
        .unwrap();
    let mut relation = RelationTable::new(schema);

    assert_eq!(relation.len(), 0);
    relation.push_row(vec![MData::Integer(1)]).unwrap();
    assert_eq!(relation.len(), 1);
    relation.push_row(vec![MData::Integer(2)]).unwrap();
    assert_eq!(relation.len(), 2);
}

#[test]
fn test_adding_unmatching_data_fails() {
    let schema = TableSchema::new(vec![Column::new(String::from("foo"), MDataType::Integer)])
        .unwrap();
    let mut relation = RelationTable::new(schema);

    assert!(relation.push_row(vec![]).is_err(), "Expecting putting empty row fails");
    assert!(
        relation.push_row(vec![MData::Integer(1), MData::Integer(2)]).is_err(),
        "Expecting putting too many values to fail but it succeeded"
    );
    assert!(
        relation.push_row(vec![MData::Varchar(String::from("Hello"))]).is_err(),
        "Expected pushing varchar to int fail but it succeeded"
    );
}

#[test]
fn test_joining_schemas() {
    let left = TableSchema::new(vec![Column::new(String::from("a"), MDataType::Integer)]).unwrap();
    let right = TableSchema::new(vec![Column::new(String::from("b"), MDataType::Varchar)])
        .unwrap();
    let joined = left.join(right).unwrap();
    assert_eq!(joined.len(), 2);
    assert!(joined.matches_at(0, MDataType::Integer));
    assert!(joined.matches_at(1, MDataType::Varchar));
}
