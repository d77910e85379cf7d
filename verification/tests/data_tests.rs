//! Tests of the value model: type tags, byte encodings, and value round
//! trips over the wire.

use microbat::data::{deserialize_data_column, MData};
use microbat::static_values::{TYPE_BYTE_INTEGER, TYPE_BYTE_NULL, TYPE_BYTE_VARCHAR};

#[test]
fn mod_test_type_bytes() {
    assert_eq!(MData::Varchar(String::from("")).type_byte(), TYPE_BYTE_VARCHAR);
    assert_eq!(MData::Varchar(String::from("foo")).type_byte(), TYPE_BYTE_VARCHAR);
    assert_eq!(MData::Integer(1).type_byte(), TYPE_BYTE_INTEGER);
}

#[test]
fn mod_test_bytes() {
    assert_eq!(MData::Null.bytes().len(), 0);
    assert_eq!(MData::Varchar(String::from("")).bytes().len(), 0);
    assert_eq!(MData::Varchar(String::from("foo")).bytes().len(), 3);
    assert_eq!(MData::Integer(1).bytes().len(), 4);
    assert_eq!(MData::Integer(5).bytes().len(), 4);
}

#[test]
fn mod_test_serialize_and_deserialize_null() {
    let bytes = MData::Null.bytes();
    let deserialized = deserialize_data_column(TYPE_BYTE_NULL, &bytes);
    assert!(deserialized.is_ok());
    if let MData::Null = deserialized.unwrap() {
    } else {
        panic!("Null deserialized to something else than null");
    }
}

#[test]
fn mod_test_serialize_and_deserialize_varchar() {
    let value = "abba";
    let bytes = MData::Varchar(String::from(value)).bytes();
    let deserialized = deserialize_data_column(TYPE_BYTE_VARCHAR, &bytes);
    assert!(deserialized.is_ok());
    if let MData::Varchar(des_value) = deserialized.unwrap() {
        assert_eq!(des_value, value);
    } else {
        panic!("Varchar deserialized to something else than varchar");
    }
}

#[test]
fn mod_test_serialize_and_deserialize_integer() {
    let value = 123;
    let bytes = MData::Integer(value).bytes();
    let deserialized = deserialize_data_column(TYPE_BYTE_INTEGER, &bytes);
    assert!(deserialized.is_ok());
    if let MData::Integer(des_value) = deserialized.unwrap() {
        assert_eq!(des_value, value);
    } else {
        panic!("Integer deserialized to something else than varchar");
    }
}

#[test]
fn data_representation_test_type_bytes() {
    assert_eq!(MData::Varchar(String::from("")).type_byte(), TYPE_BYTE_VARCHAR);
    assert_eq!(MData::Varchar(String::from("foo")).type_byte(), TYPE_BYTE_VARCHAR);
    assert_eq!(MData::Integer(1).type_byte(), TYPE_BYTE_INTEGER);
}

#[test]
fn data_representation_test_bytes() {
    assert_eq!(MData::Null.bytes().len(), 0);
    assert_eq!(MData::Varchar(String::from("")).bytes().len(), 0);
    assert_eq!(MData::Varchar(String::from("foo")).bytes().len(), 3);
    assert_eq!(MData::Integer(1).bytes().len(), 4);
    assert_eq!(MData::Integer(5).bytes().len(), 4);
}

#[test]
fn data_representation_test_serialize_and_deserialize_null() {
    let bytes = MData::Null.bytes();
    let deserialized = deserialize_data_column(TYPE_BYTE_NULL, &bytes);
    assert!(deserialized.is_ok());
    if let MData::Null = deserialized.unwrap() {
    } else {
        panic!("Null deserialized to something else than null");
    }
}

#[test]
fn data_representation_test_serialize_and_deserialize_varchar() {
    let value = "abba";
    let bytes = MData::Varchar(String::from(value)).bytes();
    let deserialized = deserialize_data_column(TYPE_BYTE_VARCHAR, &bytes);
    assert!(deserialized.is_ok());
    if let MData::Varchar(des_value) = deserialized.unwrap() {
        assert_eq!(des_value, value);
    } else {
        panic!("Varchar deserialized to something else than varchar");
    }
}

#[test]
fn data_representation_test_serialize_and_deserialize_integer() {
    let value = 123;
    let bytes = MData::Integer(value).bytes();
    let deserialized = deserialize_data_column(TYPE_BYTE_INTEGER, &bytes);
    assert!(deserialized.is_ok());
    if let MData::Integer(des_value) = deserialized.unwrap() {
        assert_eq!(des_value, value);
    } else {
        panic!("Integer deserialized to something else than varchar");
    }
}

#[test]
fn test_empty_varchar_round_trips() {
    let value = MData::Varchar(String::from(""));
    let bytes = value.bytes();
    let deserialized = deserialize_data_column(value.type_byte(), &bytes).unwrap();
    assert_eq!(deserialized, value);
}

#[test]
fn test_negative_integer_round_trips() {
    let value = MData::Integer(-123456);
    let bytes = value.bytes();
    let deserialized = deserialize_data_column(value.type_byte(), &bytes).unwrap();
    assert_eq!(deserialized, value);
}

#[test]
fn test_truncated_integer_column_fails() {
    assert!(deserialize_data_column(TYPE_BYTE_INTEGER, &[1, 2, 3]).is_err());
}

#[test]
fn test_unknown_data_column_marker_fails() {
    assert!(deserialize_data_column(b'z', &[]).is_err());
}

#[test]
fn test_invalid_utf8_varchar_fails() {
    assert!(deserialize_data_column(TYPE_BYTE_VARCHAR, &[0xff, 0xfe]).is_err());
}

#[test]
fn test_apply_plus_and_minus() {
    let four = MData::Integer(1).apply_plus(MData::Integer(3)).unwrap();
    assert_eq!(four, MData::Integer(4));
    let minus_two = MData::Integer(1).apply_minus(MData::Integer(3)).unwrap();
    assert_eq!(minus_two, MData::Integer(-2));
    assert!(MData::Null.apply_plus(MData::Integer(1)).is_err());
    assert!(MData::Integer(1).apply_plus(MData::Varchar(String::from("x"))).is_err());
    assert!(MData::Varchar(String::from("a")).apply_minus(MData::Null).is_err());
}
