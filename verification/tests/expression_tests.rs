//! Tests of expression evaluation against a schema and a row.

use microbat::data::{Column, MData, MDataType};
use microbat::expression::{
    Expression, LeafExpression, NegateExpression, Operation, OperationExpression,
    ReferenceExpression,
};
use microbat::table_model::TableSchema;

fn empty_schema() -> TableSchema {
    TableSchema { columns: vec![] }
}

#[test]
fn test_expr() {
    let expr = Expression::Leaf(LeafExpression::new(123));
    let v = expr.eval(&empty_schema(), &vec![]);
    assert!(v.is_ok());
}

#[test]
fn test_operation() {
    let expr = Expression::Operation(OperationExpression {
        operation: Operation::Minus,
        left: Box::new(Expression::Leaf(LeafExpression::new(1))),
        right: Box::new(Expression::Leaf(LeafExpression::new(1))),
    });
    match expr.eval(&empty_schema(), &vec![]) {
        Ok(val) => match val {
            MData::Integer(v) => assert_eq!(v, 0),
            _ => panic!(),
        },
        Err(_) => panic!(),
    }
}

#[test]
fn test_nested_operation() {
    let expr = Expression::Operation(OperationExpression {
        operation: Operation::Minus,
        left: Box::new(Expression::Operation(OperationExpression {
            operation: Operation::Plus,
            left: Box::new(Expression::Leaf(LeafExpression::new(5))),
            right: Box::new(Expression::Leaf(LeafExpression::new(15))),
        })),
        right: Box::new(Expression::Leaf(LeafExpression::new(1))),
    });
    match expr.eval(&empty_schema(), &vec![]) {
        Ok(val) => match val {
            MData::Integer(v) => assert_eq!(v, 19),
            _ => panic!(),
        },
        Err(_) => panic!(),
    }
}

#[test]
fn test_reference_is_case_insensitive() {
    let schema = TableSchema::new(vec![
        Column::new(String::from("id"), MDataType::Integer),
        Column::new(String::from("Name"), MDataType::Varchar),
    ])
    .unwrap();
    let row = vec![MData::Integer(7), MData::Varchar(String::from("Juho"))];
    let expr = Expression::Reference(ReferenceExpression::new(String::from("NAME")));
    assert_eq!(expr.eval(&schema, &row).unwrap(), MData::Varchar(String::from("Juho")));
    let column = expr.schema_column(&schema, 0).unwrap();
    assert_eq!(column.name, "NAME");
    assert_eq!(column.data_type, MDataType::Varchar);
}

#[test]
fn test_missing_reference_fails() {
    let schema = TableSchema::new(vec![Column::new(String::from("id"), MDataType::Integer)])
        .unwrap();
    let row = vec![MData::Integer(7)];
    let expr = Expression::Reference(ReferenceExpression::new(String::from("BOGUS")));
    let err = expr.eval(&schema, &row).unwrap_err();
    assert_eq!(err.msg, "No such column BOGUS");
}

#[test]
fn test_negate_needs_an_integer() {
    let expr = Expression::Negate(NegateExpression {
        expression: Box::new(Expression::Leaf(LeafExpression::new(5))),
    });
    assert_eq!(expr.eval(&empty_schema(), &vec![]).unwrap(), MData::Integer(-5));

    let schema = TableSchema::new(vec![Column::new(String::from("s"), MDataType::Varchar)])
        .unwrap();
    let row = vec![MData::Varchar(String::from("x"))];
    let bad = Expression::Negate(NegateExpression {
        expression: Box::new(Expression::Reference(ReferenceExpression::new(String::from("S")))),
    });
    assert!(bad.eval(&schema, &row).is_err());
}

#[test]
fn test_leaf_schema_column_is_named_after_position() {
    let expr = Expression::Leaf(LeafExpression::new(1));
    let column = expr.schema_column(&empty_schema(), 3).unwrap();
    assert_eq!(column.name, "column_3");
    assert_eq!(column.data_type, MDataType::Integer);
}
