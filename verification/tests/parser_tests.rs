//! Tests of the parser: expression parsing with precedence and parentheses,
//! and the two top-level statements.

use microbat::data::MData;
use microbat::lexer::Lexer;
use microbat::parser::{parse_expression, parse_sql, ParseErrorKind, SqlClause};
use microbat::table_model::TableSchema;

fn empty_schema() -> TableSchema {
    TableSchema { columns: vec![] }
}

fn string_expr_evaluates_to(input: String, evals_to: MData) {
    let mut lexer = Lexer::with_input(input.clone()).expect("Can't parse");
    let expr = parse_expression(&mut lexer, 1).unwrap();
    match expr.eval(&empty_schema(), &vec![]) {
        Ok(val) => {
            assert_eq!(val, evals_to, "{} did not eval as expected", input);
        }
        Err(_) => panic!("Can't eval expression"),
    }
}

fn string_expr_fails(input: String, expected_error: ParseErrorKind) {
    let mut lexer = Lexer::with_input(input.clone()).expect("nonono");
    let result = parse_expression(&mut lexer, 0);
    assert!(result.is_err(), "Expected \"{}\" to error but it succeeded", input);
    match result {
        Ok(_) => assert!(false, "Expected \"{}\" to error but it succeeded", input),
        Err(error) => assert_eq!(error.kind, expected_error),
    }
}

#[test]
fn test_parsing_error() {
    string_expr_fails(String::from("112"), ParseErrorKind::EndOfTokens);
    string_expr_fails(String::from("112 + 11"), ParseErrorKind::EndOfTokens);
}

#[test]
fn parser_test_parsing() {
    string_expr_evaluates_to(String::from("1;"), MData::Integer(1));
    string_expr_evaluates_to(String::from("1+1;"), MData::Integer(2));
    string_expr_evaluates_to(String::from("5+100;"), MData::Integer(105));
    string_expr_evaluates_to(String::from("1-1;"), MData::Integer(0));
}

#[test]
fn parser_test_nested_expressions() {
    string_expr_evaluates_to(String::from("1 + (5 - 2) ;"), MData::Integer(4));
    string_expr_evaluates_to(String::from("1 + 2 + 3;"), MData::Integer(6));
    string_expr_evaluates_to(String::from("1 + (5 - 2);"), MData::Integer(4));
    string_expr_evaluates_to(String::from("10 - (2 + 2);"), MData::Integer(6));
    string_expr_evaluates_to(String::from("10 - 5 - 2;"), MData::Integer(3));
    string_expr_evaluates_to(String::from("(10 - 5) - 2;"), MData::Integer(3));
    string_expr_evaluates_to(String::from("10 - (5 - 2);"), MData::Integer(7));
}

#[test]
fn test_negatives() {
    string_expr_evaluates_to(String::from("2-10;"), MData::Integer(-8));
    string_expr_evaluates_to(String::from("-5 + 5;"), MData::Integer(0));
}

#[test]
fn test_show_table_parsing() {
    let sql_ast = parse_sql("SHOW TABLES;".to_owned()).expect("Can't parse SHOW TABLES");
    match sql_ast {
        SqlClause::ShowTables => {}
        _ => panic!("Didn't parse to ShowTables"),
    }
}

fn assert_parsing(input: &str, expected_projections: Vec<MData>, expected_from: Vec<String>) {
    let sql_ast = parse_sql(input.to_owned()).expect(format!("Can't parse {}", input).as_str());
    match sql_ast {
        SqlClause::Select(projections, from) => {
            assert_eq!(projections.len(), expected_projections.len());
            for (index, expected_result) in expected_projections.into_iter().enumerate() {
                assert_eq!(
                    projections[index].eval(&empty_schema(), &vec![]).expect("Can't eval"),
                    expected_result
                );
            }
            if expected_from.len() > 0 {
                assert_eq!(from, expected_from);
            }
        }
        _ => panic!(),
    }
}

#[test]
fn test_sql_parsing_only_with_projection() {
    assert_parsing("select 1;", vec![MData::Integer(1)], vec![]);
    assert_parsing("select 1 + 52;", vec![MData::Integer(53)], vec![]);
    assert_parsing("select 1, 2;", vec![MData::Integer(1), MData::Integer(2)], vec![]);
    assert_parsing(
        "select 1, 2, 3, 4;",
        vec![MData::Integer(1), MData::Integer(2), MData::Integer(3), MData::Integer(4)],
        vec![],
    );
    assert_parsing(
        "select (1 + 1), (6 - (2 + 3));",
        vec![MData::Integer(2), MData::Integer(1)],
        vec![],
    );
}

#[test]
fn test_from_parsing() {
    assert_parsing("select 1 from bar", vec![MData::Integer(1)], vec![String::from("BAR")]);
    assert_parsing(
        "select 1 from foo, bar",
        vec![MData::Integer(1)],
        vec![String::from("FOO"), String::from("BAR")],
    );
}

#[test]
fn test_parsing() {
    string_expr_evaluates_to(String::from("1;"), MData::Integer(1));
    string_expr_evaluates_to(String::from("1+1;"), MData::Integer(2));
    string_expr_evaluates_to(String::from("5+100;"), MData::Integer(105));
    string_expr_evaluates_to(String::from("1-1;"), MData::Integer(0));
}

#[test]
fn test_nested_expressions() {
    string_expr_evaluates_to(String::from("1 + (5 - 2) ;"), MData::Integer(4));
}

#[test]
fn test_no_nud_and_no_led_errors() {
    string_expr_fails(String::from(", 1;"), ParseErrorKind::NoNud(microbat::tokens::TokenTypes::COMMA));
    string_expr_fails(
        String::from("1 2;"),
        ParseErrorKind::NoLed(microbat::tokens::TokenTypes::INTEGER(2)),
    );
    string_expr_fails(String::from("';'"), ParseErrorKind::NoNud(
        microbat::tokens::TokenTypes::STRING(String::from(";")),
    ));
}

#[test]
fn test_unexpected_statements_fail() {
    assert!(parse_sql("update foo;".to_owned()).is_err());
    assert!(parse_sql("SHOW select;".to_owned()).is_err());
    assert!(parse_sql("select 1 from 2;".to_owned()).is_err());
}

#[test]
fn test_lexing_error_becomes_parse_error() {
    let err = parse_sql("select 'a".to_owned()).unwrap_err();
    assert_eq!(
        err.kind,
        ParseErrorKind::LexingError(microbat::lexer::LexingErrors::StringNotTerminated)
    );
    let err = parse_sql("".to_owned()).unwrap_err();
    assert_eq!(err.kind, ParseErrorKind::LexingError(microbat::lexer::LexingErrors::NoTokens));
}
