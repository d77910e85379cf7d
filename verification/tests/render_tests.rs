//! Tests of result rendering: mutation summaries and bordered tables.

use microbat::data::{Column, MData, MDataType};
use microbat::render_result::{MutationKind, RenderableMutationResult, RenderableQueryResult};

fn assert_expected_rendering(rendered: String, expected: Vec<&str>) {
    for (index, line) in rendered.split("\n").enumerate() {
        println!("{}", line);
        assert_eq!(
            expected[index], line,
            "Expected lines did not match at index {} \n \nrendered result was\n{}",
            index, rendered
        )
    }
}

#[test]
fn test_render_insert_mutation_result() {
    let result = RenderableMutationResult::new(MutationKind::INSERT, 5, 1000);

    let expected = vec!["Inserted 5 rows", "", "Query took 1000 ms.", ""];
    assert_expected_rendering(result.render(), expected);
}

#[test]
fn test_render_update_mutation_result() {
    let result = RenderableMutationResult::new(MutationKind::UPDATE, 10, 1000);

    let expected = vec!["Updated 10 rows", "", "Query took 1000 ms.", ""];
    assert_expected_rendering(result.render(), expected);
}

#[test]
fn test_render_delete_mutation_result() {
    let result = RenderableMutationResult::new(MutationKind::DELETE, 5, 1000);

    let expected = vec!["Deleted 5 rows", "", "Query took 1000 ms.", ""];
    assert_expected_rendering(result.render(), expected);
}

#[test]
fn test_render_empty_result_set_with_one_column() {
    let result = RenderableQueryResult::new(
        vec![Column { name: String::from("foo"), data_type: MDataType::Integer }],
        vec![],
        1000,
    );

    let expected = vec![
        "-------",
        "| foo |",
        "-------",
        "-------",
        "",
        "(0 rows)",
        "",
        "Query took 1000 ms.",
        "",
    ];
    assert_expected_rendering(result.render(), expected);
}

#[test]
fn test_render_empty_result_set_with_longer_name() {
    let result = RenderableQueryResult::new(
        vec![Column { name: String::from("this_is_long_name"), data_type: MDataType::Integer }],
        vec![],
        1000,
    );

    let expected = vec![
        "---------------------",
        "| this_is_long_name |",
        "---------------------",
        "---------------------",
        "",
        "(0 rows)",
        "",
        "Query took 1000 ms.",
        "",
    ];
    assert_expected_rendering(result.render(), expected);
}

#[test]
fn test_render_result_set_with_one_column_and_one_row() {
    let result = RenderableQueryResult::new(
        vec![Column { name: String::from("foo"), data_type: MDataType::Integer }],
        vec![vec![MData::Integer(1)]],
        1000,
    );

    let expected = vec![
        "-------",
        "| foo |",
        "-------",
        "| 1   |",
        "-------",
        "",
        "(1 rows)",
        "",
        "Query took 1000 ms.",
        "",
    ];
    assert_expected_rendering(result.render(), expected);
}

#[test]
fn test_null_value_rendering() {
    let result = RenderableQueryResult::new(
        vec![Column { name: String::from("foo"), data_type: MDataType::Integer }],
        vec![vec![MData::Null]],
        1000,
    );

    let expected = vec![
        "--------",
        "| foo  |",
        "--------",
        "| null |",
        "--------",
        "",
        "(1 rows)",
        "",
        "Query took 1000 ms.",
        "",
    ];
    assert_expected_rendering(result.render(), expected);
}

#[test]
fn test_render_result_set_with_long_name() {
    let result = RenderableQueryResult::new(
        vec![Column { name: String::from("longer_name"), data_type: MDataType::Integer }],
        vec![vec![MData::Integer(1)]],
        1000,
    );

    let expected = vec![
        "---------------",
        "| longer_name |",
        "---------------",
        "| 1           |",
        "---------------",
        "",
        "(1 rows)",
        "",
        "Query took 1000 ms.",
        "",
    ];
    assert_expected_rendering(result.render(), expected);
}

#[test]
fn test_long_integer_rendering() {
    let result = RenderableQueryResult::new(
        vec![Column { name: String::from("a"), data_type: MDataType::Integer }],
        vec![vec![MData::Integer(24252)]],
        1000,
    );

    let expected = vec![
        "---------",
        "| a     |",
        "---------",
        "| 24252 |",
        "---------",
        "",
        "(1 rows)",
        "",
        "Query took 1000 ms.",
        "",
    ];
    assert_expected_rendering(result.render(), expected);
}

#[test]
fn test_render_result_set_with_long_value() {
    let result = RenderableQueryResult::new(
        vec![Column { name: String::from("longer_name"), data_type: MDataType::Varchar }],
        vec![vec![MData::Varchar(String::from("This is even longer value"))]],
        1000,
    );

    let expected = vec![
        "-----------------------------",
        "| longer_name               |",
        "-----------------------------",
        "| This is even longer value |",
        "-----------------------------",
        "",
        "(1 rows)",
        "",
        "Query took 1000 ms.",
        "",
    ];
    assert_expected_rendering(result.render(), expected);
}

#[test]
fn test_multiple_columns() {
    let result = RenderableQueryResult::new(
        vec![
            Column { name: String::from("a"), data_type: MDataType::Integer },
            Column { name: String::from("a_value"), data_type: MDataType::Integer },
        ],
        vec![
            vec![MData::Integer(3), MData::Integer(1234)],
            vec![MData::Integer(5555), MData::Integer(984948)],
        ],
        1000,
    );

    let expected = vec![
        "------------------",
        "| a    | a_value |",
        "------------------",
        "| 3    | 1234    |",
        "| 5555 | 984948  |",
        "------------------",
        "",
        "(2 rows)",
        "",
        "Query took 1000 ms.",
        "",
    ];
    assert_expected_rendering(result.render(), expected);
}

#[test]
fn test_negative_integer_rendering() {
    let result = RenderableQueryResult::new(
        vec![Column { name: String::from("n"), data_type: MDataType::Integer }],
        vec![vec![MData::Integer(-42)]],
        1000,
    );

    let expected = vec![
        "-------",
        "| n   |",
        "-------",
        "| -42 |",
        "-------",
        "",
        "(1 rows)",
        "",
        "Query took 1000 ms.",
        "",
    ];
    assert_expected_rendering(result.render(), expected);
}

#[test]
fn test_row_count() {
    let result = RenderableQueryResult::new(
        vec![Column { name: String::from("n"), data_type: MDataType::Integer }],
        vec![vec![MData::Integer(1)], vec![MData::Integer(2)]],
        1000,
    );
    assert_eq!(result.row_count(), 2);
}
