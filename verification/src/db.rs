//! Statement execution: parses one SQL string and runs it against the
//! catalog, producing a result table or a query error.

use vstd::prelude::*;

use crate::data::{Column, DataRow, MData, MDataType};
use crate::expression::{
    spec_eval, spec_eval_err_text, spec_eval_err_text_view, spec_eval_view, spec_schema_column,
    spec_schema_column_err_text, spec_schema_column_err_text_view, spec_schema_column_view,
};
use crate::lexer::spec_tokens_of;
use crate::manager::{spec_find_table, spec_table_index, InMemoryManager};
use crate::parser::{
    clause_view, expr_views, name_views, parse_sql, spec_projection, spec_statement, ParseError,
    ParseErrorKind, SpecClause, SpecParseError, SqlClause,
};
use crate::table_model::{spec_row_matches, TableSchema};
use crate::tokens::{SpecToken, TokenTypes};

verus! {

/// A failure of a whole statement: a parse failure or a data failure, as one
/// human-readable message.
#[derive(Debug)]
pub struct MicrobatQueryError {
    pub msg: String,
}

/// What a statement produced: a result table with its schema and rows.
#[derive(Debug)]
pub enum QueryResult {
    Table(TableSchema, Vec<DataRow>),
}

/// A short description of a token kind, used in parse error messages.
fn describe_token(token: &TokenTypes) -> (r: String)
    ensures
        r@.len() > 0,
{
    let text = match token {
        TokenTypes::SELECT => "SELECT",
        TokenTypes::UPDATE => "UPDATE",
        TokenTypes::INSERT => "INSERT",
        TokenTypes::DELETE => "DELETE",
        TokenTypes::SHOW => "SHOW",
        TokenTypes::TABLES => "TABLES",
        TokenTypes::WHERE => "WHERE",
        TokenTypes::FROM => "FROM",
        TokenTypes::SET => "SET",
        TokenTypes::COMMA => "a comma",
        TokenTypes::DOT => "a dot",
        TokenTypes::LPARENS => "an opening parenthesis",
        TokenTypes::RPARENS => "a closing parenthesis",
        TokenTypes::EQ => "an equals sign",
        TokenTypes::LT => "a less-than sign",
        TokenTypes::GT => "a greater-than sign",
        TokenTypes::LTE => "a less-or-equal sign",
        TokenTypes::GTE => "a greater-or-equal sign",
        TokenTypes::PLUS => "a plus sign",
        TokenTypes::MINUS => "a minus sign",
        TokenTypes::IDENTIFIER(_) => "an identifier",
        TokenTypes::STRING(_) => "a string",
        TokenTypes::INTEGER(_) => "an integer",
        TokenTypes::TERMINATE => "a terminator",
    };
    proof {
        reveal_strlit("SELECT");
        reveal_strlit("UPDATE");
        reveal_strlit("INSERT");
        reveal_strlit("DELETE");
        reveal_strlit("SHOW");
        reveal_strlit("TABLES");
        reveal_strlit("WHERE");
        reveal_strlit("FROM");
        reveal_strlit("SET");
        reveal_strlit("a comma");
        reveal_strlit("a dot");
        reveal_strlit("an opening parenthesis");
        reveal_strlit("a closing parenthesis");
        reveal_strlit("an equals sign");
        reveal_strlit("a less-than sign");
        reveal_strlit("a greater-than sign");
        reveal_strlit("a less-or-equal sign");
        reveal_strlit("a greater-or-equal sign");
        reveal_strlit("a plus sign");
        reveal_strlit("a minus sign");
        reveal_strlit("an identifier");
        reveal_strlit("a string");
        reveal_strlit("an integer");
        reveal_strlit("a terminator");
    }
    text.to_owned()
}

impl MicrobatQueryError {
    /// Renders a parse failure as a human-readable message.
    pub fn from_parse(value: ParseError) -> (r: Self)
        ensures
            r.msg@.len() > 0,
    {
        let msg = match value.kind {
            ParseErrorKind::LexingError(_) => {
                proof {
                    reveal_strlit("Lexing error");
                }
                "Lexing error".to_owned()
            },
            ParseErrorKind::UnexpectedToken => {
                proof {
                    reveal_strlit("Unexpected token");
                }
                "Unexpected token".to_owned()
            },
            ParseErrorKind::EndOfTokens => {
                proof {
                    reveal_strlit("Unexpected end of tokens");
                }
                "Unexpected end of tokens".to_owned()
            },
            ParseErrorKind::NoNud(token) => {
                proof {
                    reveal_strlit("No nud ");
                }
                let mut msg = "No nud ".to_owned();
                msg.append(describe_token(&token).as_str());
                msg
            },
            ParseErrorKind::NoLed(token) => {
                proof {
                    reveal_strlit("No led ");
                }
                let mut msg = "No led ".to_owned();
                msg.append(describe_token(&token).as_str());
                msg
            },
        };
        MicrobatQueryError { msg }
    }
}

/// A successful projection list is never empty.
proof fn lemma_projection_nonempty(ts: Seq<SpecToken>, pos: int, fuel: nat)
    ensures
        (match spec_projection(ts, pos, fuel) {
            Ok(pr) => pr.0.len() >= 1,
            Err(_) => true,
        }),
{
}

/// Parses and executes one SQL statement against the catalog, per
/// [`spec_statement`] over the input's token kinds.
///
/// `SHOW TABLES` returns a one-column `table` relation holding the table
/// names in creation order. `SELECT` evaluates its projection: with a `FROM`
/// table, once per stored row of that table, in insertion order; without one,
/// once against an empty row. Every failure comes back as a query error.
#[verifier::rlimit(50)]
pub fn execute_sql(sql: String, manager: &InMemoryManager) -> (r: Result<
    QueryResult,
    MicrobatQueryError,
>)
    requires
        manager.wf(),
    ensures
        (spec_tokens_of(sql@) is Err ==> r is Err),
        (match r {
            Ok(QueryResult::Table(schema, rows)) => schema.wf() && forall|i: int|
                0 <= i < rows@.len() ==> spec_row_matches(schema, (#[trigger] rows@[i]).columns@),
            Err(_) => true,
        }),
        (match spec_tokens_of(sql@) {
            Err(_) => r is Err,
            Ok(ts) => forall|fuel: nat|
                fuel > ts.len() ==> (match #[trigger] spec_statement(ts, fuel) {
                    Err(_) => r is Err,
                    Ok(SpecClause::ShowTables) => (match r {
                        Ok(QueryResult::Table(schema, rows)) => {
                            &&& schema.columns@.len() == 1
                            &&& schema.columns@[0].name@ == "table"@
                            &&& schema.columns@[0].data_type == MDataType::Varchar
                            &&& rows@.len() == manager.tables@.len()
                            &&& forall|i: int|
                                0 <= i < rows@.len() ==> (#[trigger] rows@[i]).columns@.len() == 1
                                    && (rows@[i].columns@[0] matches MData::Varchar(s) && s@
                                    == manager.tables@[i].name@)
                        },
                        Err(_) => false,
                    }),
                    Ok(SpecClause::Select(es, froms)) => if froms.len() > 0 {
                        let j = spec_table_index(manager.tables@, froms[0]);
                        let base = manager.tables@[j].schema;
                        (match r {
                            Ok(QueryResult::Table(schema, rows)) => {
                                &&& spec_find_table(manager.tables@, froms[0]) is Some
                                &&& schema.columns@.len() == es.len()
                                &&& forall|i: int|
                                    0 <= i < es.len() ==> spec_schema_column_view(
                                        #[trigger] es[i],
                                        base.columns@,
                                        i,
                                    ) == Some((schema.columns@[i].name@, schema.columns@[i].data_type))
                                &&& rows@.len() == manager.data@[j]@.len()
                                &&& forall|rr: int, i: int|
                                    0 <= rr < rows@.len() && 0 <= i < es.len() ==> spec_eval_view(
                                        es[i],
                                        base.columns@,
                                        manager.data@[j]@[rr]@,
                                    ) == Some(#[trigger] rows@[rr].columns@[i])
                            },
                            Err(e) => {
                                ||| (spec_find_table(manager.tables@, froms[0]) is None && e.msg@
                                    == "No such table: "@ + froms[0])
                                ||| exists|i: int|
                                    0 <= i < es.len() && spec_schema_column_view(
                                        #[trigger] es[i],
                                        base.columns@,
                                        i,
                                    ) is None && e.msg@ == spec_schema_column_err_text_view(es[i])
                                ||| exists|rr: int, i: int|
                                    0 <= rr < manager.data@[j]@.len() && 0 <= i < es.len()
                                        && (#[trigger] spec_eval_view(
                                        es[i],
                                        base.columns@,
                                        manager.data@[j]@[rr]@,
                                    )) is None && e.msg@ == spec_eval_err_text_view(
                                        es[i],
                                        base.columns@,
                                        manager.data@[j]@[rr]@,
                                    )
                            },
                        })
                    } else {
                        (match r {
                            Ok(QueryResult::Table(schema, rows)) => {
                                &&& schema.columns@.len() == es.len()
                                &&& forall|i: int|
                                    0 <= i < es.len() ==> spec_schema_column_view(
                                        #[trigger] es[i],
                                        Seq::<Column>::empty(),
                                        i,
                                    ) == Some((schema.columns@[i].name@, schema.columns@[i].data_type))
                                &&& rows@.len() == 1
                                &&& rows@[0].columns@.len() == es.len()
                                &&& forall|i: int|
                                    0 <= i < es.len() ==> spec_eval_view(
                                        #[trigger] es[i],
                                        Seq::<Column>::empty(),
                                        Seq::<MData>::empty(),
                                    ) == Some(rows@[0].columns@[i])
                            },
                            Err(e) => {
                                ||| exists|i: int|
                                    0 <= i < es.len() && spec_schema_column_view(
                                        #[trigger] es[i],
                                        Seq::<Column>::empty(),
                                        i,
                                    ) is None && e.msg@ == spec_schema_column_err_text_view(es[i])
                                ||| exists|i: int|
                                    0 <= i < es.len() && (#[trigger] spec_eval_view(
                                        es[i],
                                        Seq::<Column>::empty(),
                                        Seq::<MData>::empty(),
                                    )) is None && e.msg@ == spec_eval_err_text_view(
                                        es[i],
                                        Seq::<Column>::empty(),
                                        Seq::<MData>::empty(),
                                    )
                            },
                        })
                    },
                }),
        }),
{
    let ghost tokens_res = spec_tokens_of(sql@);
    let clause = match parse_sql(sql) {
        Ok(clause) => clause,
        Err(e) => {
            return Err(MicrobatQueryError::from_parse(e));
        },
    };
    let ghost cv = clause_view(clause);
    match clause {
        SqlClause::ShowTables => {
            let names = match manager.get_tables() {
                Ok(names) => names,
                Err(e) => {
                    return Err(MicrobatQueryError { msg: e.msg });
                },
            };
            let mut rows: Vec<DataRow> = Vec::new();
            let mut i: usize = 0;
            let len = names.len();
            #[verifier::loop_isolation(false)]
            while i < len
                invariant
                    i <= len,
                    rows@.len() == i,
                    forall|k: int|
                        0 <= k < i ==> (#[trigger] rows@[k]).columns@.len() == 1 && (rows@[
                            k
                        ].columns@[0] matches MData::Varchar(s) && s@ == manager.tables@[k].name@),
                decreases len - i,
            {
                let mut columns: Vec<MData> = Vec::new();
                columns.push(MData::Varchar(names[i].clone()));
                rows.push(DataRow::new(columns));
                i = i + 1;
            }
            let mut schema_columns: Vec<Column> = Vec::new();
            schema_columns.push(Column::new("table".to_owned(), MDataType::Varchar));
            Ok(QueryResult::Table(TableSchema { columns: schema_columns }, rows))
        },
        SqlClause::Select(projection, from) => {
            proof {
                match tokens_res {
                    Ok(ts) => {
                        let fuel0 = (ts.len() + 1) as nat;
                        assert(spec_statement(ts, fuel0) == Ok::<SpecClause, SpecParseError>(cv));
                        lemma_projection_nonempty(ts, 1, fuel0);
                        assert(expr_views(projection@).len() == projection@.len());
                        assert(name_views(from@).len() == from@.len());
                        if from@.len() > 0 {
                            assert(name_views(from@)[0] == from@[0]@);
                        }
                        assert(cv == SpecClause::Select(
                            expr_views(projection@),
                            name_views(from@),
                        ));
                    },
                    Err(_) => {},
                }
            }
            let ghost es = expr_views(projection@);
            if from.len() > 0 {
                let ghost base = manager.tables@[spec_table_index(
                    manager.tables@,
                    from@[0]@,
                )].schema;
                let relation = match manager.query(from[0].as_str(), projection) {
                    Ok(relation) => relation,
                    Err(e) => {
                        proof {
                            let j = spec_table_index(manager.tables@, from@[0]@);
                            if exists|i: int|
                                0 <= i < projection@.len() && (#[trigger] spec_schema_column(
                                    projection@[i],
                                    base.columns@,
                                    i,
                                )) is None && (forall|k: int|
                                    0 <= k < i ==> (#[trigger] spec_schema_column(
                                        projection@[k],
                                        base.columns@,
                                        k,
                                    )) is Some) && e.msg@ == spec_schema_column_err_text(
                                    projection@[i],
                                ) {
                                let i = choose|i: int|
                                    0 <= i < projection@.len() && (#[trigger] spec_schema_column(
                                        projection@[i],
                                        base.columns@,
                                        i,
                                    )) is None && (forall|k: int|
                                        0 <= k < i ==> (#[trigger] spec_schema_column(
                                            projection@[k],
                                            base.columns@,
                                            k,
                                        )) is Some) && e.msg@ == spec_schema_column_err_text(
                                        projection@[i],
                                    );
                                crate::expression::lemma_schema_column_by_view(
                                    projection@[i],
                                    base.columns@,
                                    i,
                                );
                                crate::expression::lemma_schema_column_err_text_by_view(
                                    projection@[i],
                                );
                                assert((spec_schema_column_view(es[i], base.columns@, i)) is None);
                                assert(e.msg@ == spec_schema_column_err_text_view(es[i]));
                            } else if exists|rr: int, i: int|
                                0 <= rr < manager.data@[j]@.len() && 0 <= i < projection@.len()
                                    && (#[trigger] spec_eval(
                                    projection@[i],
                                    base.columns@,
                                    manager.data@[j]@[rr]@,
                                )) is None && e.msg@ == spec_eval_err_text(
                                    projection@[i],
                                    base.columns@,
                                    manager.data@[j]@[rr]@,
                                ) {
                                let (rr, i) = choose|rr: int, i: int|
                                    0 <= rr < manager.data@[j]@.len() && 0 <= i
                                        < projection@.len() && (#[trigger] spec_eval(
                                        projection@[i],
                                        base.columns@,
                                        manager.data@[j]@[rr]@,
                                    )) is None && e.msg@ == spec_eval_err_text(
                                        projection@[i],
                                        base.columns@,
                                        manager.data@[j]@[rr]@,
                                    );
                                crate::expression::lemma_eval_by_view(
                                    projection@[i],
                                    base.columns@,
                                    manager.data@[j]@[rr]@,
                                );
                                crate::expression::lemma_eval_err_text_by_view(
                                    projection@[i],
                                    base.columns@,
                                    manager.data@[j]@[rr]@,
                                );
                                assert((spec_eval_view(
                                    es[i],
                                    base.columns@,
                                    manager.data@[j]@[rr]@,
                                )) is None);
                                assert(e.msg@ == spec_eval_err_text_view(
                                    es[i],
                                    base.columns@,
                                    manager.data@[j]@[rr]@,
                                ));
                            }
                            if spec_find_table(manager.tables@, from@[0]@) is Some {
                                if exists|i: int|
                                    0 <= i < projection@.len() && spec_schema_column(
                                        #[trigger] projection@[i],
                                        base.columns@,
                                        i,
                                    ) is None {
                                    let i = choose|i: int|
                                        0 <= i < projection@.len() && spec_schema_column(
                                            #[trigger] projection@[i],
                                            base.columns@,
                                            i,
                                        ) is None;
                                    crate::expression::lemma_schema_column_by_view(
                                        projection@[i],
                                        base.columns@,
                                        i,
                                    );
                                    assert(spec_schema_column_view(es[i], base.columns@, i)
                                        is None);
                                } else if exists|rr: int, i: int|
                                    0 <= rr < manager.data@[spec_table_index(
                                        manager.tables@,
                                        from@[0]@,
                                    )]@.len() && 0 <= i < projection@.len() && (
                                    #[trigger] spec_eval(
                                        projection@[i],
                                        base.columns@,
                                        manager.data@[spec_table_index(
                                            manager.tables@,
                                            from@[0]@,
                                        )]@[rr]@,
                                    )) is None {
                                    let (rr, i) = choose|rr: int, i: int|
                                        0 <= rr < manager.data@[spec_table_index(
                                            manager.tables@,
                                            from@[0]@,
                                        )]@.len() && 0 <= i < projection@.len() && (
                                        #[trigger] spec_eval(
                                            projection@[i],
                                            base.columns@,
                                            manager.data@[spec_table_index(
                                                manager.tables@,
                                                from@[0]@,
                                            )]@[rr]@,
                                        )) is None;
                                    crate::expression::lemma_eval_by_view(
                                        projection@[i],
                                        base.columns@,
                                        manager.data@[spec_table_index(
                                            manager.tables@,
                                            from@[0]@,
                                        )]@[rr]@,
                                    );
                                    assert(0 <= i < es.len());
                                    assert(spec_eval_view(
                                        es[i],
                                        base.columns@,
                                        manager.data@[spec_table_index(
                                            manager.tables@,
                                            from@[0]@,
                                        )]@[rr]@,
                                    ) is None);
                                }
                            }
                        }
                        return Err(MicrobatQueryError { msg: e.msg });
                    },
                };
                proof {
                    assert forall|i: int| 0 <= i < es.len() implies spec_schema_column_view(
                        #[trigger] es[i],
                        base.columns@,
                        i,
                    ) == Some(
                        (relation.schema.columns@[i].name@, relation.schema.columns@[i].data_type),
                    ) by {
                        crate::expression::lemma_schema_column_by_view(
                            projection@[i],
                            base.columns@,
                            i,
                        );
                    }
                    assert forall|rr: int, i: int|
                        0 <= rr < relation.rows@.len() && 0 <= i < es.len() implies spec_eval_view(
                        es[i],
                        base.columns@,
                        manager.data@[spec_table_index(manager.tables@, from@[0]@)]@[rr]@,
                    ) == Some(#[trigger] relation.rows@[rr].columns@[i]) by {
                        crate::expression::lemma_eval_by_view(
                            projection@[i],
                            base.columns@,
                            manager.data@[spec_table_index(manager.tables@, from@[0]@)]@[rr]@,
                        );
                    }
                }
                Ok(QueryResult::Table(relation.schema, relation.rows))
            } else {
                // No FROM clause: evaluate the projection once, against an
                // empty schema and an empty row.
                let empty_schema = TableSchema { columns: Vec::new() };
                let empty_row: Vec<MData> = Vec::new();
                let mut schema_columns: Vec<Column> = Vec::new();
                let mut values: Vec<MData> = Vec::new();
                let mut i: usize = 0;
                let len = projection.len();
                proof {
                    assert(empty_schema.columns@ =~= Seq::<Column>::empty());
                    assert(empty_row@ =~= Seq::<MData>::empty());
                }
                #[verifier::loop_isolation(false)]
                while i < len
                    invariant
                        i <= len,
                        len == projection@.len(),
                        empty_schema.columns@ == Seq::<Column>::empty(),
                        empty_row@ == Seq::<MData>::empty(),
                        schema_columns@.len() == i,
                        values@.len() == i,
                        forall|k: int|
                            0 <= k < i ==> (#[trigger] values@[k]).spec_matcher()
                                == schema_columns@[k].data_type,
                        forall|k: int|
                            0 <= k < i ==> spec_schema_column_view(
                                #[trigger] es[k],
                                Seq::<Column>::empty(),
                                k,
                            ) == Some((schema_columns@[k].name@, schema_columns@[k].data_type)),
                        forall|k: int|
                            0 <= k < i ==> spec_eval_view(
                                #[trigger] es[k],
                                Seq::<Column>::empty(),
                                Seq::<MData>::empty(),
                            ) == Some(values@[k]),
                    decreases len - i,
                {
                    let column = match projection[i].schema_column(&empty_schema, i) {
                        Ok(column) => column,
                        Err(e) => {
                            proof {
                                crate::expression::lemma_schema_column_by_view(
                                    projection@[i as int],
                                    Seq::<Column>::empty(),
                                    i as int,
                                );
                                crate::expression::lemma_schema_column_err_text_by_view(
                                    projection@[i as int],
                                );
                                assert(0 <= i < es.len());
                                assert(spec_schema_column_view(
                                    es[i as int],
                                    Seq::<Column>::empty(),
                                    i as int,
                                ) is None);
                                assert(e.msg@ == spec_schema_column_err_text_view(es[i as int]));
                            }
                            return Err(MicrobatQueryError { msg: e.msg });
                        },
                    };
                    let value = match projection[i].eval(&empty_schema, &empty_row) {
                        Ok(value) => value,
                        Err(e) => {
                            proof {
                                crate::expression::lemma_eval_by_view(
                                    projection@[i as int],
                                    Seq::<Column>::empty(),
                                    Seq::<MData>::empty(),
                                );
                                crate::expression::lemma_eval_err_text_by_view(
                                    projection@[i as int],
                                    Seq::<Column>::empty(),
                                    Seq::<MData>::empty(),
                                );
                                assert(0 <= i < es.len());
                                assert(spec_eval_view(
                                    es[i as int],
                                    Seq::<Column>::empty(),
                                    Seq::<MData>::empty(),
                                ) is None);
                                assert(e.msg@ == spec_eval_err_text_view(
                                    es[i as int],
                                    Seq::<Column>::empty(),
                                    Seq::<MData>::empty(),
                                ));
                            }
                            return Err(MicrobatQueryError { msg: e.msg });
                        },
                    };
                    proof {
                        crate::expression::lemma_projection_type_soundness(
                            projection@[i as int],
                            empty_schema.columns@,
                            empty_row@,
                            i as int,
                        );
                        crate::expression::lemma_schema_column_by_view(
                            projection@[i as int],
                            Seq::<Column>::empty(),
                            i as int,
                        );
                        crate::expression::lemma_eval_by_view(
                            projection@[i as int],
                            Seq::<Column>::empty(),
                            Seq::<MData>::empty(),
                        );
                    }
                    schema_columns.push(column);
                    values.push(value);
                    i = i + 1;
                }
                let schema = match TableSchema::new(schema_columns) {
                    Ok(schema) => schema,
                    Err(e) => {
                        return Err(MicrobatQueryError { msg: e.msg });
                    },
                };
                let mut rows: Vec<DataRow> = Vec::new();
                rows.push(DataRow::new(values));
                Ok(QueryResult::Table(schema, rows))
            }
        },
    }
}

} // verus!
