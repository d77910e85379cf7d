//! The per-connection protocol logic: what the server answers to each client
//! message, and the catalog the server starts with. The network loop around
//! this lives outside the library; it only writes the frames this module
//! hands it, in order.

use vstd::prelude::*;

use crate::client_messages::MicrobatClientMessage;
use crate::data::{Column, DataDescription, MData, MDataType};
use crate::db::{execute_sql, QueryResult};
use crate::expression::{spec_eval_view, spec_schema_column_view};
use crate::lexer::spec_tokens_of;
use crate::manager::{spec_find_table, spec_table_index, InMemoryManager, TableMetadata};
use crate::parser::{spec_statement, SpecClause};
use crate::server_messages::MicrobatServerMessage;
use crate::table_model::{clone_columns, spec_row_matches, TableSchema};

verus! {

/// Options of a server instance: the address it binds.
pub struct MicrobatServerOpts {
    pub bind: String,
}

/// True when the server keeps the connection open after this exchange.
pub open spec fn spec_keeps_connection(message: MicrobatClientMessage) -> bool {
    !(message is Disconnect)
}

/// The server's whole answer to one client message.
///
/// A handshake is answered by a handshake and a ready barrier; a disconnect
/// by nothing, closing the connection. Every query, accepted or failed, is
/// answered by a response that ends with exactly one `Ready` frame: a data
/// description followed by the data rows, or an error, and then `Ready`.
pub fn respond(manager: &InMemoryManager, message: MicrobatClientMessage) -> (r: (
    Vec<MicrobatServerMessage>,
    bool,
))
    requires
        manager.wf(),
    ensures
        r.1 == spec_keeps_connection(message),
        (match message {
            MicrobatClientMessage::Handshake => r.0@.len() == 2 && r.0@[0] is Handshake && r.0@[1]
                is Ready,
            MicrobatClientMessage::Disconnect => r.0@.len() == 0,
            MicrobatClientMessage::Query(q) => {
                &&& r.0@.len() >= 2
                &&& r.0@.last() is Ready
                &&& forall|i: int| 0 <= i < r.0@.len() - 1 ==> !((#[trigger] r.0@[i]) is Ready)
                &&& (r.0@[0] is Error ==> r.0@.len() == 2)
                &&& forall|i: int| 1 <= i < r.0@.len() - 1 ==> (#[trigger] r.0@[i]) is DataRow
                &&& (match r.0@[0] {
                    MicrobatServerMessage::DataDescription(d) => forall|i: int|
                        1 <= i < r.0@.len() - 1 ==> (match #[trigger] r.0@[i] {
                            MicrobatServerMessage::DataRow(row) => spec_row_matches(
                                (TableSchema { columns: d.columns }),
                                row.columns@,
                            ),
                            _ => false,
                        }),
                    MicrobatServerMessage::Error(_) => true,
                    _ => false,
                })
                &&& (match spec_tokens_of(q@) {
                    Err(_) => r.0@[0] is Error,
                    Ok(ts) => forall|fuel: nat|
                        fuel > ts.len() ==> (match #[trigger] spec_statement(ts, fuel) {
                            Err(_) => r.0@[0] is Error,
                            Ok(SpecClause::ShowTables) => {
                                &&& r.0@.len() == 2 + manager.tables@.len()
                                &&& (match r.0@[0] {
                                    MicrobatServerMessage::DataDescription(d) => d.columns@.len()
                                        == 1 && d.columns@[0].name@ == "table"@ && d.columns@[
                                        0
                                    ].data_type == MDataType::Varchar,
                                    _ => false,
                                })
                                &&& forall|k: int|
                                    1 <= k < r.0@.len() - 1 ==> (match #[trigger] r.0@[k] {
                                        MicrobatServerMessage::DataRow(row) => row.columns@.len()
                                            == 1 && (row.columns@[0] matches MData::Varchar(s)
                                            && s@ == manager.tables@[k - 1].name@),
                                        _ => false,
                                    })
                            },
                            Ok(SpecClause::Select(es, froms)) => if froms.len() > 0 {
                                let j = spec_table_index(manager.tables@, froms[0]);
                                let base = manager.tables@[j].schema;
                                (match r.0@[0] {
                                    MicrobatServerMessage::DataDescription(d) => {
                                        &&& spec_find_table(manager.tables@, froms[0]) is Some
                                        &&& d.columns@.len() == es.len()
                                        &&& forall|i: int|
                                            0 <= i < es.len() ==> spec_schema_column_view(
                                                #[trigger] es[i],
                                                base.columns@,
                                                i,
                                            ) == Some(
                                                (d.columns@[i].name@, d.columns@[i].data_type),
                                            )
                                        &&& r.0@.len() == 2 + manager.data@[j]@.len()
                                        &&& forall|k: int, i: int|
                                            #![trigger r.0@[k], es[i]]
                                            1 <= k < r.0@.len() - 1 && 0 <= i < es.len() ==> (
                                            match r.0@[k] {
                                                MicrobatServerMessage::DataRow(row) => spec_eval_view(
                                                    es[i],
                                                    base.columns@,
                                                    manager.data@[j]@[k - 1]@,
                                                ) == Some(row.columns@[i]),
                                                _ => false,
                                            })
                                    },
                                    MicrobatServerMessage::Error(m) => {
                                        ||| (spec_find_table(manager.tables@, froms[0]) is None
                                            && m@ == "No such table: "@ + froms[0])
                                        ||| exists|i: int|
                                            0 <= i < es.len() && spec_schema_column_view(
                                                #[trigger] es[i],
                                                base.columns@,
                                                i,
                                            ) is None && m@
                                                == crate::expression::spec_schema_column_err_text_view(
                                                es[i],
                                            )
                                        ||| exists|rr: int, i: int|
                                            0 <= rr < manager.data@[j]@.len() && 0 <= i < es.len()
                                                && (#[trigger] spec_eval_view(
                                                es[i],
                                                base.columns@,
                                                manager.data@[j]@[rr]@,
                                            )) is None && m@
                                                == crate::expression::spec_eval_err_text_view(
                                                es[i],
                                                base.columns@,
                                                manager.data@[j]@[rr]@,
                                            )
                                    },
                                    _ => false,
                                })
                            } else {
                                (match r.0@[0] {
                                    MicrobatServerMessage::DataDescription(d) => {
                                        &&& d.columns@.len() == es.len()
                                        &&& forall|i: int|
                                            0 <= i < es.len() ==> spec_schema_column_view(
                                                #[trigger] es[i],
                                                Seq::<Column>::empty(),
                                                i,
                                            ) == Some(
                                                (d.columns@[i].name@, d.columns@[i].data_type),
                                            )
                                        &&& r.0@.len() == 3
                                        &&& (match r.0@[1] {
                                            MicrobatServerMessage::DataRow(row) => forall|i: int|
                                                0 <= i < es.len() ==> spec_eval_view(
                                                    #[trigger] es[i],
                                                    Seq::<Column>::empty(),
                                                    Seq::<MData>::empty(),
                                                ) == Some(row.columns@[i]),
                                            _ => false,
                                        })
                                    },
                                    MicrobatServerMessage::Error(m) => {
                                        ||| exists|i: int|
                                            0 <= i < es.len() && spec_schema_column_view(
                                                #[trigger] es[i],
                                                Seq::<Column>::empty(),
                                                i,
                                            ) is None && m@
                                                == crate::expression::spec_schema_column_err_text_view(
                                                es[i],
                                            )
                                        ||| exists|i: int|
                                            0 <= i < es.len() && (#[trigger] spec_eval_view(
                                                es[i],
                                                Seq::<Column>::empty(),
                                                Seq::<MData>::empty(),
                                            )) is None && m@
                                                == crate::expression::spec_eval_err_text_view(
                                                es[i],
                                                Seq::<Column>::empty(),
                                                Seq::<MData>::empty(),
                                            )
                                    },
                                    _ => false,
                                })
                            },
                        }),
                })
            },
        }),
{
    match message {
        MicrobatClientMessage::Handshake => {
            let mut frames: Vec<MicrobatServerMessage> = Vec::new();
            frames.push(MicrobatServerMessage::Handshake);
            frames.push(MicrobatServerMessage::Ready);
            (frames, true)
        },
        MicrobatClientMessage::Disconnect => {
            let frames: Vec<MicrobatServerMessage> = Vec::new();
            (frames, false)
        },
        MicrobatClientMessage::Query(query) => {
            let ghost tokens_res = spec_tokens_of(query@);
            let mut frames: Vec<MicrobatServerMessage> = Vec::new();
            match execute_sql(query, manager) {
                Ok(QueryResult::Table(schema, rows)) => {
                    frames.push(
                        MicrobatServerMessage::DataDescription(
                            DataDescription { columns: clone_columns(&schema.columns) },
                        ),
                    );
                    let ghost description = frames@[0];
                    let mut i: usize = 0;
                    let len = rows.len();
                    let mut rows = rows;
                    #[verifier::loop_isolation(false)]
                    while i < len
                        invariant
                            i <= len,
                            rows@.len() == len,
                            frames@.len() == i + 1,
                            frames@[0] == description,
                            forall|k: int| 1 <= k <= i ==> (#[trigger] frames@[k]) is DataRow,
                            (match description {
                                MicrobatServerMessage::DataDescription(d) => forall|k: int|
                                    1 <= k <= i ==> (match #[trigger] frames@[k] {
                                        MicrobatServerMessage::DataRow(row) => spec_row_matches(
                                            (TableSchema { columns: d.columns }),
                                            row.columns@,
                                        ),
                                        _ => false,
                                    }),
                                _ => false,
                            }),
                            forall|k: int|
                                1 <= k <= i ==> (match #[trigger] frames@[k] {
                                    MicrobatServerMessage::DataRow(row) => row.columns@ == rows@[
                                        k - 1
                                    ].columns@,
                                    _ => false,
                                }),
                        decreases len - i,
                    {
                        let row = rows[i].clone();
                        proof {
                            assert(spec_row_matches(schema, rows@[i as int].columns@));
                        }
                        frames.push(MicrobatServerMessage::DataRow(row));
                        i = i + 1;
                    }
                    frames.push(MicrobatServerMessage::Ready);
                    proof {
                        assert(frames@.len() == rows@.len() + 2);
                        assert(match frames@[0] {
                            MicrobatServerMessage::DataDescription(d) => d.columns@
                                == schema.columns@,
                            _ => false,
                        });
                    }
                },
                Err(e) => {
                    frames.push(MicrobatServerMessage::Error(e.msg));
                    frames.push(MicrobatServerMessage::Ready);
                },
            }
            (frames, true)
        },
    }
}

/// One column of the seeded schemas.
fn seed_column(name: &str, data_type: MDataType) -> (r: Column)
    ensures
        r.name@ == name@,
        r.data_type == data_type,
{
    Column::new(name.to_owned(), data_type)
}

/// A seeded three-value row: an id, a name and an age.
pub open spec fn spec_person_row(row: Seq<MData>, id: i32, name: Seq<char>, age: i32) -> bool {
    &&& row.len() == 3
    &&& row[0] == MData::Integer(id)
    &&& (row[1] matches MData::Varchar(s) && s@ == name)
    &&& row[2] == MData::Integer(age)
}

/// A seeded two-value row: an id and a name.
pub open spec fn spec_pair_row(row: Seq<MData>, id: i32, name: Seq<char>) -> bool {
    &&& row.len() == 2
    &&& row[0] == MData::Integer(id)
    &&& (row[1] matches MData::Varchar(s) && s@ == name)
}

/// A row of the seeded `PEOPLE` table.
fn person_row(id: i32, name: &str, age: i32) -> (r: Vec<MData>)
    ensures
        spec_person_row(r@, id, name@, age),
{
    let mut row: Vec<MData> = Vec::new();
    row.push(MData::Integer(id));
    row.push(MData::Varchar(name.to_owned()));
    row.push(MData::Integer(age));
    row
}

/// A row of the seeded two-column tables.
fn pair_row(id: i32, name: &str) -> (r: Vec<MData>)
    ensures
        spec_pair_row(r@, id, name@),
{
    let mut row: Vec<MData> = Vec::new();
    row.push(MData::Integer(id));
    row.push(MData::Varchar(name.to_owned()));
    row
}

/// The catalog a fresh server starts with: the sample tables `PEOPLE`,
/// `DEPARTMENTS` and `MODES`, in that order, with the seeded rows pinned
/// below, in insertion order.
pub fn initial_catalog() -> (r: InMemoryManager)
    ensures
        r.wf(),
        r.tables@.len() == 3,
        r.data@.len() == 3,
        r.tables@[0].name@ == "PEOPLE"@,
        r.tables@[0].schema.columns@.len() == 3,
        r.tables@[0].schema.columns@[0].name@ == "id"@,
        r.tables@[0].schema.columns@[0].data_type == MDataType::Integer,
        r.tables@[0].schema.columns@[1].name@ == "name"@,
        r.tables@[0].schema.columns@[1].data_type == MDataType::Varchar,
        r.tables@[0].schema.columns@[2].name@ == "age"@,
        r.tables@[0].schema.columns@[2].data_type == MDataType::Integer,
        r.data@[0]@.len() == 5,
        spec_person_row(r.data@[0]@[0]@, 1, "Juho"@, 40),
        spec_person_row(r.data@[0]@[1]@, 2, "Simo"@, 19),
        spec_person_row(r.data@[0]@[2]@, 3, "Hermanni"@, 48),
        spec_person_row(r.data@[0]@[3]@, 4, "Taavetti"@, 32),
        spec_person_row(r.data@[0]@[4]@, 5, "Metusalem"@, 85),
        r.tables@[1].name@ == "DEPARTMENTS"@,
        r.tables@[1].schema.columns@.len() == 2,
        r.tables@[1].schema.columns@[0].name@ == "id_dep"@,
        r.tables@[1].schema.columns@[0].data_type == MDataType::Integer,
        r.tables@[1].schema.columns@[1].name@ == "name_dep"@,
        r.tables@[1].schema.columns@[1].data_type == MDataType::Varchar,
        r.data@[1]@.len() == 5,
        spec_pair_row(r.data@[1]@[0]@, 1, "Rustland"@),
        spec_pair_row(r.data@[1]@[1]@, 2, "Goland"@),
        spec_pair_row(r.data@[1]@[2]@, 3, "Javaland"@),
        spec_pair_row(r.data@[1]@[3]@, 4, "Cppland"@),
        spec_pair_row(r.data@[1]@[4]@, 5, "Nodejsland"@),
        r.tables@[2].name@ == "MODES"@,
        r.tables@[2].schema.columns@.len() == 2,
        r.tables@[2].schema.columns@[0].name@ == "id_mode"@,
        r.tables@[2].schema.columns@[0].data_type == MDataType::Integer,
        r.tables@[2].schema.columns@[1].name@ == "name_mode"@,
        r.tables@[2].schema.columns@[1].data_type == MDataType::Varchar,
        r.data@[2]@.len() == 3,
        spec_pair_row(r.data@[2]@[0]@, 1, "soft"@),
        spec_pair_row(r.data@[2]@[1]@, 2, "medium"@),
        spec_pair_row(r.data@[2]@[2]@, 3, "hard"@),
{
    let mut people_columns: Vec<Column> = Vec::new();
    people_columns.push(seed_column("id", MDataType::Integer));
    people_columns.push(seed_column("name", MDataType::Varchar));
    people_columns.push(seed_column("age", MDataType::Integer));
    let mut people_rows: Vec<Vec<MData>> = Vec::new();
    people_rows.push(person_row(1, "Juho", 40));
    people_rows.push(person_row(2, "Simo", 19));
    people_rows.push(person_row(3, "Hermanni", 48));
    people_rows.push(person_row(4, "Taavetti", 32));
    people_rows.push(person_row(5, "Metusalem", 85));

    let mut department_columns: Vec<Column> = Vec::new();
    department_columns.push(seed_column("id_dep", MDataType::Integer));
    department_columns.push(seed_column("name_dep", MDataType::Varchar));
    let mut department_rows: Vec<Vec<MData>> = Vec::new();
    department_rows.push(pair_row(1, "Rustland"));
    department_rows.push(pair_row(2, "Goland"));
    department_rows.push(pair_row(3, "Javaland"));
    department_rows.push(pair_row(4, "Cppland"));
    department_rows.push(pair_row(5, "Nodejsland"));

    let mut mode_columns: Vec<Column> = Vec::new();
    mode_columns.push(seed_column("id_mode", MDataType::Integer));
    mode_columns.push(seed_column("name_mode", MDataType::Varchar));
    let mut mode_rows: Vec<Vec<MData>> = Vec::new();
    mode_rows.push(pair_row(1, "soft"));
    mode_rows.push(pair_row(2, "medium"));
    mode_rows.push(pair_row(3, "hard"));

    let mut tables: Vec<TableMetadata> = Vec::new();
    tables.push(TableMetadata { name: "PEOPLE".to_owned(), schema: TableSchema { columns: people_columns } });
    tables.push(
        TableMetadata {
            name: "DEPARTMENTS".to_owned(),
            schema: TableSchema { columns: department_columns },
        },
    );
    tables.push(TableMetadata { name: "MODES".to_owned(), schema: TableSchema { columns: mode_columns } });
    let mut data: Vec<Vec<Vec<MData>>> = Vec::new();
    data.push(people_rows);
    data.push(department_rows);
    data.push(mode_rows);
    let manager = InMemoryManager { tables, data };
    proof {
        reveal_strlit("PEOPLE");
        reveal_strlit("DEPARTMENTS");
        reveal_strlit("MODES");
        assert("PEOPLE"@.len() == 6);
        assert("DEPARTMENTS"@.len() == 11);
        assert("MODES"@.len() == 5);
        assert forall|i: int, j: int|
            0 <= i < j < manager.tables@.len() implies (#[trigger] manager.tables@[i]).name@ != (
            #[trigger] manager.tables@[j]).name@ by {
            if i == 0 && j == 1 {
                assert(manager.tables@[0].name@ != manager.tables@[1].name@);
            } else if i == 0 && j == 2 {
                assert(manager.tables@[0].name@ != manager.tables@[2].name@);
            } else {
                assert(manager.tables@[1].name@ != manager.tables@[2].name@);
            }
        }
        assert forall|i: int|
            0 <= i < manager.tables@.len() implies (#[trigger] manager.tables@[i]).schema.wf() by {
            if i == 0 {
            } else if i == 1 {
            } else {
            }
        }
        assert forall|t: int, r: int|
            0 <= t < manager.data@.len() && 0 <= r < manager.data@[t]@.len() implies spec_row_matches(
            manager.tables@[t].schema,
            (#[trigger] manager.data@[t]@[r])@,
        ) by {
            if t == 0 {
                if r == 0 {
                    assert(spec_row_matches(manager.tables@[0].schema, manager.data@[0]@[0]@));
                } else if r == 1 {
                    assert(spec_row_matches(manager.tables@[0].schema, manager.data@[0]@[1]@));
                } else if r == 2 {
                    assert(spec_row_matches(manager.tables@[0].schema, manager.data@[0]@[2]@));
                } else if r == 3 {
                    assert(spec_row_matches(manager.tables@[0].schema, manager.data@[0]@[3]@));
                } else if r == 4 {
                    assert(spec_row_matches(manager.tables@[0].schema, manager.data@[0]@[4]@));
                }
            } else if t == 1 {
                if r == 0 {
                    assert(spec_row_matches(manager.tables@[1].schema, manager.data@[1]@[0]@));
                } else if r == 1 {
                    assert(spec_row_matches(manager.tables@[1].schema, manager.data@[1]@[1]@));
                } else if r == 2 {
                    assert(spec_row_matches(manager.tables@[1].schema, manager.data@[1]@[2]@));
                } else if r == 3 {
                    assert(spec_row_matches(manager.tables@[1].schema, manager.data@[1]@[3]@));
                } else if r == 4 {
                    assert(spec_row_matches(manager.tables@[1].schema, manager.data@[1]@[4]@));
                }
            } else {
                if r == 0 {
                    assert(spec_row_matches(manager.tables@[2].schema, manager.data@[2]@[0]@));
                } else if r == 1 {
                    assert(spec_row_matches(manager.tables@[2].schema, manager.data@[2]@[1]@));
                } else if r == 2 {
                    assert(spec_row_matches(manager.tables@[2].schema, manager.data@[2]@[2]@));
                }
            }
        }
    }
    manager
}

} // verus!
