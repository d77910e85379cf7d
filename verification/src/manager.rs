//! The in-memory catalog: named tables, their schemas, and append-only row
//! storage, with create, insert, fetch and query operations.

use vstd::prelude::*;

use crate::data::{clone_values, Column, DataError, DataRow, MData};
use crate::expression::{
    spec_eval, spec_eval_err_text, spec_schema_column, spec_schema_column_err_text, Expression,
};
use crate::table_model::{spec_row_matches, RelationTable, TableSchema};

verus! {

/// A table's name and schema.
#[derive(Debug)]
pub struct TableMetadata {
    pub name: String,
    pub schema: TableSchema,
}

/// The index of the first table with the given name.
pub open spec fn spec_find_table(tables: Seq<TableMetadata>, name: Seq<char>) -> Option<int>
    decreases tables.len(),
{
    if tables.len() == 0 {
        None
    } else if tables[0].name@ == name {
        Some(0int)
    } else {
        match spec_find_table(tables.drop_first(), name) {
            Some(j) => Some(j + 1),
            None => None,
        }
    }
}

/// A found table index is in bounds and is the first match; a missing one
/// means no table has the name.
pub proof fn lemma_find_table_found(tables: Seq<TableMetadata>, name: Seq<char>)
    ensures
        (match spec_find_table(tables, name) {
            Some(j) => 0 <= j < tables.len() && tables[j].name@ == name && forall|k: int|
                0 <= k < j ==> (#[trigger] tables[k]).name@ != name,
            None => forall|k: int| 0 <= k < tables.len() ==> (#[trigger] tables[k]).name@ != name,
        }),
    decreases tables.len(),
{
    if tables.len() > 0 {
        lemma_find_table_found(tables.drop_first(), name);
        if tables[0].name@ != name {
            match spec_find_table(tables.drop_first(), name) {
                Some(j) => {
                    assert(tables[j + 1] == tables.drop_first()[j]);
                    assert forall|k: int| 0 <= k < j + 1 implies (#[trigger] tables[k]).name@
                        != name by {
                        if k > 0 {
                            assert(tables[k] == tables.drop_first()[k - 1]);
                        }
                    }
                },
                None => {
                    assert forall|k: int| 0 <= k < tables.len() implies (#[trigger] tables[k]).name@
                        != name by {
                        if k > 0 {
                            assert(tables[k] == tables.drop_first()[k - 1]);
                        }
                    }
                },
            }
        }
    }
}

/// The first match determines the result of the table search.
pub proof fn lemma_find_table_first(tables: Seq<TableMetadata>, name: Seq<char>, i: int)
    requires
        0 <= i < tables.len(),
        tables[i].name@ == name,
        forall|k: int| 0 <= k < i ==> (#[trigger] tables[k]).name@ != name,
    ensures
        spec_find_table(tables, name) == Some(i),
    decreases tables.len(),
{
    if i > 0 {
        assert(forall|k: int|
            0 <= k < tables.drop_first().len() ==> (#[trigger] tables.drop_first()[k]) == tables[k
                + 1]);
        lemma_find_table_first(tables.drop_first(), name, i - 1);
    }
}

/// The in-memory database: tables and their rows, paired by position.
/// Iteration order is creation order for tables and insertion order for rows.
pub struct InMemoryManager {
    pub tables: Vec<TableMetadata>,
    pub data: Vec<Vec<Vec<MData>>>,
}

impl InMemoryManager {
    /// The catalog invariant: tables and row storage are paired one to one,
    /// table names are unique, every schema is non-empty, and every stored
    /// row conforms to its table's schema.
    pub open spec fn wf(&self) -> bool {
        &&& self.tables@.len() == self.data@.len()
        &&& forall|i: int, j: int|
            0 <= i < j < self.tables@.len() ==> (#[trigger] self.tables@[i]).name@ != (
            #[trigger] self.tables@[j]).name@
        &&& forall|i: int| 0 <= i < self.tables@.len() ==> (#[trigger] self.tables@[i]).schema.wf()
        &&& forall|t: int, r: int|
            0 <= t < self.data@.len() && 0 <= r < self.data@[t]@.len() ==> spec_row_matches(
                self.tables@[t].schema,
                (#[trigger] self.data@[t]@[r])@,
            )
    }

    pub fn new() -> (r: InMemoryManager)
        ensures
            r.wf(),
            r.tables@.len() == 0,
            r.data@.len() == 0,
    {
        InMemoryManager { tables: Vec::new(), data: Vec::new() }
    }

    /// The index of the table with the given name, if any.
    fn find_table(&self, name: &str) -> (r: Option<usize>)
        ensures
            (match r {
                Some(i) => spec_find_table(self.tables@, name@) == Some(i as int) && i
                    < self.tables@.len(),
                None => spec_find_table(self.tables@, name@) is None,
            }),
    {
        let mut i: usize = 0;
        let len = self.tables.len();
        #[verifier::loop_isolation(false)]
        while i < len
            invariant
                i <= len,
                forall|k: int| 0 <= k < i ==> (#[trigger] self.tables@[k]).name@ != name@,
            decreases len - i,
        {
            if chars_eq(self.tables[i].name.as_str(), name) {
                proof {
                    lemma_find_table_first(self.tables@, name@, i as int);
                }
                return Some(i);
            }
            i = i + 1;
        }
        proof {
            lemma_find_table_found(self.tables@, name@);
        }
        None
    }

    /// The names of all tables, in creation order.
    pub fn get_tables(&self) -> (r: Result<Vec<String>, DataError>)
        ensures
            (match r {
                Ok(names) => names@.len() == self.tables@.len() && forall|i: int|
                    0 <= i < names@.len() ==> (#[trigger] names@[i])@ == self.tables@[i].name@,
                Err(_) => false,
            }),
    {
        let mut names: Vec<String> = Vec::new();
        let mut i: usize = 0;
        let len = self.tables.len();
        #[verifier::loop_isolation(false)]
        while i < len
            invariant
                i <= len,
                names@.len() == i,
                forall|k: int| 0 <= k < i ==> (#[trigger] names@[k])@ == self.tables@[k].name@,
            decreases len - i,
        {
            names.push(self.tables[i].name.clone());
            i = i + 1;
        }
        Ok(names)
    }

    /// The metadata of the named table; fails when no table has the name.
    pub fn get_table_meta(&self, name: &str) -> (r: Result<&TableMetadata, DataError>)
        ensures
            (match r {
                Ok(meta) => spec_find_table(self.tables@, name@) matches Some(j) && *meta
                    == self.tables@[j],
                Err(e) => spec_find_table(self.tables@, name@) is None && e.msg@ == "No such table: "@
                    + name@,
            }),
    {
        match self.find_table(name) {
            Some(i) => Ok(&self.tables[i]),
            None => {
                let mut msg = "No such table: ".to_owned();
                msg.append(name);
                Err(DataError { msg })
            },
        }
    }

    /// Creates a table with the given columns and empty row storage. Fails
    /// when the name is taken or the column list is empty; the catalog is
    /// then unchanged.
    pub fn create_table(&mut self, name: String, columns: Vec<Column>) -> (r: Result<(), DataError>)
        requires
            old(self).wf(),
        ensures
            final(self).wf(),
            (match r {
                Ok(_) => {
                    &&& spec_find_table(old(self).tables@, name@) is None
                    &&& columns@.len() >= 1
                    &&& final(self).tables@.len() == old(self).tables@.len() + 1
                    &&& final(self).tables@ == old(self).tables@.push(
                        final(self).tables@.last(),
                    )
                    &&& final(self).tables@.last().name@ == name@
                    &&& final(self).tables@.last().schema.columns@ == columns@
                    &&& final(self).data@ == old(self).data@.push(final(self).data@.last())
                    &&& final(self).data@.last()@.len() == 0
                },
                Err(e) => {
                    &&& *final(self) == *old(self)
                    &&& (spec_find_table(old(self).tables@, name@) is Some || columns@.len() == 0)
                    &&& (spec_find_table(old(self).tables@, name@) matches Some(_) ==> e.msg@
                        == "Table already exists: "@ + name@)
                },
            }),
    {
        match self.find_table(name.as_str()) {
            Some(_) => {
                let mut msg = "Table already exists: ".to_owned();
                msg.append(name.as_str());
                Err(DataError { msg })
            },
            None => {
                let schema = match TableSchema::new(columns) {
                    Ok(schema) => schema,
                    Err(e) => {
                        return Err(e);
                    },
                };
                proof {
                    lemma_find_table_found(self.tables@, name@);
                }
                self.tables.push(TableMetadata { name, schema });
                self.data.push(Vec::new());
                proof {
                    assert(final(self).data@.last()@ =~= Seq::<Vec<MData>>::empty());
                }
                Ok(())
            },
        }
    }

    /// Appends one row to the named table after checking its arity and each
    /// value's type against the table's schema. A failed check leaves the
    /// catalog unchanged.
    pub fn insert(&mut self, table_name: &str, columns: Vec<MData>) -> (r: Result<(), DataError>)
        requires
            old(self).wf(),
        ensures
            final(self).wf(),
            (match r {
                Ok(_) => {
                    &&& (spec_find_table(old(self).tables@, table_name@) matches Some(j)
                        ==> spec_row_matches(old(self).tables@[j].schema, columns@) && final(self).data@
                        == old(self).data@.update(j, final(self).data@[j]) && final(self).data@[j]@
                        == old(self).data@[j]@.push(columns))
                    &&& spec_find_table(old(self).tables@, table_name@) is Some
                    &&& final(self).tables@ == old(self).tables@
                },
                Err(_) => {
                    &&& *final(self) == *old(self)
                    &&& (match spec_find_table(old(self).tables@, table_name@) {
                        Some(j) => !spec_row_matches(old(self).tables@[j].schema, columns@),
                        None => true,
                    })
                },
            }),
    {
        let table_index = match self.find_table(table_name) {
            Some(i) => i,
            None => {
                let mut msg = "No such table: ".to_owned();
                msg.append(table_name);
                return Err(DataError { msg });
            },
        };
        let schema_len = self.tables[table_index].schema.len();
        if columns.len() != schema_len {
            return Err(DataError { msg: "Column count mismatch".to_owned() });
        }
        let mut index: usize = 0;
        #[verifier::loop_isolation(false)]
        while index < schema_len
            invariant
                index <= schema_len,
                forall|k: int|
                    0 <= k < index ==> (#[trigger] columns@[k].spec_matcher()) == self.tables@[
                        table_index as int
                    ].schema.columns@[k].data_type,
            decreases schema_len - index,
        {
            if !self.tables[table_index].schema.matches_at(index, columns[index].matcher()) {
                return Err(DataError { msg: "Can't put this here".to_owned() });
            }
            index = index + 1;
        }
        let row_store = &mut self.data[table_index];
        row_store.push(columns);
        proof {
            assert(final(self).data@ =~= old(self).data@.update(
                table_index as int,
                final(self).data@[table_index as int],
            ));
        }
        Ok(())
    }

    /// A deep copy of all rows of the named table, in insertion order.
    pub fn fetch(&self, table_name: &str) -> (r: Result<Vec<Vec<MData>>, DataError>)
        requires
            self.wf(),
        ensures
            (match r {
                Ok(rows) => spec_find_table(self.tables@, table_name@) matches Some(j) && rows@.len()
                    == self.data@[j]@.len() && forall|i: int|
                    0 <= i < rows@.len() ==> (#[trigger] rows@[i])@ == self.data@[j]@[i]@,
                Err(_) => spec_find_table(self.tables@, table_name@) is None,
            }),
    {
        let table_index = match self.find_table(table_name) {
            Some(i) => i,
            None => {
                let mut msg = "No such table: ".to_owned();
                msg.append(table_name);
                return Err(DataError { msg });
            },
        };
        let stored = &self.data[table_index];
        let mut result: Vec<Vec<MData>> = Vec::new();
        let mut i: usize = 0;
        let len = stored.len();
        #[verifier::loop_isolation(false)]
        while i < len
            invariant
                i <= len,
                result@.len() == i,
                forall|k: int| 0 <= k < i ==> (#[trigger] result@[k])@ == stored@[k]@,
            decreases len - i,
        {
            result.push(clone_values(&stored[i]));
            i = i + 1;
        }
        Ok(result)
    }
}

/// The index the table search found, with a missing table as zero.
pub open spec fn spec_table_index(tables: Seq<TableMetadata>, name: Seq<char>) -> int {
    match spec_find_table(tables, name) {
        Some(j) => j,
        None => 0,
    }
}

impl InMemoryManager {
    /// Runs a projection over the named table: computes the result schema by
    /// asking each expression for its column at its position, then evaluates
    /// every expression against each stored row, in insertion order.
    pub fn query(&self, table_name: &str, projection: Vec<Expression>) -> (r: Result<
        RelationTable,
        DataError,
    >)
        requires
            self.wf(),
        ensures
            (match r {
                Ok(rel) => {
                    let j = spec_table_index(self.tables@, table_name@);
                    let base = self.tables@[j].schema;
                    &&& spec_find_table(self.tables@, table_name@) is Some
                    &&& projection@.len() >= 1
                    &&& rel.schema.columns@.len() == projection@.len()
                    &&& forall|i: int|
                        0 <= i < projection@.len() ==> spec_schema_column(
                            #[trigger] projection@[i],
                            base.columns@,
                            i,
                        ) == Some(
                            (rel.schema.columns@[i].name@, rel.schema.columns@[i].data_type),
                        )
                    &&& rel.rows@.len() == self.data@[j]@.len()
                    &&& forall|rr: int, i: int|
                        0 <= rr < rel.rows@.len() && 0 <= i < projection@.len() ==> spec_eval(
                            projection@[i],
                            base.columns@,
                            self.data@[j]@[rr]@,
                        ) == Some(#[trigger] rel.rows@[rr].columns@[i])
                    &&& rel.wf()
                },
                Err(_) => {
                    let j = spec_table_index(self.tables@, table_name@);
                    let base = self.tables@[j].schema;
                    ||| spec_find_table(self.tables@, table_name@) is None
                    ||| projection@.len() == 0
                    ||| exists|i: int|
                        0 <= i < projection@.len() && spec_schema_column(
                            #[trigger] projection@[i],
                            base.columns@,
                            i,
                        ) is None
                    ||| exists|rr: int, i: int|
                        0 <= rr < self.data@[j]@.len() && 0 <= i < projection@.len()
                            && (#[trigger] spec_eval(
                            projection@[i],
                            base.columns@,
                            self.data@[j]@[rr]@,
                        )) is None
                },
            }),
            (match r {
                Ok(_) => true,
                Err(e) => {
                    let j = spec_table_index(self.tables@, table_name@);
                    let base = self.tables@[j].schema;
                    ||| (spec_find_table(self.tables@, table_name@) is None && e.msg@
                        == "No such table: "@ + table_name@)
                    ||| exists|i: int|
                        0 <= i < projection@.len() && (#[trigger] spec_schema_column(
                            projection@[i],
                            base.columns@,
                            i,
                        )) is None && (forall|k: int|
                            0 <= k < i ==> (#[trigger] spec_schema_column(
                                projection@[k],
                                base.columns@,
                                k,
                            )) is Some) && e.msg@ == spec_schema_column_err_text(projection@[i])
                    ||| (projection@.len() == 0 && e.msg@ == "Can't build empty schema"@)
                    ||| exists|rr: int, i: int|
                        0 <= rr < self.data@[j]@.len() && 0 <= i < projection@.len()
                            && (#[trigger] spec_eval(
                            projection@[i],
                            base.columns@,
                            self.data@[j]@[rr]@,
                        )) is None && (forall|r2: int, i2: int|
                            0 <= r2 < rr && 0 <= i2 < projection@.len() ==> (#[trigger] spec_eval(
                                projection@[i2],
                                base.columns@,
                                self.data@[j]@[r2]@,
                            )) is Some) && (forall|i2: int|
                            0 <= i2 < i ==> spec_eval(
                                #[trigger] projection@[i2],
                                base.columns@,
                                self.data@[j]@[rr]@,
                            ) is Some) && e.msg@ == spec_eval_err_text(
                            projection@[i],
                            base.columns@,
                            self.data@[j]@[rr]@,
                        )
                },
            }),
    {
        let table_index = match self.find_table(table_name) {
            Some(i) => i,
            None => {
                let mut msg = "No such table: ".to_owned();
                msg.append(table_name);
                return Err(DataError { msg });
            },
        };
        let mut schema_columns: Vec<Column> = Vec::new();
        let mut index: usize = 0;
        let projection_len = projection.len();
        #[verifier::loop_isolation(false)]
        while index < projection_len
            invariant
                index <= projection_len,
                schema_columns@.len() == index,
                forall|i: int|
                    0 <= i < index ==> spec_schema_column(
                        #[trigger] projection@[i],
                        self.tables@[table_index as int].schema.columns@,
                        i,
                    ) == Some((schema_columns@[i].name@, schema_columns@[i].data_type)),
            decreases projection_len - index,
        {
            match projection[index].schema_column(&self.tables[table_index].schema, index) {
                Ok(column) => {
                    schema_columns.push(column);
                },
                Err(e) => {
                    proof {
                        assert(spec_table_index(self.tables@, table_name@) == table_index as int);
                        assert((spec_schema_column(
                            projection@[index as int],
                            self.tables@[spec_table_index(
                                self.tables@,
                                table_name@,
                            )].schema.columns@,
                            index as int,
                        )) is None);
                    }
                    return Err(DataError { msg: e.msg });
                },
            }
            index = index + 1;
        }
        let result_schema = match TableSchema::new(schema_columns) {
            Ok(schema) => schema,
            Err(e) => {
                return Err(e);
            },
        };
        let mut relation = RelationTable::new(result_schema);
        let stored = &self.data[table_index];
        let row_count = stored.len();
        let mut rr: usize = 0;
        #[verifier::loop_isolation(false)]
        while rr < row_count
            invariant
                rr <= row_count,
                relation.schema.columns@.len() == projection@.len(),
                forall|i: int|
                    0 <= i < projection@.len() ==> spec_schema_column(
                        #[trigger] projection@[i],
                        self.tables@[table_index as int].schema.columns@,
                        i,
                    ) == Some(
                        (relation.schema.columns@[i].name@, relation.schema.columns@[i].data_type),
                    ),
                relation.rows@.len() == rr,
                forall|r2: int, i: int|
                    0 <= r2 < rr && 0 <= i < projection@.len() ==> spec_eval(
                        projection@[i],
                        self.tables@[table_index as int].schema.columns@,
                        stored@[r2]@,
                    ) == Some(#[trigger] relation.rows@[r2].columns@[i]),
                relation.wf(),
            decreases row_count - rr,
        {
            let mut relation_row: Vec<MData> = Vec::new();
            let mut i: usize = 0;
            #[verifier::loop_isolation(false)]
            while i < projection_len
                invariant
                    i <= projection_len,
                    rr < row_count,
                    relation_row@.len() == i,
                    forall|k: int|
                        0 <= k < i ==> spec_eval(
                            projection@[k],
                            self.tables@[table_index as int].schema.columns@,
                            stored@[rr as int]@,
                        ) == Some(#[trigger] relation_row@[k]),
                decreases projection_len - i,
            {
                match projection[i].eval(&self.tables[table_index].schema, &stored[rr]) {
                    Ok(value) => {
                        relation_row.push(value);
                    },
                    Err(e) => {
                        proof {
                            assert(spec_table_index(self.tables@, table_name@)
                                == table_index as int);
                            assert((spec_eval(
                                projection@[i as int],
                                self.tables@[spec_table_index(
                                    self.tables@,
                                    table_name@,
                                )].schema.columns@,
                                self.data@[spec_table_index(self.tables@, table_name@)]@[
                                    rr as int
                                ]@,
                            )) is None);
                            assert forall|r2: int, i2: int|
                                0 <= r2 < rr && 0 <= i2 < projection@.len() implies (
                            #[trigger] spec_eval(
                                projection@[i2],
                                self.tables@[spec_table_index(
                                    self.tables@,
                                    table_name@,
                                )].schema.columns@,
                                self.data@[spec_table_index(self.tables@, table_name@)]@[r2]@,
                            )) is Some by {
                                assert(self.data@[spec_table_index(self.tables@, table_name@)]@[r2]
                                    == stored@[r2]);
                                assert(spec_eval(
                                    projection@[i2],
                                    self.tables@[table_index as int].schema.columns@,
                                    stored@[r2]@,
                                ) == Some(relation.rows@[r2].columns@[i2]));
                            }
                            assert forall|i2: int| 0 <= i2 < i implies spec_eval(
                                #[trigger] projection@[i2],
                                self.tables@[spec_table_index(
                                    self.tables@,
                                    table_name@,
                                )].schema.columns@,
                                self.data@[spec_table_index(self.tables@, table_name@)]@[
                                    rr as int
                                ]@,
                            ) is Some by {
                                assert(self.data@[spec_table_index(self.tables@, table_name@)]@[
                                    rr as int
                                ] == stored@[rr as int]);
                                assert(spec_eval(
                                    projection@[i2],
                                    self.tables@[table_index as int].schema.columns@,
                                    stored@[rr as int]@,
                                ) == Some(relation_row@[i2]));
                            }
                        }
                        return Err(DataError { msg: e.msg });
                    },
                }
                i = i + 1;
            }
            proof {
                assert forall|k: int| 0 <= k < projection@.len() implies (
                #[trigger] relation_row@[k]).spec_matcher()
                    == relation.schema.columns@[k].data_type by {
                    crate::expression::lemma_projection_type_soundness(
                        projection@[k],
                        self.tables@[table_index as int].schema.columns@,
                        stored@[rr as int]@,
                        k,
                    );
                }
            }
            match relation.push_row(relation_row) {
                Ok(_) => {},
                Err(e) => {
                    return Err(e);
                },
            }
            rr = rr + 1;
        }
        Ok(relation)
    }
}

/// The operations a database backend offers: listing and describing tables,
/// creating them, and inserting, fetching and querying rows. Every backend
/// carries an invariant that the mutating operations preserve.
/// `InMemoryManager` is the backend this crate provides; its own methods
/// carry the exact contracts.
pub trait DatabaseManager: Sized {
    /// The backend's own catalog invariant.
    spec fn inv(&self) -> bool;

    fn get_tables(&self) -> (r: Result<Vec<String>, DataError>)
        requires
            self.inv(),
    ;

    fn get_table_meta(&self, name: &str) -> (r: Result<&TableMetadata, DataError>)
        requires
            self.inv(),
    ;

    fn create_table(&mut self, name: String, columns: Vec<Column>) -> (r: Result<(), DataError>)
        requires
            old(self).inv(),
        ensures
            final(self).inv(),
    ;

    fn insert(&mut self, table_name: &str, columns: Vec<MData>) -> (r: Result<(), DataError>)
        requires
            old(self).inv(),
        ensures
            final(self).inv(),
    ;

    fn fetch(&self, table_name: &str) -> (r: Result<Vec<Vec<MData>>, DataError>)
        requires
            self.inv(),
    ;

    fn query(&self, table_name: &str, projection: Vec<Expression>) -> (r: Result<
        RelationTable,
        DataError,
    >)
        requires
            self.inv(),
    ;
}

impl DatabaseManager for InMemoryManager {
    open spec fn inv(&self) -> bool {
        self.wf()
    }

    fn get_tables(&self) -> (r: Result<Vec<String>, DataError>) {
        InMemoryManager::get_tables(self)
    }

    fn get_table_meta(&self, name: &str) -> (r: Result<&TableMetadata, DataError>) {
        InMemoryManager::get_table_meta(self, name)
    }

    fn create_table(&mut self, name: String, columns: Vec<Column>) -> (r: Result<(), DataError>) {
        InMemoryManager::create_table(self, name, columns)
    }

    fn insert(&mut self, table_name: &str, columns: Vec<MData>) -> (r: Result<(), DataError>) {
        InMemoryManager::insert(self, table_name, columns)
    }

    fn fetch(&self, table_name: &str) -> (r: Result<Vec<Vec<MData>>, DataError>) {
        InMemoryManager::fetch(self, table_name)
    }

    fn query(&self, table_name: &str, projection: Vec<Expression>) -> (r: Result<
        RelationTable,
        DataError,
    >) {
        InMemoryManager::query(self, table_name, projection)
    }
}

/// Catalog law: a successful insert appends exactly the one row to the named
/// table. The table then holds one more row, the new row is last, every
/// earlier row keeps its place, every other table is untouched, and the table
/// is still found under its name. (A failed insert leaves the whole catalog
/// unchanged: that is part of `insert`'s own contract.)
pub proof fn lemma_fetch_after_insert(
    pre: InMemoryManager,
    post: InMemoryManager,
    name: Seq<char>,
    row: Vec<MData>,
    j: int,
)
    requires
        spec_find_table(pre.tables@, name) == Some(j),
        post.tables@ == pre.tables@,
        post.data@ == pre.data@.update(j, post.data@[j]),
        post.data@[j]@ == pre.data@[j]@.push(row),
        pre.data@.len() == pre.tables@.len(),
    ensures
        0 <= j < post.data@.len(),
        post.data@[j]@.len() == pre.data@[j]@.len() + 1,
        post.data@[j]@.last() == row,
        forall|r: int| 0 <= r < pre.data@[j]@.len() ==> post.data@[j]@[r] == pre.data@[j]@[r],
        forall|t: int|
            0 <= t < pre.data@.len() && t != j ==> post.data@[t] == (#[trigger] pre.data@[t]),
        spec_find_table(post.tables@, name) == Some(j),
{
    lemma_find_table_found(pre.tables@, name);
}

/// Compares two strings character for character.
fn chars_eq(a: &str, b: &str) -> (r: bool)
    ensures
        r == (a@ == b@),
{
    let la = a.unicode_len();
    let lb = b.unicode_len();
    if la != lb {
        return false;
    }
    let mut i: usize = 0;
    while i < la
        invariant
            i <= la,
            la == a@.len(),
            la == b@.len(),
            forall|j: int| 0 <= j < i ==> a@[j] == b@[j],
        decreases la - i,
    {
        if a.get_char(i) != b.get_char(i) {
            return false;
        }
        i = i + 1;
    }
    proof {
        assert(a@ =~= b@);
    }
    true
}

} // verus!
