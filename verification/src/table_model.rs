//! Schemas and relation tables: ordered typed columns, and rows that are
//! checked against them.

use vstd::prelude::*;

use crate::data::{clone_values, Column, DataError, DataRow, MData, MDataType};
use crate::text::usize_to_dec_string;

verus! {

/// A copy of a vector of columns, element for element.
pub fn clone_columns(columns: &Vec<Column>) -> (r: Vec<Column>)
    ensures
        r@ == columns@,
{
    let mut r: Vec<Column> = Vec::new();
    let mut i: usize = 0;
    while i < columns.len()
        invariant
            i <= columns@.len(),
            r@ == columns@.take(i as int),
        decreases columns@.len() - i,
    {
        r.push(columns[i].clone());
        i = i + 1;
        proof {
            assert(r@ =~= columns@.take(i as int));
        }
    }
    proof {
        assert(r@ =~= columns@);
    }
    r
}

/// The ordered, non-empty list of typed columns of a table or a result set.
#[derive(Debug, PartialEq)]
pub struct TableSchema {
    pub columns: Vec<Column>,
}

impl TableSchema {
    /// A schema is well formed when it has at least one column.
    pub open spec fn wf(&self) -> bool {
        self.columns@.len() >= 1
    }

    /// Builds a schema from columns; an empty column list is refused.
    pub fn new(columns: Vec<Column>) -> (r: Result<Self, DataError>)
        ensures
            (match r {
                Ok(s) => columns@.len() >= 1 && s.columns@ == columns@ && s.wf(),
                Err(e) => columns@.len() == 0 && e.msg@ == "Can't build empty schema"@,
            }),
    {
        if columns.is_empty() {
            return Err(DataError { msg: "Can't build empty schema".to_owned() });
        }
        Ok(TableSchema { columns })
    }

    /// True when column `index` exists and has the given type.
    pub open spec fn spec_matches_at(&self, index: int, data_type: MDataType) -> bool {
        0 <= index < self.columns@.len() && self.columns@[index].data_type == data_type
    }

    pub fn matches_at(&self, index: usize, data_type: MDataType) -> (r: bool)
        ensures
            r == self.spec_matches_at(index as int, data_type),
    {
        if index < self.columns.len() {
            self.columns[index].data_type == data_type
        } else {
            false
        }
    }

    pub fn len(&self) -> (r: usize)
        ensures
            r == self.columns@.len(),
    {
        self.columns.len()
    }

    /// Concatenates two schemas, keeping column order: first this schema's
    /// columns, then the other's.
    pub fn join(&self, other: TableSchema) -> (r: Result<Self, DataError>)
        ensures
            (match r {
                Ok(s) => s.columns@ == self.columns@ + other.columns@ && s.wf(),
                Err(_) => self.columns@.len() + other.columns@.len() == 0,
            }),
    {
        let mut columns = clone_columns(&self.columns);
        let mut more = clone_columns(&other.columns);
        columns.append(&mut more);
        proof {
            assert(columns@ =~= self.columns@ + other.columns@);
        }
        Self::new(columns)
    }
}

impl Clone for TableSchema {
    fn clone(&self) -> (r: Self)
        ensures
            r.columns@ == self.columns@,
    {
        Self { columns: clone_columns(&self.columns) }
    }
}

/// True when a row has exactly the schema's arity and each value's type
/// equals the declared type of its column.
pub open spec fn spec_row_matches(schema: TableSchema, row: Seq<MData>) -> bool {
    &&& row.len() == schema.columns@.len()
    &&& forall|i: int|
        0 <= i < row.len() ==> (#[trigger] row[i].spec_matcher()) == schema.columns@[i].data_type
}

/// A result relation: a schema and the rows that conform to it.
pub struct RelationTable {
    pub schema: TableSchema,
    pub rows: Vec<DataRow>,
}

impl RelationTable {
    /// Every stored row conforms to the schema.
    pub open spec fn wf(&self) -> bool {
        forall|i: int|
            0 <= i < self.rows@.len() ==> spec_row_matches(
                self.schema,
                (#[trigger] self.rows@[i]).columns@,
            )
    }

    pub fn new(schema: TableSchema) -> (r: Self)
        ensures
            r.schema == schema,
            r.rows@.len() == 0,
            r.wf(),
    {
        RelationTable { schema, rows: Vec::new() }
    }

    /// Appends a row after checking its arity and each value's type against
    /// the schema; a failed check leaves the relation unchanged.
    pub fn push_row(&mut self, row: Vec<MData>) -> (r: Result<(), DataError>)
        ensures
            (match r {
                Ok(_) => {
                    &&& spec_row_matches(old(self).schema, row@)
                    &&& final(self).schema == old(self).schema
                    &&& final(self).rows@ == old(self).rows@.push((DataRow { columns: row }))
                    &&& old(self).wf() ==> final(self).wf()
                },
                Err(_) => {
                    &&& !spec_row_matches(old(self).schema, row@)
                    &&& *final(self) == *old(self)
                },
            }),
    {
        if row.len() != self.schema.len() {
            let mut msg = "Trying to put ".to_owned();
            msg.append(usize_to_dec_string(row.len()).as_str());
            msg.append(" columns but schema has ");
            msg.append(usize_to_dec_string(self.schema.len()).as_str());
            msg.append(" columns");
            return Err(DataError { msg });
        }
        let mut index: usize = 0;
        while index < row.len()
            invariant
                index <= row@.len(),
                row@.len() == self.schema.columns@.len(),
                forall|i: int|
                    0 <= i < index ==> (#[trigger] row@[i].spec_matcher())
                        == self.schema.columns@[i].data_type,
            decreases row@.len() - index,
        {
            if !self.schema.matches_at(index, row[index].matcher()) {
                return Err(DataError { msg: "Can't put this value at this index".to_owned() });
            }
            index = index + 1;
        }
        self.rows.push(DataRow::new(row));
        Ok(())
    }

    pub fn len(&self) -> (r: usize)
        ensures
            r == self.rows@.len(),
    {
        self.rows.len()
    }
}

} // verus!
