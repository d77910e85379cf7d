//! Rendering of query results as text: mutation summaries, and bordered
//! ASCII tables with column widths sized to their contents.

use vstd::prelude::*;

use crate::data::{Column, MData};
use crate::text::{push_char, spec_dec_digits, spec_i32_dec, i32_to_dec_string, u32_to_dec_string, u64_to_dec_string, usize_to_dec_string};

verus! {

/// A renderable result received from the server.
pub enum QueryExecutionResult {
    DataTable(RenderableQueryResult),
    Mutation(RenderableMutationResult),
}

/// The kind of a mutation, as reported to the user.
#[derive(Debug, PartialEq, Eq, Structural, Clone, Copy)]
pub enum MutationKind {
    INSERT,
    UPDATE,
    DELETE,
}

/// The past-tense label of a mutation kind.
pub open spec fn spec_kind_label(kind: MutationKind) -> Seq<char> {
    match kind {
        MutationKind::INSERT => "Inserted"@,
        MutationKind::UPDATE => "Updated"@,
        MutationKind::DELETE => "Deleted"@,
    }
}

impl MutationKind {
    pub fn label(&self) -> (r: &'static str)
        ensures
            r@ == spec_kind_label(*self),
    {
        match self {
            MutationKind::INSERT => "Inserted",
            MutationKind::UPDATE => "Updated",
            MutationKind::DELETE => "Deleted",
        }
    }
}

/// The text of a mutation summary: the kind's label, the row count, and the
/// elapsed milliseconds.
pub open spec fn spec_mutation_text(kind: MutationKind, rows_affected: u32, time_ms: u64) -> Seq<
    char,
> {
    spec_kind_label(kind) + " "@ + spec_dec_digits(rows_affected as int) + " rows\n\n"@
        + "Query took "@ + spec_dec_digits(time_ms as int) + " ms."@
}

/// The outcome of a mutation, with the time it took in milliseconds.
pub struct RenderableMutationResult {
    pub kind: MutationKind,
    pub rows_affected: u32,
    pub time_ms: u64,
}

impl RenderableMutationResult {
    pub fn new(kind: MutationKind, rows_affected: u32, time_ms: u64) -> (r: Self)
        ensures
            r.kind == kind,
            r.rows_affected == rows_affected,
            r.time_ms == time_ms,
    {
        RenderableMutationResult { kind, rows_affected, time_ms }
    }

    /// The rendered summary, per [`spec_mutation_text`].
    pub fn render(&self) -> (r: String)
        ensures
            r@ == spec_mutation_text(self.kind, self.rows_affected, self.time_ms),
    {
        let mut out = self.kind.label().to_owned();
        out.append(" ");
        out.append(u32_to_dec_string(self.rows_affected).as_str());
        out.append(" rows\n\n");
        out.append("Query took ");
        out.append(u64_to_dec_string(self.time_ms).as_str());
        out.append(" ms.");
        proof {
            assert(out@ =~= spec_mutation_text(self.kind, self.rows_affected, self.time_ms));
        }
        out
    }
}

/// The given character repeated `n` times.
pub open spec fn spec_repeat(c: char, n: int) -> Seq<char>
    decreases n,
{
    if n <= 0 {
        Seq::<char>::empty()
    } else {
        spec_repeat(c, n - 1).push(c)
    }
}

fn repeat(c: char, n: usize) -> (r: String)
    ensures
        r@ == spec_repeat(c, n as int),
{
    let mut out = String::new();
    let mut i: usize = 0;
    while i < n
        invariant
            i <= n,
            out@ == spec_repeat(c, i as int),
        decreases n - i,
    {
        push_char(&mut out, c);
        i = i + 1;
    }
    out
}

/// The textual form of one cell: `null`, the string itself, or the decimal
/// rendering of the integer.
pub open spec fn spec_cell_text(d: MData) -> Seq<char> {
    match d {
        MData::Null => "null"@,
        MData::Varchar(s) => s@,
        MData::Integer(v) => spec_i32_dec(v as int),
    }
}

fn cell_text(d: &MData) -> (r: String)
    ensures
        r@ == spec_cell_text(*d),
{
    match d {
        MData::Null => "null".to_owned(),
        MData::Varchar(s) => s.clone(),
        MData::Integer(v) => i32_to_dec_string(*v),
    }
}

/// The widest content of column `index`: the column's name or any cell's
/// text, whichever has more characters.
pub open spec fn spec_col_longest(
    columns: Seq<Column>,
    rows: Seq<Vec<MData>>,
    index: int,
) -> int
    decreases rows.len(),
{
    if rows.len() == 0 {
        columns[index].name@.len() as int
    } else {
        let rest = spec_col_longest(columns, rows.drop_last(), index);
        let cell = spec_cell_text(rows.last()@[index]).len() as int;
        if cell > rest {
            cell
        } else {
            rest
        }
    }
}

/// A capped increment, for the one extra space of padding.
pub open spec fn spec_pad_width(n: int) -> int {
    if n < usize::MAX {
        n + 1
    } else {
        n
    }
}

/// The padding of column `index`: one more than its widest content.
pub open spec fn spec_padding(columns: Seq<Column>, rows: Seq<Vec<MData>>, index: int) -> int {
    spec_pad_width(spec_col_longest(columns, rows, index))
}

/// The dashes of a border line, one group per column.
pub open spec fn spec_border_cells(paddings: Seq<usize>, n: int) -> Seq<char>
    decreases n,
{
    if n <= 0 {
        Seq::<char>::empty()
    } else {
        spec_border_cells(paddings, n - 1) + "-"@ + spec_repeat('-', paddings[n - 1] as int) + "-"@
    }
}

/// A whole border line.
pub open spec fn spec_border_line(paddings: Seq<usize>) -> Seq<char> {
    "-"@ + spec_border_cells(paddings, paddings.len() as int) + "\n"@
}

/// One padded cell: a bar, a space, the text, and spaces up to the padding.
pub open spec fn spec_padded_cell(text: Seq<char>, padding: int) -> Seq<char> {
    "| "@ + text + spec_repeat(' ', padding - text.len())
}

/// The header cells of the first `n` columns.
pub open spec fn spec_header_cells(columns: Seq<Column>, paddings: Seq<usize>, n: int) -> Seq<char>
    decreases n,
{
    if n <= 0 {
        Seq::<char>::empty()
    } else {
        spec_header_cells(columns, paddings, n - 1) + spec_padded_cell(
            columns[n - 1].name@,
            paddings[n - 1] as int,
        )
    }
}

/// The cells of one data row, up to column `n`.
pub open spec fn spec_row_cells(row: Seq<MData>, paddings: Seq<usize>, n: int) -> Seq<char>
    decreases n,
{
    if n <= 0 {
        Seq::<char>::empty()
    } else {
        spec_row_cells(row, paddings, n - 1) + spec_padded_cell(
            spec_cell_text(row[n - 1]),
            paddings[n - 1] as int,
        )
    }
}

/// The lines of the first `m` data rows.
pub open spec fn spec_row_lines(rows: Seq<Vec<MData>>, paddings: Seq<usize>, m: int) -> Seq<char>
    decreases m,
{
    if m <= 0 {
        Seq::<char>::empty()
    } else {
        spec_row_lines(rows, paddings, m - 1) + spec_row_cells(
            rows[m - 1]@,
            paddings,
            rows[m - 1]@.len() as int,
        ) + "|\n"@
    }
}

/// The whole rendered table: a border, the header, a border, the data rows,
/// a border, the row count, and the elapsed milliseconds.
pub open spec fn spec_table_text(
    columns: Seq<Column>,
    rows: Seq<Vec<MData>>,
    paddings: Seq<usize>,
    time_ms: u64,
) -> Seq<char> {
    spec_border_line(paddings) + spec_header_cells(columns, paddings, columns.len() as int) + "|\n"@
        + spec_border_line(paddings) + spec_row_lines(rows, paddings, rows.len() as int)
        + spec_border_line(paddings) + "\n("@ + spec_dec_digits(rows.len() as int) + " rows)\n\n"@
        + "Query took "@ + spec_dec_digits(time_ms as int) + " ms."@
}

/// A query result ready to render: columns, rows, the elapsed time, and the
/// padding computed for each column.
pub struct RenderableQueryResult {
    pub columns: Vec<Column>,
    pub rows: Vec<Vec<MData>>,
    pub time_ms: u64,
    pub paddings: Vec<usize>,
}

impl RenderableQueryResult {
    /// Every row has the schema's arity and every padding is one more than
    /// its column's widest content.
    pub open spec fn wf(&self) -> bool {
        &&& self.paddings@.len() == self.columns@.len()
        &&& forall|r: int|
            0 <= r < self.rows@.len() ==> (#[trigger] self.rows@[r])@.len() == self.columns@.len()
        &&& forall|i: int|
            0 <= i < self.columns@.len() ==> (#[trigger] self.paddings@[i]) as int == spec_padding(
                self.columns@,
                self.rows@,
                i,
            )
    }

    /// Builds a renderable result, computing the paddings from the column
    /// names and cell contents.
    pub fn new(columns: Vec<Column>, rows: Vec<Vec<MData>>, time_ms: u64) -> (r: Self)
        requires
            forall|r: int| 0 <= r < rows@.len() ==> (#[trigger] rows@[r])@.len() == columns@.len(),
        ensures
            r.wf(),
            r.columns@ == columns@,
            r.rows@ == rows@,
            r.time_ms == time_ms,
    {
        let paddings = Self::paddings(&columns, &rows);
        RenderableQueryResult { columns, rows, time_ms, paddings }
    }

    /// How many rows this result holds.
    pub fn row_count(&self) -> (r: usize)
        ensures
            r == self.rows@.len(),
    {
        self.rows.len()
    }

    /// The padding of each column: one more than its widest content.
    fn paddings(columns: &Vec<Column>, rows: &Vec<Vec<MData>>) -> (r: Vec<usize>)
        requires
            forall|k: int| 0 <= k < rows@.len() ==> (#[trigger] rows@[k])@.len() == columns@.len(),
        ensures
            r@.len() == columns@.len(),
            forall|i: int|
                0 <= i < columns@.len() ==> (#[trigger] r@[i]) as int == spec_padding(
                    columns@,
                    rows@,
                    i,
                ),
    {
        let mut paddings: Vec<usize> = Vec::new();
        let mut index: usize = 0;
        let columns_len = columns.len();
        #[verifier::loop_isolation(false)]
        while index < columns_len
            invariant
                index <= columns_len,
                paddings@.len() == index,
                forall|i: int|
                    0 <= i < index ==> (#[trigger] paddings@[i]) as int == spec_padding(
                        columns@,
                        rows@,
                        i,
                    ),
            decreases columns_len - index,
        {
            let mut longest = columns[index].name.as_str().unicode_len();
            let mut k: usize = 0;
            let rows_len = rows.len();
            #[verifier::loop_isolation(false)]
            while k < rows_len
                invariant
                    k <= rows_len,
                    index < columns_len,
                    longest as int == spec_col_longest(columns@, rows@.take(k as int), index as int),
                decreases rows_len - k,
            {
                let text = cell_text(&rows[k][index]);
                let length = text.as_str().unicode_len();
                if length > longest {
                    longest = length;
                }
                proof {
                    assert(rows@.take(k + 1 as int).drop_last() =~= rows@.take(k as int));
                    assert(rows@.take(k + 1 as int).last() == rows@[k as int]);
                }
                k = k + 1;
            }
            proof {
                assert(rows@.take(rows@.len() as int) =~= rows@);
            }
            let padding = if longest < usize::MAX {
                longest + 1
            } else {
                longest
            };
            paddings.push(padding);
            index = index + 1;
        }
        paddings
    }

    /// One border line.
    fn top_and_bottom_line(&self) -> (r: String)
        requires
            self.wf(),
        ensures
            r@ == spec_border_line(self.paddings@),
    {
        let mut out = "-".to_owned();
        let mut i: usize = 0;
        let len = self.paddings.len();
        #[verifier::loop_isolation(false)]
        while i < len
            invariant
                i <= len,
                out@ == "-"@ + spec_border_cells(self.paddings@, i as int),
            decreases len - i,
        {
            out.append("-");
            out.append(repeat('-', self.paddings[i]).as_str());
            out.append("-");
            i = i + 1;
        }
        out.append("\n");
        proof {
            assert(out@ =~= spec_border_line(self.paddings@));
        }
        out
    }

    /// The header line holding the column names.
    fn header_line(&self) -> (r: String)
        requires
            self.wf(),
        ensures
            r@ == spec_header_cells(self.columns@, self.paddings@, self.columns@.len() as int)
                + "|\n"@,
    {
        let mut out = String::new();
        let mut i: usize = 0;
        let len = self.columns.len();
        #[verifier::loop_isolation(false)]
        while i < len
            invariant
                i <= len,
                out@ == spec_header_cells(self.columns@, self.paddings@, i as int),
            decreases len - i,
        {
            out.append("| ");
            out.append(self.columns[i].name.as_str());
            let name_len = self.columns[i].name.as_str().unicode_len();
            if name_len < self.paddings[i] {
                out.append(repeat(' ', self.paddings[i] - name_len).as_str());
            }
            proof {
                assert(out@ =~= spec_header_cells(self.columns@, self.paddings@, i + 1 as int));
            }
            i = i + 1;
        }
        out.append("|\n");
        out
    }

    /// The lines holding the data rows.
    fn data_lines(&self) -> (r: String)
        requires
            self.wf(),
        ensures
            r@ == spec_row_lines(self.rows@, self.paddings@, self.rows@.len() as int),
    {
        let mut out = String::new();
        let mut k: usize = 0;
        let rows_len = self.rows.len();
        #[verifier::loop_isolation(false)]
        while k < rows_len
            invariant
                k <= rows_len,
                out@ == spec_row_lines(self.rows@, self.paddings@, k as int),
            decreases rows_len - k,
        {
            let row = &self.rows[k];
            let mut i: usize = 0;
            let row_len = row.len();
            #[verifier::loop_isolation(false)]
            while i < row_len
                invariant
                    i <= row_len,
                    k < rows_len,
                    row@ == self.rows@[k as int]@,
                    row_len == row@.len(),
                    out@ == spec_row_lines(self.rows@, self.paddings@, k as int) + spec_row_cells(
                        row@,
                        self.paddings@,
                        i as int,
                    ),
                decreases row_len - i,
            {
                let text = cell_text(&row[i]);
                out.append("| ");
                out.append(text.as_str());
                let text_len = text.as_str().unicode_len();
                if text_len < self.paddings[i] {
                    out.append(repeat(' ', self.paddings[i] - text_len).as_str());
                }
                proof {
                    assert(out@ =~= spec_row_lines(self.rows@, self.paddings@, k as int)
                        + spec_row_cells(row@, self.paddings@, i + 1 as int));
                }
                i = i + 1;
            }
            out.append("|\n");
            proof {
                assert(out@ =~= spec_row_lines(self.rows@, self.paddings@, k + 1 as int));
            }
            k = k + 1;
        }
        out
    }

    /// The whole rendered table, per [`spec_table_text`].
    pub fn render(&self) -> (r: String)
        requires
            self.wf(),
        ensures
            r@ == spec_table_text(self.columns@, self.rows@, self.paddings@, self.time_ms),
    {
        let mut out = self.top_and_bottom_line();
        out.append(self.header_line().as_str());
        out.append(self.top_and_bottom_line().as_str());
        out.append(self.data_lines().as_str());
        out.append(self.top_and_bottom_line().as_str());
        out.append("\n(");
        out.append(usize_to_dec_string(self.row_count()).as_str());
        out.append(" rows)\n\n");
        out.append("Query took ");
        out.append(u64_to_dec_string(self.time_ms).as_str());
        out.append(" ms.");
        proof {
            assert(out@ =~= spec_table_text(
                self.columns@,
                self.rows@,
                self.paddings@,
                self.time_ms,
            ));
        }
        out
    }
}

} // verus!
