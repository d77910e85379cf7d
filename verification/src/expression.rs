//! Expression trees and their evaluation against a schema and a row.
//!
//! The meaning of every tree is pinned by [`spec_eval`]; the schema of the
//! column an expression contributes to a projection by [`spec_schema_column`].

use vstd::prelude::*;

use crate::data::{Column, DataError, MData, MDataType};
use crate::table_model::TableSchema;
use crate::text::{spec_dec_digits, spec_upper, to_upper, usize_to_dec_string};

verus! {

/// Error raised when an expression cannot be evaluated: an unsupported
/// operand combination or a missing column.
#[derive(Debug)]
pub struct EvaluationError {
    pub msg: String,
}

impl EvaluationError {
    /// Wraps a data-layer failure.
    pub fn from_data(value: DataError) -> (r: Self)
        ensures
            r.msg@ == value.msg@,
    {
        EvaluationError { msg: value.msg }
    }
}

/// An integer literal.
#[derive(Debug)]
pub struct LeafExpression {
    pub value: i32,
}

impl LeafExpression {
    pub fn new(value: i32) -> (r: Self)
        ensures
            r.value == value,
    {
        LeafExpression { value }
    }
}

/// A reference to a column, held upper-cased for case-insensitive lookup.
#[derive(Debug)]
pub struct ReferenceExpression {
    pub name: String,
}

impl ReferenceExpression {
    pub fn new(name: String) -> (r: Self)
        ensures
            r.name@ == name@,
    {
        ReferenceExpression { name }
    }
}

/// Negation of a subexpression.
#[derive(Debug)]
pub struct NegateExpression {
    pub expression: Box<Expression>,
}

/// The binary operators.
#[derive(Debug, PartialEq, Eq, Structural, Clone, Copy)]
pub enum Operation {
    Plus,
    Minus,
}

/// A binary operation on two subexpressions.
#[derive(Debug)]
pub struct OperationExpression {
    pub operation: Operation,
    pub left: Box<Expression>,
    pub right: Box<Expression>,
}

/// A subexpression renamed by `AS`.
#[derive(Debug)]
pub struct AsExpression {
    pub name: String,
    pub expression: Box<Expression>,
}

impl AsExpression {
    pub fn new(name: String, expression: Box<Expression>) -> (r: Self)
        ensures
            r.name@ == name@,
            r.expression == expression,
    {
        AsExpression { name, expression }
    }
}

/// An expression tree: an integer leaf, a column reference, a negation, a
/// binary operation, or an alias.
#[derive(Debug)]
pub enum Expression {
    Leaf(LeafExpression),
    Reference(ReferenceExpression),
    Negate(NegateExpression),
    Operation(OperationExpression),
    Alias(AsExpression),
}

/// The index of the first column whose upper-cased name equals `name`.
pub open spec fn spec_find_col(schema: Seq<Column>, name: Seq<char>) -> Option<int>
    decreases schema.len(),
{
    if schema.len() == 0 {
        None
    } else if spec_upper(schema[0].name@) == name {
        Some(0int)
    } else {
        match spec_find_col(schema.drop_first(), name) {
            Some(j) => Some(j + 1),
            None => None,
        }
    }
}

/// A found column index is in bounds and is the first match.
pub proof fn lemma_find_col_found(schema: Seq<Column>, name: Seq<char>)
    ensures
        (match spec_find_col(schema, name) {
            Some(j) => 0 <= j < schema.len() && spec_upper(schema[j].name@) == name && forall|
                k: int,
            |
                0 <= k < j ==> spec_upper((#[trigger] schema[k]).name@) != name,
            None => forall|k: int|
                0 <= k < schema.len() ==> spec_upper((#[trigger] schema[k]).name@) != name,
        }),
    decreases schema.len(),
{
    if schema.len() > 0 {
        lemma_find_col_found(schema.drop_first(), name);
        if spec_upper(schema[0].name@) != name {
            match spec_find_col(schema.drop_first(), name) {
                Some(j) => {
                    assert(schema[j + 1] == schema.drop_first()[j]);
                    assert forall|k: int| 0 <= k < j + 1 implies spec_upper(
                        (#[trigger] schema[k]).name@,
                    ) != name by {
                        if k > 0 {
                            assert(schema[k] == schema.drop_first()[k - 1]);
                        }
                    }
                },
                None => {
                    assert forall|k: int| 0 <= k < schema.len() implies spec_upper(
                        (#[trigger] schema[k]).name@,
                    ) != name by {
                        if k > 0 {
                            assert(schema[k] == schema.drop_first()[k - 1]);
                        }
                    }
                },
            }
        }
    }
}

/// The first match determines the result of the column search.
pub proof fn lemma_find_col_first(schema: Seq<Column>, name: Seq<char>, i: int)
    requires
        0 <= i < schema.len(),
        spec_upper(schema[i].name@) == name,
        forall|k: int| 0 <= k < i ==> spec_upper((#[trigger] schema[k]).name@) != name,
    ensures
        spec_find_col(schema, name) == Some(i),
    decreases schema.len(),
{
    if i > 0 {
        assert(forall|k: int|
            0 <= k < schema.drop_first().len() ==> (#[trigger] schema.drop_first()[k]) == schema[k
                + 1]);
        lemma_find_col_first(schema.drop_first(), name, i - 1);
    }
}

/// Negation that wraps on the one unrepresentable case.
pub open spec fn spec_wrap_neg(v: i32) -> i32 {
    if v == -0x80000000 {
        v
    } else {
        (0 - v) as i32
    }
}

/// The value of an expression under a schema and a row: an integer leaf is
/// itself; a reference is the row's value at the first column whose
/// upper-cased name matches; negation and the binary operators work on
/// integers only, wrapping on overflow; an alias evaluates its body. `None`
/// is an evaluation error.
pub open spec fn spec_eval(e: Expression, schema: Seq<Column>, row: Seq<MData>) -> Option<MData>
    decreases e,
{
    match e {
        Expression::Leaf(l) => Some(MData::Integer(l.value)),
        Expression::Reference(r) => match spec_find_col(schema, r.name@) {
            Some(j) => if 0 <= j < row.len() {
                Some(row[j])
            } else {
                None
            },
            None => None,
        },
        Expression::Negate(n) => match spec_eval(*n.expression, schema, row) {
            Some(MData::Integer(v)) => Some(MData::Integer(spec_wrap_neg(v))),
            _ => None,
        },
        Expression::Operation(o) => match (
            spec_eval(*o.left, schema, row),
            spec_eval(*o.right, schema, row),
        ) {
            (Some(MData::Integer(l)), Some(MData::Integer(r))) => match o.operation {
                Operation::Plus => Some(MData::Integer(l.wrapping_add(r))),
                Operation::Minus => Some(MData::Integer(l.wrapping_sub(r))),
            },
            _ => None,
        },
        Expression::Alias(a) => spec_eval(*a.expression, schema, row),
    }
}

/// The name and type of the result column an expression contributes at a
/// projection position: leaves and operations make an integer column named
/// after the position; a reference keeps its name and the column's declared
/// type; negation delegates; an alias renames.
pub open spec fn spec_schema_column(e: Expression, schema: Seq<Column>, index: int) -> Option<
    (Seq<char>, MDataType),
>
    decreases e,
{
    match e {
        Expression::Leaf(_) => Some(
            (("column_"@ + spec_dec_digits(index)), MDataType::Integer),
        ),
        Expression::Reference(r) => match spec_find_col(schema, r.name@) {
            Some(j) => Some((r.name@, schema[j].data_type)),
            None => None,
        },
        Expression::Negate(n) => spec_schema_column(*n.expression, schema, index),
        Expression::Operation(_) => Some(
            (("column_"@ + spec_dec_digits(index)), MDataType::Integer),
        ),
        Expression::Alias(a) => match spec_schema_column(*a.expression, schema, index) {
            Some(c) => Some((a.name@, c.1)),
            None => None,
        },
    }
}

/// The message a failing result-column computation reports: the missing
/// column named by the reference the failure came from.
pub open spec fn spec_schema_column_err_text(e: Expression) -> Seq<char>
    decreases e,
{
    match e {
        Expression::Reference(rf) => "No such column "@ + rf.name@,
        Expression::Negate(n) => spec_schema_column_err_text(*n.expression),
        Expression::Alias(a) => spec_schema_column_err_text(*a.expression),
        _ => Seq::<char>::empty(),
    }
}

/// The message a failing evaluation reports: the first failure in evaluation
/// order, left operands before right ones.
pub open spec fn spec_eval_err_text(e: Expression, schema: Seq<Column>, row: Seq<MData>) -> Seq<
    char,
>
    decreases e,
{
    match e {
        Expression::Leaf(_) => Seq::<char>::empty(),
        Expression::Reference(rf) => "No such column "@ + rf.name@,
        Expression::Negate(n) => match spec_eval(*n.expression, schema, row) {
            Some(MData::Integer(_)) => Seq::<char>::empty(),
            Some(_) => "Can't negate a value that is not an integer"@,
            None => spec_eval_err_text(*n.expression, schema, row),
        },
        Expression::Operation(o) => match spec_eval(*o.left, schema, row) {
            None => spec_eval_err_text(*o.left, schema, row),
            Some(lv) => match spec_eval(*o.right, schema, row) {
                None => spec_eval_err_text(*o.right, schema, row),
                Some(rv) => match (lv, rv) {
                    (MData::Integer(_), MData::Integer(_)) => Seq::<char>::empty(),
                    _ => match o.operation {
                        Operation::Plus => "Can't apply plus on these operands"@,
                        Operation::Minus => "Can't apply minus on these operands"@,
                    },
                },
            },
        },
        Expression::Alias(a) => spec_eval_err_text(*a.expression, schema, row),
    }
}

impl Expression {
    /// Evaluates this expression against a schema and one row of values, per
    /// [`spec_eval`]. The row must have the schema's arity.
    pub fn eval(&self, schema: &TableSchema, row: &Vec<MData>) -> (r: Result<
        MData,
        EvaluationError,
    >)
        requires
            row@.len() == schema.columns@.len(),
        ensures
            (match r {
                Ok(v) => spec_eval(*self, schema.columns@, row@) == Some(v),
                Err(_) => spec_eval(*self, schema.columns@, row@) is None,
            }),
            (r matches Err(e) ==> e.msg@ == spec_eval_err_text(*self, schema.columns@, row@)),
        decreases *self,
    {
        match self {
            Expression::Leaf(l) => Ok(MData::Integer(l.value)),
            Expression::Reference(reference) => {
                let mut i: usize = 0;
                let len = schema.columns.len();
                #[verifier::loop_isolation(false)]
                while i < len
                    invariant
                        i <= len,
                        len == schema.columns@.len(),
                        forall|k: int|
                            0 <= k < i ==> spec_upper((#[trigger] schema.columns@[k]).name@)
                                != reference.name@,
                    decreases len - i,
                {
                    let upper = to_upper(schema.columns[i].name.as_str());
                    if upper == reference.name {
                        proof {
                            lemma_find_col_first(schema.columns@, reference.name@, i as int);
                        }
                        return Ok(row[i].clone());
                    }
                    i = i + 1;
                }
                proof {
                    lemma_find_col_found(schema.columns@, reference.name@);
                }
                let mut msg = "No such column ".to_owned();
                msg.append(reference.name.as_str());
                Err(EvaluationError { msg })
            },
            Expression::Negate(n) => {
                match n.expression.eval(schema, row) {
                    Ok(MData::Integer(v)) => {
                        let negated = if v == -0x80000000 {
                            v
                        } else {
                            -v
                        };
                        Ok(MData::Integer(negated))
                    },
                    Ok(_) => Err(
                        EvaluationError {
                            msg: "Can't negate a value that is not an integer".to_owned(),
                        },
                    ),
                    Err(e) => Err(e),
                }
            },
            Expression::Operation(o) => {
                let l = match o.left.eval(schema, row) {
                    Ok(v) => v,
                    Err(e) => {
                        return Err(e);
                    },
                };
                let r = match o.right.eval(schema, row) {
                    Ok(v) => v,
                    Err(e) => {
                        return Err(e);
                    },
                };
                let applied = match o.operation {
                    Operation::Plus => l.apply_plus(r),
                    Operation::Minus => l.apply_minus(r),
                };
                match applied {
                    Ok(v) => Ok(v),
                    Err(e) => Err(EvaluationError::from_data(e)),
                }
            },
            Expression::Alias(a) => a.expression.eval(schema, row),
        }
    }

    /// The result column this expression contributes when used as the
    /// projection at position `index`, per [`spec_schema_column`].
    pub fn schema_column(&self, schema: &TableSchema, index: usize) -> (r: Result<
        Column,
        EvaluationError,
    >)
        ensures
            (match r {
                Ok(c) => spec_schema_column(*self, schema.columns@, index as int) == Some(
                    (c.name@, c.data_type),
                ),
                Err(_) => spec_schema_column(*self, schema.columns@, index as int) is None,
            }),
            (r matches Err(e) ==> e.msg@ == spec_schema_column_err_text(*self)),
        decreases *self,
    {
        match self {
            Expression::Leaf(_) => {
                let mut name = "column_".to_owned();
                name.append(usize_to_dec_string(index).as_str());
                Ok(Column::new(name, MDataType::Integer))
            },
            Expression::Operation(_) => {
                let mut name = "column_".to_owned();
                name.append(usize_to_dec_string(index).as_str());
                Ok(Column::new(name, MDataType::Integer))
            },
            Expression::Reference(reference) => {
                let mut i: usize = 0;
                let len = schema.columns.len();
                #[verifier::loop_isolation(false)]
                while i < len
                    invariant
                        i <= len,
                        len == schema.columns@.len(),
                        forall|k: int|
                            0 <= k < i ==> spec_upper((#[trigger] schema.columns@[k]).name@)
                                != reference.name@,
                    decreases len - i,
                {
                    let upper = to_upper(schema.columns[i].name.as_str());
                    if upper == reference.name {
                        proof {
                            lemma_find_col_first(schema.columns@, reference.name@, i as int);
                        }
                        let data_type = schema.columns[i].data_type;
                        return Ok(Column::new(reference.name.clone(), data_type));
                    }
                    i = i + 1;
                }
                proof {
                    lemma_find_col_found(schema.columns@, reference.name@);
                }
                let mut msg = "No such column ".to_owned();
                msg.append(reference.name.as_str());
                Err(EvaluationError { msg })
            },
            Expression::Negate(n) => n.expression.schema_column(schema, index),
            Expression::Alias(a) => {
                match a.expression.schema_column(schema, index) {
                    Ok(sub) => Ok(Column::new(a.name.clone(), sub.data_type)),
                    Err(e) => Err(e),
                }
            },
        }
    }
}

/// Projection type soundness: when a row conforms to the schema, a value an
/// expression evaluates to always has the type that the expression declares
/// for its result column.
pub proof fn lemma_projection_type_soundness(
    e: Expression,
    schema: Seq<Column>,
    row: Seq<MData>,
    index: int,
)
    requires
        row.len() == schema.len(),
        forall|i: int|
            0 <= i < row.len() ==> (#[trigger] row[i].spec_matcher()) == schema[i].data_type,
    ensures
        (match (spec_schema_column(e, schema, index), spec_eval(e, schema, row)) {
            (Some(c), Some(v)) => v.spec_matcher() == c.1,
            _ => true,
        }),
    decreases e,
{
    match e {
        Expression::Leaf(_) => {},
        Expression::Reference(r) => {
            lemma_find_col_found(schema, r.name@);
        },
        Expression::Negate(n) => {
            lemma_projection_type_soundness(*n.expression, schema, row, index);
        },
        Expression::Operation(_) => {},
        Expression::Alias(a) => {
            lemma_projection_type_soundness(*a.expression, schema, row, index);
        },
    }
}

/// The value of a specification-level expression tree, mirroring
/// [`spec_eval`] on the trees that [`crate::parser::expr_view`] produces.
pub open spec fn spec_eval_view(
    e: crate::parser::SpecExpr,
    schema: Seq<Column>,
    row: Seq<MData>,
) -> Option<MData>
    decreases e,
{
    match e {
        crate::parser::SpecExpr::Leaf(v) => Some(MData::Integer(v)),
        crate::parser::SpecExpr::Reference(name) => match spec_find_col(schema, name) {
            Some(j) => if 0 <= j < row.len() {
                Some(row[j])
            } else {
                None
            },
            None => None,
        },
        crate::parser::SpecExpr::Negate(inner) => match spec_eval_view(*inner, schema, row) {
            Some(MData::Integer(v)) => Some(MData::Integer(spec_wrap_neg(v))),
            _ => None,
        },
        crate::parser::SpecExpr::Operation(op, l, r) => match (
            spec_eval_view(*l, schema, row),
            spec_eval_view(*r, schema, row),
        ) {
            (Some(MData::Integer(a)), Some(MData::Integer(b))) => match op {
                Operation::Plus => Some(MData::Integer(a.wrapping_add(b))),
                Operation::Minus => Some(MData::Integer(a.wrapping_sub(b))),
            },
            _ => None,
        },
        crate::parser::SpecExpr::Alias(_, inner) => spec_eval_view(*inner, schema, row),
    }
}

/// The result column of a specification-level expression tree, mirroring
/// [`spec_schema_column`].
pub open spec fn spec_schema_column_view(
    e: crate::parser::SpecExpr,
    schema: Seq<Column>,
    index: int,
) -> Option<(Seq<char>, MDataType)>
    decreases e,
{
    match e {
        crate::parser::SpecExpr::Leaf(_) => Some(
            (("column_"@ + spec_dec_digits(index)), MDataType::Integer),
        ),
        crate::parser::SpecExpr::Reference(name) => match spec_find_col(schema, name) {
            Some(j) => Some((name, schema[j].data_type)),
            None => None,
        },
        crate::parser::SpecExpr::Negate(inner) => spec_schema_column_view(*inner, schema, index),
        crate::parser::SpecExpr::Operation(_, _, _) => Some(
            (("column_"@ + spec_dec_digits(index)), MDataType::Integer),
        ),
        crate::parser::SpecExpr::Alias(name, inner) => match spec_schema_column_view(
            *inner,
            schema,
            index,
        ) {
            Some(c) => Some((name, c.1)),
            None => None,
        },
    }
}

/// Evaluation factors through the expression view: a tree and its
/// specification-level view evaluate alike.
pub proof fn lemma_eval_by_view(e: Expression, schema: Seq<Column>, row: Seq<MData>)
    ensures
        spec_eval_view(crate::parser::expr_view(e), schema, row) == spec_eval(e, schema, row),
    decreases e,
{
    match e {
        Expression::Leaf(_) => {},
        Expression::Reference(_) => {},
        Expression::Negate(n) => {
            lemma_eval_by_view(*n.expression, schema, row);
        },
        Expression::Operation(o) => {
            lemma_eval_by_view(*o.left, schema, row);
            lemma_eval_by_view(*o.right, schema, row);
        },
        Expression::Alias(a) => {
            lemma_eval_by_view(*a.expression, schema, row);
        },
    }
}

/// The result column likewise factors through the expression view.
pub proof fn lemma_schema_column_by_view(e: Expression, schema: Seq<Column>, index: int)
    ensures
        spec_schema_column_view(crate::parser::expr_view(e), schema, index) == spec_schema_column(
            e,
            schema,
            index,
        ),
    decreases e,
{
    match e {
        Expression::Leaf(_) => {},
        Expression::Reference(_) => {},
        Expression::Negate(n) => {
            lemma_schema_column_by_view(*n.expression, schema, index);
        },
        Expression::Operation(_) => {},
        Expression::Alias(a) => {
            lemma_schema_column_by_view(*a.expression, schema, index);
        },
    }
}

/// The failing-column message of a specification-level tree, mirroring
/// [`spec_schema_column_err_text`].
pub open spec fn spec_schema_column_err_text_view(e: crate::parser::SpecExpr) -> Seq<char>
    decreases e,
{
    match e {
        crate::parser::SpecExpr::Reference(name) => "No such column "@ + name,
        crate::parser::SpecExpr::Negate(inner) => spec_schema_column_err_text_view(*inner),
        crate::parser::SpecExpr::Alias(_, inner) => spec_schema_column_err_text_view(*inner),
        _ => Seq::<char>::empty(),
    }
}

/// The failing-evaluation message of a specification-level tree, mirroring
/// [`spec_eval_err_text`].
pub open spec fn spec_eval_err_text_view(
    e: crate::parser::SpecExpr,
    schema: Seq<Column>,
    row: Seq<MData>,
) -> Seq<char>
    decreases e,
{
    match e {
        crate::parser::SpecExpr::Leaf(_) => Seq::<char>::empty(),
        crate::parser::SpecExpr::Reference(name) => "No such column "@ + name,
        crate::parser::SpecExpr::Negate(inner) => match spec_eval_view(*inner, schema, row) {
            Some(MData::Integer(_)) => Seq::<char>::empty(),
            Some(_) => "Can't negate a value that is not an integer"@,
            None => spec_eval_err_text_view(*inner, schema, row),
        },
        crate::parser::SpecExpr::Operation(op, l, r) => match spec_eval_view(*l, schema, row) {
            None => spec_eval_err_text_view(*l, schema, row),
            Some(lv) => match spec_eval_view(*r, schema, row) {
                None => spec_eval_err_text_view(*r, schema, row),
                Some(rv) => match (lv, rv) {
                    (MData::Integer(_), MData::Integer(_)) => Seq::<char>::empty(),
                    _ => match op {
                        Operation::Plus => "Can't apply plus on these operands"@,
                        Operation::Minus => "Can't apply minus on these operands"@,
                    },
                },
            },
        },
        crate::parser::SpecExpr::Alias(_, inner) => spec_eval_err_text_view(*inner, schema, row),
    }
}

/// The failing-column message likewise factors through the expression view.
pub proof fn lemma_schema_column_err_text_by_view(e: Expression)
    ensures
        spec_schema_column_err_text_view(crate::parser::expr_view(e))
            == spec_schema_column_err_text(e),
    decreases e,
{
    match e {
        Expression::Negate(n) => {
            lemma_schema_column_err_text_by_view(*n.expression);
        },
        Expression::Alias(a) => {
            lemma_schema_column_err_text_by_view(*a.expression);
        },
        _ => {},
    }
}

/// The failing-evaluation message likewise factors through the expression
/// view.
pub proof fn lemma_eval_err_text_by_view(e: Expression, schema: Seq<Column>, row: Seq<MData>)
    ensures
        spec_eval_err_text_view(crate::parser::expr_view(e), schema, row) == spec_eval_err_text(
            e,
            schema,
            row,
        ),
    decreases e,
{
    match e {
        Expression::Negate(n) => {
            lemma_eval_by_view(*n.expression, schema, row);
            lemma_eval_err_text_by_view(*n.expression, schema, row);
        },
        Expression::Operation(o) => {
            lemma_eval_by_view(*o.left, schema, row);
            lemma_eval_by_view(*o.right, schema, row);
            lemma_eval_err_text_by_view(*o.left, schema, row);
            lemma_eval_err_text_by_view(*o.right, schema, row);
        },
        Expression::Alias(a) => {
            lemma_eval_err_text_by_view(*a.expression, schema, row);
        },
        _ => {},
    }
}

/// Integer evaluation of the arithmetic subset, over the unbounded integers.
pub open spec fn spec_math_eval(e: Expression) -> Option<int>
    decreases e,
{
    match e {
        Expression::Leaf(l) => Some(l.value as int),
        Expression::Negate(n) => match spec_math_eval(*n.expression) {
            Some(v) => Some(0 - v),
            None => None,
        },
        Expression::Operation(o) => match (spec_math_eval(*o.left), spec_math_eval(*o.right)) {
            (Some(a), Some(b)) => match o.operation {
                Operation::Plus => Some(a + b),
                Operation::Minus => Some(a - b),
            },
            _ => None,
        },
        _ => None,
    }
}

pub open spec fn in_i32(v: int) -> bool {
    -0x80000000 <= v <= 0x7fffffff
}

/// True when an expression lies in the arithmetic subset and every
/// intermediate value fits 32 signed bits.
pub open spec fn spec_math_in_range(e: Expression) -> bool
    decreases e,
{
    match e {
        Expression::Leaf(_) => true,
        Expression::Negate(n) => spec_math_in_range(*n.expression) && (match spec_math_eval(
            *n.expression,
        ) {
            Some(v) => in_i32(0 - v),
            None => false,
        }),
        Expression::Operation(o) => spec_math_in_range(*o.left) && spec_math_in_range(*o.right) && (
        match (spec_math_eval(*o.left), spec_math_eval(*o.right)) {
            (Some(a), Some(b)) => match o.operation {
                Operation::Plus => in_i32(a + b),
                Operation::Minus => in_i32(a - b),
            },
            _ => false,
        }),
        _ => false,
    }
}

/// The value of the arithmetic subset, with an error as zero.
pub open spec fn spec_math_value(e: Expression) -> int {
    match spec_math_eval(e) {
        Some(v) => v,
        None => 0,
    }
}

/// Evaluation matches standard integer semantics on the arithmetic subset:
/// whenever every intermediate value fits 32 signed bits, an expression of
/// leaves, negations, additions and subtractions evaluates, under any schema
/// and row, to exactly its value over the unbounded integers.
pub proof fn lemma_arithmetic_semantics(e: Expression, schema: Seq<Column>, row: Seq<MData>)
    requires
        spec_math_in_range(e),
    ensures
        spec_math_eval(e) == Some(spec_math_value(e)),
        in_i32(spec_math_value(e)),
        spec_eval(e, schema, row) == Some(MData::Integer(spec_math_value(e) as i32)),
    decreases e,
{
    match e {
        Expression::Leaf(_) => {},
        Expression::Negate(n) => {
            lemma_arithmetic_semantics(*n.expression, schema, row);
            let v = spec_math_value(*n.expression);
            assert(spec_wrap_neg(v as i32) == (0 - v) as i32);
        },
        Expression::Operation(o) => {
            lemma_arithmetic_semantics(*o.left, schema, row);
            lemma_arithmetic_semantics(*o.right, schema, row);
        },
        _ => {},
    }
}

} // verus!
