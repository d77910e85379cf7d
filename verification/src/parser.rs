//! The SQL parser: `SHOW TABLES`, and `SELECT` with a projection list and an
//! optional `FROM` list. Expressions are parsed by precedence climbing.

use vstd::prelude::*;

use crate::expression::{
    Expression, LeafExpression, NegateExpression, Operation, OperationExpression,
    ReferenceExpression,
};
use crate::lexer::{spec_tokens_of, token_views, Lexer, LexingError, LexingErrors};
use crate::text::to_upper;
use crate::tokens::{token_view, SpecToken, TokenTypes};

verus! {

/// A parsed top-level statement.
#[derive(Debug)]
pub enum SqlClause {
    ShowTables,
    Select(Vec<Expression>, Vec<String>),
}

/// The kinds of parse failure: a lexing failure carried through, a token out
/// of place, an input that ends inside an expression, and a token with no
/// role as a prefix (`NoNud`) or as an infix (`NoLed`).
#[derive(Debug, PartialEq)]
pub enum ParseErrorKind {
    LexingError(LexingErrors),
    UnexpectedToken,
    EndOfTokens,
    NoNud(TokenTypes),
    NoLed(TokenTypes),
}

/// A parse failure.
#[derive(Debug)]
pub struct ParseError {
    pub kind: ParseErrorKind,
}

impl ParseError {
    /// Carries a lexing failure into the parser's error space.
    pub fn from_lexing(value: LexingError) -> (r: Self)
        ensures
            r.kind == ParseErrorKind::LexingError(value.kind),
    {
        ParseError { kind: ParseErrorKind::LexingError(value.kind) }
    }
}


/// An expression tree at the specification level: names are carried as
/// character sequences.
pub enum SpecExpr {
    Leaf(i32),
    Reference(Seq<char>),
    Negate(Box<SpecExpr>),
    Operation(Operation, Box<SpecExpr>, Box<SpecExpr>),
    Alias(Seq<char>, Box<SpecExpr>),
}

/// The specification-level view of an expression tree.
pub open spec fn expr_view(e: Expression) -> SpecExpr
    decreases e,
{
    match e {
        Expression::Leaf(l) => SpecExpr::Leaf(l.value),
        Expression::Reference(r) => SpecExpr::Reference(r.name@),
        Expression::Negate(n) => SpecExpr::Negate(Box::new(expr_view(*n.expression))),
        Expression::Operation(o) => SpecExpr::Operation(
            o.operation,
            Box::new(expr_view(*o.left)),
            Box::new(expr_view(*o.right)),
        ),
        Expression::Alias(a) => SpecExpr::Alias(a.name@, Box::new(expr_view(*a.expression))),
    }
}

/// The view of an expression list as its specification-level trees.
pub open spec fn expr_views(exprs: Seq<Expression>) -> Seq<SpecExpr> {
    exprs.map_values(|e: Expression| expr_view(e))
}

/// The view of a name list as its character sequences.
pub open spec fn name_views(names: Seq<String>) -> Seq<Seq<char>> {
    names.map_values(|s: String| s@)
}

/// A parsed statement at the specification level.
pub enum SpecClause {
    ShowTables,
    Select(Seq<SpecExpr>, Seq<Seq<char>>),
}

/// The specification-level view of a parsed statement.
pub open spec fn clause_view(c: SqlClause) -> SpecClause {
    match c {
        SqlClause::ShowTables => SpecClause::ShowTables,
        SqlClause::Select(exprs, from) => SpecClause::Select(
            expr_views(exprs@),
            name_views(from@),
        ),
    }
}

/// A parse failure at the specification level. `OutOfFuel` marks a recursion
/// allowance that ran out; any allowance above the token count never does.
pub enum SpecParseError {
    Lexing(LexingErrors),
    UnexpectedToken,
    EndOfTokens,
    NoNud(SpecToken),
    NoLed(SpecToken),
    OutOfFuel,
}

/// The specification-level view of a parse failure.
pub open spec fn parse_error_view(kind: ParseErrorKind) -> SpecParseError {
    match kind {
        ParseErrorKind::LexingError(k) => SpecParseError::Lexing(k),
        ParseErrorKind::UnexpectedToken => SpecParseError::UnexpectedToken,
        ParseErrorKind::EndOfTokens => SpecParseError::EndOfTokens,
        ParseErrorKind::NoNud(t) => SpecParseError::NoNud(token_view(t)),
        ParseErrorKind::NoLed(t) => SpecParseError::NoLed(token_view(t)),
    }
}

/// The grammar's null denotation at token `pos`: an integer leaf, an
/// upper-cased reference, a parenthesised subexpression, or a negation.
pub open spec fn spec_nud(ts: Seq<SpecToken>, pos: int, fuel: nat) -> Result<
    (SpecExpr, int),
    SpecParseError,
>
    decreases fuel, 0nat,
{
    if pos < 0 || pos >= ts.len() {
        Err(SpecParseError::EndOfTokens)
    } else {
        match ts[pos] {
            SpecToken::Identifier(name) => Ok(
                (SpecExpr::Reference(crate::text::spec_upper(name)), pos + 1),
            ),
            SpecToken::Integer(v) => Ok((SpecExpr::Leaf(v), pos + 1)),
            SpecToken::LParens => if fuel == 0 {
                Err(SpecParseError::OutOfFuel)
            } else {
                spec_parse_expression(ts, pos + 1, 0, (fuel - 1) as nat)
            },
            SpecToken::Minus => if fuel == 0 {
                Err(SpecParseError::OutOfFuel)
            } else {
                match spec_parse_expression(ts, pos + 1, 5, (fuel - 1) as nat) {
                    Ok((inner, p)) => Ok((SpecExpr::Negate(Box::new(inner)), p)),
                    Err(e) => Err(e),
                }
            },
            t => Err(SpecParseError::NoNud(t)),
        }
    }
}

/// The grammar's left denotation at token `pos` against a left side: a
/// binary `+` or `-`, or the closing parenthesis that returns the left side.
pub open spec fn spec_led(ts: Seq<SpecToken>, left: SpecExpr, pos: int, fuel: nat) -> Result<
    (SpecExpr, int),
    SpecParseError,
>
    decreases fuel, 1nat,
{
    if pos < 0 || pos >= ts.len() {
        Err(SpecParseError::EndOfTokens)
    } else {
        match ts[pos] {
            SpecToken::Plus => if fuel == 0 {
                Err(SpecParseError::OutOfFuel)
            } else {
                match spec_parse_expression(ts, pos + 1, 5, (fuel - 1) as nat) {
                    Ok((right, p)) => Ok(
                        (
                            SpecExpr::Operation(
                                Operation::Plus,
                                Box::new(left),
                                Box::new(right),
                            ),
                            p,
                        ),
                    ),
                    Err(e) => Err(e),
                }
            },
            SpecToken::Minus => if fuel == 0 {
                Err(SpecParseError::OutOfFuel)
            } else {
                match spec_parse_expression(ts, pos + 1, 5, (fuel - 1) as nat) {
                    Ok((right, p)) => Ok(
                        (
                            SpecExpr::Operation(
                                Operation::Minus,
                                Box::new(left),
                                Box::new(right),
                            ),
                            p,
                        ),
                    ),
                    Err(e) => Err(e),
                }
            },
            SpecToken::RParens => Ok((left, pos + 1)),
            t => Err(SpecParseError::NoLed(t)),
        }
    }
}

/// Left denotations applied while the peeked token binds more tightly than
/// `rbp`; an input that ends inside the expression is `EndOfTokens`.
pub open spec fn spec_led_loop(
    ts: Seq<SpecToken>,
    left: SpecExpr,
    pos: int,
    rbp: int,
    fuel: nat,
) -> Result<(SpecExpr, int), SpecParseError>
    decreases fuel, 2nat,
{
    if pos < 0 || pos >= ts.len() {
        Err(SpecParseError::EndOfTokens)
    } else if spec_rbp(ts[pos]) > rbp {
        if fuel == 0 {
            Err(SpecParseError::OutOfFuel)
        } else {
            match spec_led(ts, left, pos, fuel) {
                Ok((left2, pos2)) => spec_led_loop(ts, left2, pos2, rbp, (fuel - 1) as nat),
                Err(e) => Err(e),
            }
        }
    } else {
        Ok((left, pos))
    }
}

/// One expression of the grammar, parsed from `pos` by precedence climbing.
pub open spec fn spec_parse_expression(ts: Seq<SpecToken>, pos: int, rbp: int, fuel: nat) -> Result<
    (SpecExpr, int),
    SpecParseError,
>
    decreases fuel, 3nat,
{
    match spec_nud(ts, pos, fuel) {
        Ok((left, p)) => spec_led_loop(ts, left, p, rbp, fuel),
        Err(e) => Err(e),
    }
}

/// The comma-separated projection list of a `SELECT`, parsed from `pos`.
pub open spec fn spec_projection(ts: Seq<SpecToken>, pos: int, fuel: nat) -> Result<
    (Seq<SpecExpr>, int),
    SpecParseError,
>
    decreases fuel, 4nat,
{
    match spec_parse_expression(ts, pos, 0, fuel) {
        Ok((e, p)) => if 0 <= p < ts.len() && ts[p] is Comma {
            if fuel == 0 {
                Err(SpecParseError::OutOfFuel)
            } else {
                match spec_projection(ts, p + 1, (fuel - 1) as nat) {
                    Ok((rest, p2)) => Ok((seq![e] + rest, p2)),
                    Err(e2) => Err(e2),
                }
            }
        } else {
            Ok((seq![e], p))
        },
        Err(e) => Err(e),
    }
}

/// The comma-separated, upper-cased table names of a `FROM` list, parsed
/// from `pos`.
pub open spec fn spec_from_names(ts: Seq<SpecToken>, pos: int, fuel: nat) -> Result<
    (Seq<Seq<char>>, int),
    SpecParseError,
>
    decreases fuel, 5nat,
{
    if pos < 0 || pos >= ts.len() {
        Err(SpecParseError::UnexpectedToken)
    } else {
        match ts[pos] {
            SpecToken::Identifier(name) => {
                let p = pos + 1;
                if 0 <= p < ts.len() && ts[p] is Comma {
                    if fuel == 0 {
                        Err(SpecParseError::OutOfFuel)
                    } else {
                        match spec_from_names(ts, p + 1, (fuel - 1) as nat) {
                            Ok((rest, p2)) => Ok(
                                (seq![crate::text::spec_upper(name)] + rest, p2),
                            ),
                            Err(e) => Err(e),
                        }
                    }
                } else {
                    Ok((seq![crate::text::spec_upper(name)], p))
                }
            },
            _ => Err(SpecParseError::UnexpectedToken),
        }
    }
}

/// One whole statement of the grammar: `SHOW TABLES`, or `SELECT` with a
/// projection list and an optional `FROM` list. Tokens after the statement
/// are ignored, except that an expression at the very end of the input is
/// `EndOfTokens`.
pub open spec fn spec_statement(ts: Seq<SpecToken>, fuel: nat) -> Result<
    SpecClause,
    SpecParseError,
>
    decreases fuel, 6nat,
{
    if ts.len() == 0 {
        Err(SpecParseError::UnexpectedToken)
    } else {
        match ts[0] {
            SpecToken::Show => if ts.len() >= 2 && ts[1] is Tables {
                Ok(SpecClause::ShowTables)
            } else {
                Err(SpecParseError::UnexpectedToken)
            },
            SpecToken::Select => match spec_projection(ts, 1, fuel) {
                Ok((exprs, p)) => if 0 <= p < ts.len() && ts[p] is From {
                    match spec_from_names(ts, p + 1, fuel) {
                        Ok((names, _)) => Ok(SpecClause::Select(exprs, names)),
                        Err(e) => Err(e),
                    }
                } else {
                    Ok(SpecClause::Select(exprs, Seq::<Seq<char>>::empty()))
                },
                Err(e) => Err(e),
            },
            _ => Err(SpecParseError::UnexpectedToken),
        }
    }
}

/// The right binding power that drives precedence climbing.
pub open spec fn spec_rbp(t: SpecToken) -> int {
    match t {
        SpecToken::Integer(_) => 1,
        SpecToken::RParens => 1,
        SpecToken::Plus => 5,
        SpecToken::Minus => 5,
        SpecToken::LParens => 50,
        _ => 0,
    }
}

impl TokenTypes {
    /// The right binding power of this token.
    pub fn rbp(&self) -> (r: usize)
        ensures
            r == spec_rbp(token_view(*self)),
    {
        match self {
            TokenTypes::INTEGER(_) => 1,
            TokenTypes::PLUS => 5,
            TokenTypes::MINUS => 5,
            TokenTypes::LPARENS => 50,
            TokenTypes::RPARENS => 1,
            _ => 0,
        }
    }
}

/// Parses the null denotation of the next token: an integer leaf, an
/// upper-cased column reference, a parenthesised subexpression, or a unary
/// negation. Any other token has no prefix role and fails with `NoNud`.
fn nud(lexer: &mut Lexer) -> (r: Result<Expression, ParseError>)
    requires
        old(lexer).wf(),
    ensures
        final(lexer).tokens@ == old(lexer).tokens@,
        old(lexer).current_position <= final(lexer).current_position <= final(lexer).tokens@.len(),
        r is Ok ==> old(lexer).current_position < final(lexer).current_position,
        (match r {
            Ok(e) => forall|fuel: nat|
                fuel > old(lexer).tokens@.len() - old(lexer).current_position ==> spec_nud(
                    token_views(old(lexer).tokens@),
                    old(lexer).current_position as int,
                    fuel,
                ) == Ok::<(SpecExpr, int), SpecParseError>(
                    (expr_view(e), final(lexer).current_position as int),
                ),
            Err(e) => !(e.kind is LexingError) && forall|fuel: nat|
                fuel > old(lexer).tokens@.len() - old(lexer).current_position ==> spec_nud(
                    token_views(old(lexer).tokens@),
                    old(lexer).current_position as int,
                    fuel,
                ) == Err::<(SpecExpr, int), SpecParseError>(parse_error_view(e.kind)),
        }),
    decreases
            old(lexer).tokens@.len() - old(lexer).current_position,
            0int,
{
    let ghost ts = token_views(lexer.tokens@);
    let ghost pos = lexer.current_position as int;
    if !lexer.has_next() {
        return Err(ParseError { kind: ParseErrorKind::EndOfTokens });
    }
    proof {
        assert(ts[pos] == token_view(lexer.tokens@[pos].token_type));
    }
    let token = lexer.next();
    let token_rbp = token.token_type.rbp();
    match token.token_type {
        TokenTypes::IDENTIFIER(v) => Ok(
            Expression::Reference(ReferenceExpression::new(to_upper(v.as_str()))),
        ),
        TokenTypes::INTEGER(v) => Ok(Expression::Leaf(LeafExpression::new(v))),
        TokenTypes::LPARENS => {
            let r = parse_expression(lexer, 0);
            proof {
                lemma_nud_step(ts, pos, pos + 1, lexer.current_position as int, r);
            }
            r
        },
        TokenTypes::MINUS => {
            match parse_expression(lexer, token_rbp) {
                Ok(inner) => {
                    proof {
                        let inner_pos = lexer.current_position as int;
                        assert forall|fuel: nat| fuel > ts.len() - pos implies spec_nud(
                            ts,
                            pos,
                            fuel,
                        ) == Ok::<(SpecExpr, int), SpecParseError>(
                            (SpecExpr::Negate(Box::new(expr_view(inner))), inner_pos),
                        ) by {
                            assert(spec_parse_expression(ts, pos + 1, 5, (fuel - 1) as nat)
                                == Ok::<(SpecExpr, int), SpecParseError>(
                                (expr_view(inner), inner_pos),
                            ));
                        }
                    }
                    Ok(Expression::Negate(NegateExpression { expression: Box::new(inner) }))
                },
                Err(e) => {
                    proof {
                        assert forall|fuel: nat| fuel > ts.len() - pos implies spec_nud(
                            ts,
                            pos,
                            fuel,
                        ) == Err::<(SpecExpr, int), SpecParseError>(parse_error_view(e.kind)) by {
                            assert(spec_parse_expression(ts, pos + 1, 5, (fuel - 1) as nat)
                                == Err::<(SpecExpr, int), SpecParseError>(
                                parse_error_view(e.kind),
                            ));
                        }
                    }
                    Err(e)
                },
            }
        },
        other => Err(ParseError { kind: ParseErrorKind::NoNud(other) }),
    }
}

/// Carries a parenthesised subexpression's outcome through the grammar's
/// null denotation at the opening parenthesis.
proof fn lemma_nud_step(
    ts: Seq<SpecToken>,
    pos: int,
    pos1: int,
    new_pos: int,
    r: Result<Expression, ParseError>,
)
    requires
        0 <= pos < ts.len(),
        pos1 == pos + 1,
        ts[pos] is LParens,
        (match r {
            Ok(e) => forall|fuel: nat|
                fuel > ts.len() - pos1 ==> #[trigger] spec_parse_expression(ts, pos1, 0, fuel)
                    == Ok::<(SpecExpr, int), SpecParseError>((expr_view(e), new_pos)),
            Err(e) => !(e.kind is LexingError) && forall|fuel: nat|
                fuel > ts.len() - pos1 ==> #[trigger] spec_parse_expression(ts, pos1, 0, fuel)
                    == Err::<(SpecExpr, int), SpecParseError>(parse_error_view(e.kind)),
        }),
    ensures
        (match r {
            Ok(e) => forall|fuel: nat|
                fuel > ts.len() - pos ==> spec_nud(ts, pos, fuel) == Ok::<
                    (SpecExpr, int),
                    SpecParseError,
                >((expr_view(e), new_pos)),
            Err(e) => !(e.kind is LexingError) && forall|fuel: nat|
                fuel > ts.len() - pos ==> spec_nud(ts, pos, fuel) == Err::<
                    (SpecExpr, int),
                    SpecParseError,
                >(parse_error_view(e.kind)),
        }),
{
    match r {
        Ok(e) => {
            assert forall|fuel: nat| fuel > ts.len() - pos implies spec_nud(ts, pos, fuel) == Ok::<
                (SpecExpr, int),
                SpecParseError,
            >((expr_view(e), new_pos)) by {
                assert(spec_parse_expression(ts, pos + 1, 0, (fuel - 1) as nat) == Ok::<
                    (SpecExpr, int),
                    SpecParseError,
                >((expr_view(e), new_pos)));
            }
        },
        Err(e) => {
            assert forall|fuel: nat| fuel > ts.len() - pos implies spec_nud(ts, pos, fuel) == Err::<
                (SpecExpr, int),
                SpecParseError,
            >(parse_error_view(e.kind)) by {
                assert(spec_parse_expression(ts, pos + 1, 0, (fuel - 1) as nat) == Err::<
                    (SpecExpr, int),
                    SpecParseError,
                >(parse_error_view(e.kind)));
            }
        },
    }
}

/// Parses the left denotation of the next token against an already parsed
/// left side: a binary `+` or `-`, or the closing parenthesis that returns
/// the left side unchanged. Any other token has no infix role and fails with
/// `NoLed`.
fn led(lexer: &mut Lexer, left: Expression) -> (r: Result<Expression, ParseError>)
    requires
        old(lexer).wf(),
    ensures
        final(lexer).tokens@ == old(lexer).tokens@,
        old(lexer).current_position <= final(lexer).current_position <= final(lexer).tokens@.len(),
        r is Ok ==> old(lexer).current_position < final(lexer).current_position,
        (match r {
            Ok(e) => forall|fuel: nat|
                fuel > old(lexer).tokens@.len() - old(lexer).current_position ==> spec_led(
                    token_views(old(lexer).tokens@),
                    expr_view(left),
                    old(lexer).current_position as int,
                    fuel,
                ) == Ok::<(SpecExpr, int), SpecParseError>(
                    (expr_view(e), final(lexer).current_position as int),
                ),
            Err(e) => !(e.kind is LexingError) && forall|fuel: nat|
                fuel > old(lexer).tokens@.len() - old(lexer).current_position ==> spec_led(
                    token_views(old(lexer).tokens@),
                    expr_view(left),
                    old(lexer).current_position as int,
                    fuel,
                ) == Err::<(SpecExpr, int), SpecParseError>(parse_error_view(e.kind)),
        }),
    decreases
            old(lexer).tokens@.len() - old(lexer).current_position,
            1int,
{
    let ghost ts = token_views(lexer.tokens@);
    let ghost pos = lexer.current_position as int;
    let ghost vleft = expr_view(left);
    if !lexer.has_next() {
        return Err(ParseError { kind: ParseErrorKind::EndOfTokens });
    }
    proof {
        assert(ts[pos] == token_view(lexer.tokens@[pos].token_type));
    }
    let token = lexer.next();
    let token_rbp = token.token_type.rbp();
    match token.token_type {
        TokenTypes::PLUS => {
            match parse_expression(lexer, token_rbp) {
                Ok(right) => {
                    proof {
                        let new_pos = lexer.current_position as int;
                        assert forall|fuel: nat| fuel > ts.len() - pos implies spec_led(
                            ts,
                            vleft,
                            pos,
                            fuel,
                        ) == Ok::<(SpecExpr, int), SpecParseError>(
                            (
                                SpecExpr::Operation(
                                    Operation::Plus,
                                    Box::new(vleft),
                                    Box::new(expr_view(right)),
                                ),
                                new_pos,
                            ),
                        ) by {
                            assert(spec_parse_expression(ts, pos + 1, 5, (fuel - 1) as nat)
                                == Ok::<(SpecExpr, int), SpecParseError>(
                                (expr_view(right), new_pos),
                            ));
                        }
                    }
                    Ok(
                        Expression::Operation(
                            OperationExpression {
                                operation: Operation::Plus,
                                left: Box::new(left),
                                right: Box::new(right),
                            },
                        ),
                    )
                },
                Err(e) => {
                    proof {
                        assert forall|fuel: nat| fuel > ts.len() - pos implies spec_led(
                            ts,
                            vleft,
                            pos,
                            fuel,
                        ) == Err::<(SpecExpr, int), SpecParseError>(parse_error_view(e.kind)) by {
                            assert(spec_parse_expression(ts, pos + 1, 5, (fuel - 1) as nat)
                                == Err::<(SpecExpr, int), SpecParseError>(
                                parse_error_view(e.kind),
                            ));
                        }
                    }
                    Err(e)
                },
            }
        },
        TokenTypes::MINUS => {
            match parse_expression(lexer, token_rbp) {
                Ok(right) => {
                    proof {
                        let new_pos = lexer.current_position as int;
                        assert forall|fuel: nat| fuel > ts.len() - pos implies spec_led(
                            ts,
                            vleft,
                            pos,
                            fuel,
                        ) == Ok::<(SpecExpr, int), SpecParseError>(
                            (
                                SpecExpr::Operation(
                                    Operation::Minus,
                                    Box::new(vleft),
                                    Box::new(expr_view(right)),
                                ),
                                new_pos,
                            ),
                        ) by {
                            assert(spec_parse_expression(ts, pos + 1, 5, (fuel - 1) as nat)
                                == Ok::<(SpecExpr, int), SpecParseError>(
                                (expr_view(right), new_pos),
                            ));
                        }
                    }
                    Ok(
                        Expression::Operation(
                            OperationExpression {
                                operation: Operation::Minus,
                                left: Box::new(left),
                                right: Box::new(right),
                            },
                        ),
                    )
                },
                Err(e) => {
                    proof {
                        assert forall|fuel: nat| fuel > ts.len() - pos implies spec_led(
                            ts,
                            vleft,
                            pos,
                            fuel,
                        ) == Err::<(SpecExpr, int), SpecParseError>(parse_error_view(e.kind)) by {
                            assert(spec_parse_expression(ts, pos + 1, 5, (fuel - 1) as nat)
                                == Err::<(SpecExpr, int), SpecParseError>(
                                parse_error_view(e.kind),
                            ));
                        }
                    }
                    Err(e)
                },
            }
        },
        TokenTypes::RPARENS => Ok(left),
        other => Err(ParseError { kind: ParseErrorKind::NoLed(other) }),
    }
}

/// Parses one expression by precedence climbing: a null denotation, then
/// left denotations while the peeked token binds more tightly than `rbp`.
/// An input that ends inside the expression fails with `EndOfTokens`.
pub fn parse_expression(lexer: &mut Lexer, rbp: usize) -> (r: Result<Expression, ParseError>)
    requires
        old(lexer).wf(),
    ensures
        final(lexer).tokens@ == old(lexer).tokens@,
        old(lexer).current_position <= final(lexer).current_position <= final(lexer).tokens@.len(),
        r is Ok ==> old(lexer).current_position < final(lexer).current_position,
        (match r {
            Ok(e) => forall|fuel: nat|
                fuel > old(lexer).tokens@.len() - old(lexer).current_position
                    ==> spec_parse_expression(
                    token_views(old(lexer).tokens@),
                    old(lexer).current_position as int,
                    rbp as int,
                    fuel,
                ) == Ok::<(SpecExpr, int), SpecParseError>(
                    (expr_view(e), final(lexer).current_position as int),
                ),
            Err(e) => !(e.kind is LexingError) && forall|fuel: nat|
                fuel > old(lexer).tokens@.len() - old(lexer).current_position
                    ==> spec_parse_expression(
                    token_views(old(lexer).tokens@),
                    old(lexer).current_position as int,
                    rbp as int,
                    fuel,
                ) == Err::<(SpecExpr, int), SpecParseError>(parse_error_view(e.kind)),
        }),
    decreases
            old(lexer).tokens@.len() - old(lexer).current_position,
            2int,
{
    let ghost ts = token_views(lexer.tokens@);
    let ghost pos0 = lexer.current_position as int;
    let mut left = match nud(lexer) {
        Ok(e) => e,
        Err(e) => {
            proof {
                assert forall|fuel: nat| fuel > ts.len() - pos0 implies spec_parse_expression(
                    ts,
                    pos0,
                    rbp as int,
                    fuel,
                ) == Err::<(SpecExpr, int), SpecParseError>(parse_error_view(e.kind)) by {
                    assert(spec_nud(ts, pos0, fuel) == Err::<(SpecExpr, int), SpecParseError>(
                        parse_error_view(e.kind),
                    ));
                }
            }
            return Err(e);
        },
    };
    let ghost pos1 = lexer.current_position as int;
    let ghost mut steps: int = 0;
    proof {
        assert forall|fuel: nat| fuel > ts.len() - pos0 implies #[trigger] spec_parse_expression(
            ts,
            pos0,
            rbp as int,
            fuel,
        ) == spec_led_loop(ts, expr_view(left), pos1, rbp as int, (fuel - steps) as nat) by {
            assert(spec_nud(ts, pos0, fuel) == Ok::<(SpecExpr, int), SpecParseError>(
                (expr_view(left), pos1),
            ));
            assert((fuel - steps) as nat == fuel);
        }
    }
    #[verifier::loop_isolation(false)]
    loop
        invariant
            lexer.tokens@ == old(lexer).tokens@,
            pos0 < pos1 <= lexer.current_position as int,
            lexer.current_position <= lexer.tokens@.len(),
            0 <= steps <= lexer.current_position as int - pos1,
            forall|fuel: nat|
                fuel > ts.len() - pos0 ==> #[trigger] spec_parse_expression(
                    ts,
                    pos0,
                    rbp as int,
                    fuel,
                ) == spec_led_loop(
                    ts,
                    expr_view(left),
                    lexer.current_position as int,
                    rbp as int,
                    (fuel - steps) as nat,
                ),
        decreases lexer.tokens@.len() - lexer.current_position,
    {
        let ghost pos = lexer.current_position as int;
        let more = match lexer.peek() {
            None => {
                proof {
                    assert forall|fuel: nat| fuel > ts.len() - pos0 implies spec_parse_expression(
                        ts,
                        pos0,
                        rbp as int,
                        fuel,
                    ) == Err::<(SpecExpr, int), SpecParseError>(SpecParseError::EndOfTokens) by {
                        assert(spec_led_loop(
                            ts,
                            expr_view(left),
                            pos,
                            rbp as int,
                            (fuel - steps) as nat,
                        ) == Err::<(SpecExpr, int), SpecParseError>(SpecParseError::EndOfTokens));
                    }
                }
                return Err(ParseError { kind: ParseErrorKind::EndOfTokens });
            },
            Some(t) => {
                proof {
                    assert(ts[pos] == token_view(lexer.tokens@[pos].token_type));
                }
                t.token_type.rbp() > rbp
            },
        };
        if more {
            let ghost vleft = expr_view(left);
            left = match led(lexer, left) {
                Ok(e) => {
                    proof {
                        let new_pos = lexer.current_position as int;
                        assert forall|fuel: nat| fuel > ts.len() - pos0 implies #[trigger]
                        spec_parse_expression(ts, pos0, rbp as int, fuel) == spec_led_loop(
                            ts,
                            expr_view(e),
                            new_pos,
                            rbp as int,
                            (fuel - (steps + 1)) as nat,
                        ) by {
                            let f = (fuel - steps) as nat;
                            assert(f > ts.len() - pos);
                            assert(spec_led(ts, vleft, pos, f) == Ok::<
                                (SpecExpr, int),
                                SpecParseError,
                            >((expr_view(e), new_pos)));
                            assert(spec_led_loop(ts, vleft, pos, rbp as int, f) == spec_led_loop(
                                ts,
                                expr_view(e),
                                new_pos,
                                rbp as int,
                                (f - 1) as nat,
                            ));
                        }
                        steps = steps + 1;
                    }
                    e
                },
                Err(e) => {
                    proof {
                        assert forall|fuel: nat| fuel > ts.len()
                            - pos0 implies spec_parse_expression(ts, pos0, rbp as int, fuel)
                            == Err::<(SpecExpr, int), SpecParseError>(parse_error_view(e.kind)) by {
                            let f = (fuel - steps) as nat;
                            assert(f > ts.len() - pos);
                            assert(spec_led(ts, vleft, pos, f) == Err::<
                                (SpecExpr, int),
                                SpecParseError,
                            >(parse_error_view(e.kind)));
                        }
                    }
                    return Err(e);
                },
            };
        } else {
            proof {
                assert forall|fuel: nat| fuel > ts.len() - pos0 implies spec_parse_expression(
                    ts,
                    pos0,
                    rbp as int,
                    fuel,
                ) == Ok::<(SpecExpr, int), SpecParseError>((expr_view(left), pos)) by {
                    assert(spec_led_loop(ts, expr_view(left), pos, rbp as int, (fuel - steps) as nat)
                        == Ok::<(SpecExpr, int), SpecParseError>((expr_view(left), pos)));
                }
            }
            return Ok(left);
        }
    }
}

/// True when the next token is a comma.
fn peek_is_comma(lexer: &Lexer) -> (r: bool)
    ensures
        r == (lexer.current_position < lexer.tokens@.len() && token_views(lexer.tokens@)[
            lexer.current_position as int
        ] is Comma),
{
    proof {
        if lexer.current_position < lexer.tokens@.len() {
            assert(token_views(lexer.tokens@)[lexer.current_position as int] == token_view(
                lexer.tokens@[lexer.current_position as int].token_type,
            ));
        }
    }
    match lexer.peek() {
        Some(t) => match &t.token_type {
            TokenTypes::COMMA => true,
            _ => false,
        },
        None => false,
    }
}

/// True when the next token is `FROM`.
fn peek_is_from(lexer: &Lexer) -> (r: bool)
    ensures
        r == (lexer.current_position < lexer.tokens@.len() && token_views(lexer.tokens@)[
            lexer.current_position as int
        ] is From),
{
    proof {
        if lexer.current_position < lexer.tokens@.len() {
            assert(token_views(lexer.tokens@)[lexer.current_position as int] == token_view(
                lexer.tokens@[lexer.current_position as int].token_type,
            ));
        }
    }
    match lexer.peek() {
        Some(t) => match &t.token_type {
            TokenTypes::FROM => true,
            _ => false,
        },
        None => false,
    }
}

/// Parses one statement, per [`spec_statement`] over the input's token
/// kinds: `SHOW TABLES`, or `SELECT` expressions separated by commas with an
/// optional comma-separated `FROM` list of upper-cased table names. A lexing
/// failure surfaces as a parse failure carrying its kind.
#[verifier::loop_isolation(false)]
pub fn parse_sql(sql: String) -> (r: Result<SqlClause, ParseError>)
    ensures
        (match spec_tokens_of(sql@) {
            Err(k) => r matches Err(e) && e.kind == ParseErrorKind::LexingError(k),
            Ok(ts) => (match r {
                Ok(c) => forall|fuel: nat|
                    fuel > ts.len() ==> #[trigger] spec_statement(ts, fuel) == Ok::<
                        SpecClause,
                        SpecParseError,
                    >(clause_view(c)),
                Err(e) => !(e.kind is LexingError) && forall|fuel: nat|
                    fuel > ts.len() ==> #[trigger] spec_statement(ts, fuel) == Err::<
                        SpecClause,
                        SpecParseError,
                    >(parse_error_view(e.kind)),
            }),
        }),
{
    let mut lexer = match Lexer::with_input(sql) {
        Ok(lexer) => lexer,
        Err(e) => {
            return Err(ParseError::from_lexing(e));
        },
    };
    let ghost ts = token_views(lexer.tokens@);
    proof {
        assert(ts.len() == lexer.tokens@.len());
        assert(ts[0] == token_view(lexer.tokens@[0].token_type));
    }
    let first = lexer.next();
    match first.token_type {
        TokenTypes::SHOW => {
            if !lexer.has_next() {
                return Err(ParseError { kind: ParseErrorKind::UnexpectedToken });
            }
            proof {
                assert(ts[1] == token_view(lexer.tokens@[1].token_type));
            }
            let second = lexer.next();
            match second.token_type {
                TokenTypes::TABLES => Ok(SqlClause::ShowTables),
                _ => Err(ParseError { kind: ParseErrorKind::UnexpectedToken }),
            }
        },
        TokenTypes::SELECT => {
            let mut exprs: Vec<Expression> = Vec::new();
            let mut from: Vec<String> = Vec::new();
            match parse_expression(&mut lexer, 0) {
                Ok(e) => {
                    proof {
                        assert(expr_views(exprs@.push(e)) =~= seq![expr_view(e)]);
                    }
                    exprs.push(e);
                },
                Err(e) => {
                    proof {
                        assert forall|fuel: nat| fuel > ts.len() implies #[trigger] spec_statement(
                            ts,
                            fuel,
                        ) == Err::<SpecClause, SpecParseError>(parse_error_view(e.kind)) by {
                            assert(spec_parse_expression(ts, 1, 0, fuel) == Err::<
                                (SpecExpr, int),
                                SpecParseError,
                            >(parse_error_view(e.kind)));
                        }
                    }
                    return Err(e);
                },
            }
            let ghost mut steps: int = 1;
            proof {
                assert forall|fuel: nat| fuel > ts.len() - 1 implies #[trigger] spec_projection(
                    ts,
                    1,
                    fuel,
                ) == (if lexer.current_position < ts.len() && ts[lexer.current_position as int]
                    is Comma {
                    match spec_projection(
                        ts,
                        lexer.current_position as int + 1,
                        (fuel - steps) as nat,
                    ) {
                        Ok(pr) => Ok::<(Seq<SpecExpr>, int), SpecParseError>(
                            (expr_views(exprs@) + pr.0, pr.1),
                        ),
                        Err(e2) => Err::<(Seq<SpecExpr>, int), SpecParseError>(e2),
                    }
                } else {
                    Ok::<(Seq<SpecExpr>, int), SpecParseError>(
                        (expr_views(exprs@), lexer.current_position as int),
                    )
                }) by {
                    assert(spec_parse_expression(ts, 1, 0, fuel) == Ok::<
                        (SpecExpr, int),
                        SpecParseError,
                    >((expr_views(exprs@)[0], lexer.current_position as int)));
                    assert(seq![expr_views(exprs@)[0]] =~= expr_views(exprs@));
                }
            }
            let mut more = peek_is_comma(&lexer);
            while more
                invariant
                    exprs@.len() >= 1,
                    ts == token_views(lexer.tokens@),
                    ts.len() == lexer.tokens@.len(),
                    lexer.current_position <= lexer.tokens@.len(),
                    more == (lexer.current_position < ts.len() && ts[lexer.current_position as int]
                        is Comma),
                    1 <= steps <= lexer.current_position as int - 1,
                    forall|fuel: nat|
                        fuel > ts.len() - 1 ==> #[trigger] spec_projection(ts, 1, fuel) == (if
                        lexer.current_position < ts.len() && ts[lexer.current_position as int]
                            is Comma {
                            match spec_projection(
                                ts,
                                lexer.current_position as int + 1,
                                (fuel - steps) as nat,
                            ) {
                                Ok(pr) => Ok::<(Seq<SpecExpr>, int), SpecParseError>(
                                    (expr_views(exprs@) + pr.0, pr.1),
                                ),
                                Err(e2) => Err::<(Seq<SpecExpr>, int), SpecParseError>(e2),
                            }
                        } else {
                            Ok::<(Seq<SpecExpr>, int), SpecParseError>(
                                (expr_views(exprs@), lexer.current_position as int),
                            )
                        }),
                decreases lexer.tokens@.len() - lexer.current_position,
            {
                let ghost comma_pos = lexer.current_position as int;
                let _ = lexer.next();
                match parse_expression(&mut lexer, 0) {
                    Ok(e) => {
                        proof {
                            let new_pos = lexer.current_position as int;
                            let prefix = expr_views(exprs@);
                            assert forall|fuel: nat| fuel > ts.len() - 1 implies #[trigger]
                            spec_projection(ts, 1, fuel) == (if new_pos < ts.len() && ts[new_pos]
                                is Comma {
                                match spec_projection(ts, new_pos + 1, (fuel - (steps + 1)) as nat) {
                                    Ok(pr) => Ok::<(Seq<SpecExpr>, int), SpecParseError>(
                                        (expr_views(exprs@.push(e)) + pr.0, pr.1),
                                    ),
                                    Err(e2) => Err::<(Seq<SpecExpr>, int), SpecParseError>(e2),
                                }
                            } else {
                                Ok::<(Seq<SpecExpr>, int), SpecParseError>(
                                    (expr_views(exprs@.push(e)), new_pos),
                                )
                            }) by {
                                let f = (fuel - steps) as nat;
                                assert(f > ts.len() - (comma_pos + 1));
                                assert(spec_parse_expression(ts, comma_pos + 1, 0, f) == Ok::<
                                    (SpecExpr, int),
                                    SpecParseError,
                                >((expr_view(e), new_pos)));
                                assert(expr_views(exprs@.push(e)) =~= prefix + seq![expr_view(e)]);
                                if new_pos < ts.len() && ts[new_pos] is Comma {
                                    match spec_projection(ts, new_pos + 1, (f - 1) as nat) {
                                        Ok(pr) => {
                                            assert(prefix + (seq![expr_view(e)] + pr.0) =~= (prefix
                                                + seq![expr_view(e)]) + pr.0);
                                        },
                                        Err(_) => {},
                                    }
                                }
                            }
                            steps = steps + 1;
                        }
                        exprs.push(e);
                    },
                    Err(e) => {
                        proof {
                            assert forall|fuel: nat| fuel > ts.len() implies #[trigger]
                            spec_statement(ts, fuel) == Err::<SpecClause, SpecParseError>(
                                parse_error_view(e.kind),
                            ) by {
                                let f = (fuel - steps) as nat;
                                assert(f > ts.len() - (comma_pos + 1));
                                assert(spec_parse_expression(ts, comma_pos + 1, 0, f) == Err::<
                                    (SpecExpr, int),
                                    SpecParseError,
                                >(parse_error_view(e.kind)));
                            }
                        }
                        return Err(e);
                    },
                }
                more = peek_is_comma(&lexer);
            }
            let ghost proj_views = expr_views(exprs@);
            let ghost proj_end = lexer.current_position as int;
            proof {
                assert(forall|fuel: nat|
                    fuel > ts.len() - 1 ==> #[trigger] spec_projection(ts, 1, fuel) == Ok::<
                        (Seq<SpecExpr>, int),
                        SpecParseError,
                    >((proj_views, proj_end)));
            }
            let has_from = peek_is_from(&lexer);
            if has_from {
                let _ = lexer.next();
                let ghost names_start = lexer.current_position as int;
                if !lexer.has_next() {
                    proof {
                        assert forall|fuel: nat| fuel > ts.len() implies #[trigger] spec_statement(
                            ts,
                            fuel,
                        ) == Err::<SpecClause, SpecParseError>(SpecParseError::UnexpectedToken) by {
                            assert(spec_projection(ts, 1, fuel) == Ok::<
                                (Seq<SpecExpr>, int),
                                SpecParseError,
                            >((proj_views, proj_end)));
                            assert(spec_from_names(ts, names_start, fuel) == Err::<
                                (Seq<Seq<char>>, int),
                                SpecParseError,
                            >(SpecParseError::UnexpectedToken));
                        }
                    }
                    return Err(ParseError { kind: ParseErrorKind::UnexpectedToken });
                }
                proof {
                    assert(ts[names_start] == token_view(
                        lexer.tokens@[names_start].token_type,
                    ));
                }
                let name_token = lexer.next();
                match name_token.token_type {
                    TokenTypes::IDENTIFIER(name) => {
                        let upper_name = to_upper(name.as_str());
                        proof {
                            assert(name_views(from@.push(upper_name)) =~= seq![
                                crate::text::spec_upper(name@),
                            ]);
                        }
                        from.push(upper_name);
                    },
                    _ => {
                        return Err(ParseError { kind: ParseErrorKind::UnexpectedToken });
                    },
                }
                let ghost mut nsteps: int = 1;
                let mut more_names = peek_is_comma(&lexer);
                while more_names
                    invariant
                        exprs@.len() >= 1,
                        from@.len() >= 1,
                        ts == token_views(lexer.tokens@),
                        ts.len() == lexer.tokens@.len(),
                        names_start < lexer.current_position as int,
                        lexer.current_position <= lexer.tokens@.len(),
                        more_names == (lexer.current_position < ts.len() && ts[
                            lexer.current_position as int
                        ] is Comma),
                        1 <= nsteps <= lexer.current_position as int - names_start,
                        forall|fuel: nat|
                            fuel > ts.len() - names_start ==> #[trigger] spec_from_names(
                                ts,
                                names_start,
                                fuel,
                            ) == (if lexer.current_position < ts.len() && ts[
                                lexer.current_position as int
                            ] is Comma {
                                match spec_from_names(
                                    ts,
                                    lexer.current_position as int + 1,
                                    (fuel - nsteps) as nat,
                                ) {
                                    Ok(pr) => Ok::<(Seq<Seq<char>>, int), SpecParseError>(
                                        (name_views(from@) + pr.0, pr.1),
                                    ),
                                    Err(e2) => Err::<(Seq<Seq<char>>, int), SpecParseError>(e2),
                                }
                            } else {
                                Ok::<(Seq<Seq<char>>, int), SpecParseError>(
                                    (name_views(from@), lexer.current_position as int),
                                )
                            }),
                    decreases lexer.tokens@.len() - lexer.current_position,
                {
                    let ghost comma_pos = lexer.current_position as int;
                    let _ = lexer.next();
                    if !lexer.has_next() {
                        return Err(ParseError { kind: ParseErrorKind::UnexpectedToken });
                    }
                    proof {
                        assert(ts[comma_pos + 1] == token_view(
                            lexer.tokens@[comma_pos + 1].token_type,
                        ));
                    }
                    let more_token = lexer.next();
                    match more_token.token_type {
                        TokenTypes::IDENTIFIER(name) => {
                            let upper_name = to_upper(name.as_str());
                            proof {
                                let new_pos = lexer.current_position as int;
                                let prefix = name_views(from@);
                                assert forall|fuel: nat| fuel > ts.len() - names_start implies #[
                                    trigger
                                ] spec_from_names(ts, names_start, fuel) == (if new_pos < ts.len()
                                    && ts[new_pos] is Comma {
                                    match spec_from_names(
                                        ts,
                                        new_pos + 1,
                                        (fuel - (nsteps + 1)) as nat,
                                    ) {
                                        Ok(pr) => Ok::<(Seq<Seq<char>>, int), SpecParseError>(
                                            (name_views(from@.push(upper_name)) + pr.0, pr.1),
                                        ),
                                        Err(e2) => Err::<(Seq<Seq<char>>, int), SpecParseError>(e2),
                                    }
                                } else {
                                    Ok::<(Seq<Seq<char>>, int), SpecParseError>(
                                        (name_views(from@.push(upper_name)), new_pos),
                                    )
                                }) by {
                                    let f = (fuel - nsteps) as nat;
                                    assert(f > ts.len() - (comma_pos + 1));
                                    assert(name_views(from@.push(upper_name)) =~= prefix + seq![
                                        crate::text::spec_upper(name@),
                                    ]);
                                    if new_pos < ts.len() && ts[new_pos] is Comma {
                                        match spec_from_names(ts, new_pos + 1, (f - 1) as nat) {
                                            Ok(pr) => {
                                                assert(prefix + (seq![
                                                    crate::text::spec_upper(name@),
                                                ] + pr.0) =~= (prefix + seq![
                                                    crate::text::spec_upper(name@),
                                                ]) + pr.0);
                                            },
                                            Err(_) => {},
                                        }
                                    }
                                }
                                nsteps = nsteps + 1;
                            }
                            from.push(upper_name);
                        },
                        _ => {
                            return Err(ParseError { kind: ParseErrorKind::UnexpectedToken });
                        },
                    }
                    more_names = peek_is_comma(&lexer);
                }
                proof {
                    assert forall|fuel: nat| fuel > ts.len() implies #[trigger] spec_statement(
                        ts,
                        fuel,
                    ) == Ok::<SpecClause, SpecParseError>(
                        SpecClause::Select(proj_views, name_views(from@)),
                    ) by {
                        assert(spec_projection(ts, 1, fuel) == Ok::<
                            (Seq<SpecExpr>, int),
                            SpecParseError,
                        >((proj_views, proj_end)));
                        assert(spec_from_names(ts, names_start, fuel) == Ok::<
                            (Seq<Seq<char>>, int),
                            SpecParseError,
                        >((name_views(from@), lexer.current_position as int)));
                    }
                }
                Ok(SqlClause::Select(exprs, from))
            } else {
                proof {
                    assert(name_views(from@) =~= Seq::<Seq<char>>::empty());
                }
                Ok(SqlClause::Select(exprs, from))
            }
        },
        _ => Err(ParseError { kind: ParseErrorKind::UnexpectedToken }),
    }
}

} // verus!
