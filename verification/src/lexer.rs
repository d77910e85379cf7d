//! The lexer: a character-at-a-time state machine that turns SQL text into
//! tokens with source positions.
//!
//! The behaviour is pinned by a specification-level automaton:
//! [`spec_push_char`] gives the exact effect of feeding one character, and
//! [`spec_lex`] folds it over a whole input.

use vstd::prelude::*;

use crate::text::{
    chars_of, digit_value, is_ascii_char, is_digit, is_space, lower_char, spec_digit_value,
    spec_is_ascii, spec_is_digit, spec_is_space, spec_lower_char, string_of_chars,
};
use crate::tokens::{token_view, SourceRef, SpecToken, Token, TokenTypes};

pub use self::LexingErrors as LexingErrorKind;

verus! {

/// The kinds of lexing failure: an unterminated string literal, a character
/// outside 7-bit ASCII, a malformed or oversized integer literal, and an
/// input that holds no token at all.
#[derive(Debug, PartialEq, Eq, Structural, Clone, Copy)]
pub enum LexingErrors {
    StringNotTerminated,
    IllegalCharacter(char),
    NotInteger,
    NoTokens,
}

/// A lexing failure and where in the input it happened.
#[derive(Debug, PartialEq, Eq, Structural, Clone, Copy)]
pub struct LexingError {
    pub kind: LexingErrors,
    pub location: SourceRef,
}

/// The mode of the lexer: scanning ordinary text, completing a two-character
/// operator, inside an integer literal, or inside a quoted string.
#[derive(Debug, PartialEq, Eq, Structural, Clone, Copy)]
pub enum LexingState {
    Normal,
    ForcePop,
    Integer,
    Quoted,
}

/// The state of the lexing buffer, at the specification level.
pub struct LexState {
    pub buffer: Seq<char>,
    pub mode: LexingState,
    pub line: u32,
    pub column: u32,
    pub marker: u32,
}

/// What one step of the automaton produces: nothing yet, a finished token
/// with its position, or a failure.
pub enum LexStep {
    Silent,
    Emit(SpecToken, SourceRef),
    Fail(LexingError),
}

/// The state the lexer starts in: empty buffer, line and column 1.
pub open spec fn spec_initial_state() -> LexState {
    LexState {
        buffer: Seq::<char>::empty(),
        mode: LexingState::Normal,
        line: 1,
        column: 1,
        marker: 1,
    }
}

/// A counter increment that stops at the largest representable value.
pub open spec fn spec_bump(c: u32) -> u32 {
    if c < 0xffffffffu32 {
        (c + 1) as u32
    } else {
        c
    }
}

/// The characters that end the token before them: whitespace and the
/// single-character separators and operators.
pub open spec fn spec_is_delimiting(c: char) -> bool {
    spec_is_space(c) || c == ';' || c == '+' || c == '-' || c == ',' || c == '.' || c == '(' || c
        == ')' || c == '=' || c == '<' || c == '>'
}

/// True when the current character and the next together form a
/// two-character operator (`<=` or `>=`).
pub open spec fn spec_makes_continuity(current: char, peek: char) -> bool {
    peek == '=' && (current == '<' || current == '>')
}

/// The numeric value of a digit string, most significant digit first.
pub open spec fn spec_digits_value(s: Seq<char>) -> int
    decreases s.len(),
{
    if s.len() == 0 {
        0
    } else {
        spec_digits_value(s.drop_last()) * 10 + spec_digit_value(s.last())
    }
}

/// The token a finished buffer stands for: a reserved word, a separator, an
/// operator, or otherwise an identifier.
pub open spec fn spec_keyword_token(buffer: Seq<char>) -> SpecToken {
    if buffer == "select"@ {
        SpecToken::Select
    } else if buffer == "update"@ {
        SpecToken::Update
    } else if buffer == "insert"@ {
        SpecToken::Insert
    } else if buffer == "delete"@ {
        SpecToken::Delete
    } else if buffer == "show"@ {
        SpecToken::Show
    } else if buffer == "tables"@ {
        SpecToken::Tables
    } else if buffer == "where"@ {
        SpecToken::Where
    } else if buffer == "from"@ {
        SpecToken::From
    } else if buffer == "set"@ {
        SpecToken::SetKw
    } else if buffer == ","@ {
        SpecToken::Comma
    } else if buffer == "."@ {
        SpecToken::Dot
    } else if buffer == "("@ {
        SpecToken::LParens
    } else if buffer == ")"@ {
        SpecToken::RParens
    } else if buffer == "="@ {
        SpecToken::EqOp
    } else if buffer == "<"@ {
        SpecToken::Lt
    } else if buffer == ">"@ {
        SpecToken::Gt
    } else if buffer == "<="@ {
        SpecToken::Lte
    } else if buffer == ">="@ {
        SpecToken::Gte
    } else if buffer == "+"@ {
        SpecToken::Plus
    } else if buffer == "-"@ {
        SpecToken::Minus
    } else if buffer == ";"@ {
        SpecToken::Terminate
    } else {
        SpecToken::Identifier(buffer)
    }
}

/// Finishing the buffered token: an integer buffer becomes an integer token
/// when its value fits 32 signed bits and fails otherwise; any other buffer
/// goes through the keyword table. On success the buffer empties and the
/// token-start marker moves to the current column.
pub open spec fn spec_pop_token(state: LexState) -> (LexState, LexStep) {
    let sref = SourceRef { column: state.marker, line: state.line };
    let popped = LexState {
        buffer: Seq::<char>::empty(),
        mode: LexingState::Normal,
        line: state.line,
        column: state.column,
        marker: state.column,
    };
    if state.mode == LexingState::Integer {
        if spec_digits_value(state.buffer) <= 0x7fffffff {
            (
                popped,
                LexStep::Emit(SpecToken::Integer(spec_digits_value(state.buffer) as i32), sref),
            )
        } else {
            (state, LexStep::Fail(LexingError { kind: LexingErrors::NotInteger, location: sref }))
        }
    } else {
        (popped, LexStep::Emit(spec_keyword_token(state.buffer), sref))
    }
}

/// The exact effect of feeding one character (and the peek at the next) to
/// the lexing buffer.
pub open spec fn spec_push_char(state: LexState, c: char, peek: Option<char>) -> (LexState, LexStep) {
    let st = LexState { column: spec_bump(state.column), ..state };
    if spec_is_space(c) && st.mode != LexingState::Quoted {
        (LexState { marker: spec_bump(st.marker), ..st }, LexStep::Silent)
    } else if c == '\'' {
        if st.mode == LexingState::Quoted {
            let sref = SourceRef { column: st.marker, line: st.line };
            (
                LexState {
                    buffer: Seq::<char>::empty(),
                    mode: LexingState::Normal,
                    marker: st.column,
                    ..st
                },
                LexStep::Emit(SpecToken::StringLit(st.buffer), sref),
            )
        } else {
            (LexState { mode: LexingState::Quoted, ..st }, LexStep::Silent)
        }
    } else if st.mode == LexingState::Quoted {
        let st2 = LexState { buffer: st.buffer.push(c), ..st };
        if peek is Some {
            (st2, LexStep::Silent)
        } else {
            (
                st2,
                LexStep::Fail(
                    LexingError {
                        kind: LexingErrors::StringNotTerminated,
                        location: SourceRef { column: st2.marker, line: st2.line },
                    },
                ),
            )
        }
    } else if !spec_is_ascii(c) {
        (
            st,
            LexStep::Fail(
                LexingError {
                    kind: LexingErrors::IllegalCharacter(c),
                    location: SourceRef { column: st.column, line: st.line },
                },
            ),
        )
    } else if st.mode == LexingState::Integer && !spec_is_digit(c) {
        (
            st,
            LexStep::Fail(
                LexingError {
                    kind: LexingErrors::NotInteger,
                    location: SourceRef { column: st.marker, line: st.line },
                },
            ),
        )
    } else {
        let mode1 = if st.mode == LexingState::Normal && spec_is_digit(c) && st.buffer.len() == 0 {
            LexingState::Integer
        } else {
            st.mode
        };
        let st2 = LexState { buffer: st.buffer.push(spec_lower_char(c)), mode: mode1, ..st };
        if st2.mode == LexingState::ForcePop {
            spec_pop_token(LexState { mode: LexingState::Normal, ..st2 })
        } else {
            match peek {
                Some(p) => {
                    if spec_makes_continuity(c, p) {
                        (LexState { mode: LexingState::ForcePop, ..st2 }, LexStep::Silent)
                    } else if spec_is_delimiting(c) {
                        spec_pop_token(st2)
                    } else if spec_is_delimiting(p) {
                        spec_pop_token(st2)
                    } else {
                        (st2, LexStep::Silent)
                    }
                },
                None => spec_pop_token(st2),
            }
        }
    }
}

/// The result of lexing the rest of an input from a given state: the token
/// kinds emitted, or the first failure.
pub open spec fn spec_lex_from(state: LexState, input: Seq<char>, i: int) -> Result<
    Seq<SpecToken>,
    LexingError,
>
    decreases input.len() - i,
{
    if i < 0 || i >= input.len() {
        Ok(Seq::<SpecToken>::empty())
    } else {
        let peek = if i + 1 < input.len() {
            Some(input[i + 1])
        } else {
            None
        };
        let (st, out) = spec_push_char(state, input[i], peek);
        match out {
            LexStep::Silent => spec_lex_from(st, input, i + 1),
            LexStep::Emit(t, _) => match spec_lex_from(st, input, i + 1) {
                Ok(rest) => Ok(seq![t] + rest),
                Err(e) => Err(e),
            },
            LexStep::Fail(e) => Err(e),
        }
    }
}

/// The token kinds of an input, or its first lexing failure.
pub open spec fn spec_lex(input: Seq<char>) -> Result<Seq<SpecToken>, LexingError> {
    spec_lex_from(spec_initial_state(), input, 0)
}

/// The view of a token list as the sequence of its token kinds.
pub open spec fn token_views(tokens: Seq<Token>) -> Seq<SpecToken> {
    tokens.map_values(|t: Token| token_view(t.token_type))
}

/// The piece of re-lexing that holds of integer literals: the decimal digits
/// of a non-negative value fold back to exactly that value, so a rendered
/// integer token lexes to the integer it came from.
pub proof fn lemma_decimal_round_trip(n: int)
    requires
        0 <= n,
    ensures
        spec_digits_value(crate::text::spec_dec_digits(n)) == n,
    decreases n,
{
    if n < 10 {
        assert(crate::text::spec_dec_digits(n) == seq![crate::text::spec_digit_char(n)]);
        assert(seq![crate::text::spec_digit_char(n)].drop_last() =~= Seq::<char>::empty());
        assert(seq![crate::text::spec_digit_char(n)].last() == crate::text::spec_digit_char(n));
        assert(spec_digits_value(Seq::<char>::empty()) == 0);
        assert(spec_digit_value(crate::text::spec_digit_char(n)) == n);
    } else {
        lemma_decimal_round_trip(n / 10);
        let whole = crate::text::spec_dec_digits(n);
        assert(whole == crate::text::spec_dec_digits(n / 10).push(
            crate::text::spec_digit_char(n % 10),
        ));
        assert(whole.drop_last() =~= crate::text::spec_dec_digits(n / 10));
        assert(whole.last() == crate::text::spec_digit_char(n % 10));
        assert(spec_digit_value(crate::text::spec_digit_char(n % 10)) == n % 10);
        assert((n / 10) * 10 + n % 10 == n) by (nonlinear_arith);
    }
}

/// A digit string's value never goes below the value of any of its prefixes.
proof fn lemma_digits_value_bounds(s: Seq<char>, i: int)
    requires
        0 <= i <= s.len(),
    ensures
        spec_digits_value(s) >= spec_digits_value(s.take(i)),
        spec_digits_value(s.take(i)) >= 0,
    decreases s.len() - i,
{
    if i == s.len() {
        assert(s.take(i) =~= s);
        lemma_digits_value_nonneg(s);
    } else {
        lemma_digits_value_bounds(s, i + 1);
        assert(s.take(i + 1).drop_last() =~= s.take(i));
        assert(s.take(i + 1).last() == s[i]);
        lemma_digits_value_nonneg(s.take(i));
    }
}

proof fn lemma_digits_value_nonneg(s: Seq<char>)
    ensures
        spec_digits_value(s) >= 0,
    decreases s.len(),
{
    if s.len() > 0 {
        lemma_digits_value_nonneg(s.drop_last());
    }
}

fn bump_u32(c: u32) -> (r: u32)
    ensures
        r == spec_bump(c),
{
    if c < 0xffffffffu32 {
        c + 1
    } else {
        c
    }
}

/// Compares a character vector with a string, character for character.
fn chars_eq_str(v: &Vec<char>, s: &str) -> (r: bool)
    ensures
        r == (v@ == s@),
{
    let len = s.unicode_len();
    if v.len() != len {
        return false;
    }
    let mut i: usize = 0;
    while i < len
        invariant
            i <= len,
            len == s@.len(),
            v@.len() == len,
            forall|j: int| 0 <= j < i ==> v@[j] == s@[j],
        decreases len - i,
    {
        if v[i] != s.get_char(i) {
            return false;
        }
        i = i + 1;
    }
    proof {
        assert(v@ =~= s@);
    }
    true
}

/// The stateful lexing buffer. Pushing a character may finish a token, fail,
/// or stay silent; [`spec_push_char`] says exactly which.
pub struct LexBuffer {
    pub buffer: Vec<char>,
    pub mode: LexingState,
    pub current_line: u32,
    pub current_column: u32,
    pub token_column_marker: u32,
}

impl LexBuffer {
    /// The specification-level state of this buffer.
    pub open spec fn state(&self) -> LexState {
        LexState {
            buffer: self.buffer@,
            mode: self.mode,
            line: self.current_line,
            column: self.current_column,
            marker: self.token_column_marker,
        }
    }

    pub fn new() -> (r: LexBuffer)
        ensures
            r.state() == spec_initial_state(),
    {
        let r = LexBuffer {
            buffer: Vec::new(),
            mode: LexingState::Normal,
            current_line: 1,
            current_column: 1,
            token_column_marker: 1,
        };
        proof {
            assert(r.state().buffer =~= spec_initial_state().buffer);
        }
        r
    }

    /// True when the character ends the token before it.
    pub fn is_delimiting(character: char) -> (r: bool)
        ensures
            r == spec_is_delimiting(character),
    {
        is_space(character) || character == ';' || character == '+' || character == '-'
            || character == ',' || character == '.' || character == '(' || character == ')'
            || character == '=' || character == '<' || character == '>'
    }

    /// True when the character and the peeked one form `<=` or `>=`.
    pub fn makes_continuity_token(current: char, peek: char) -> (r: bool)
        ensures
            r == spec_makes_continuity(current, peek),
    {
        peek == '=' && (current == '<' || current == '>')
    }

    /// The position at which the buffered token began.
    pub fn current_source_marker(&self) -> (r: SourceRef)
        ensures
            r == (SourceRef { column: self.state().marker, line: self.state().line }),
    {
        SourceRef { column: self.token_column_marker, line: self.current_line }
    }

    /// Moves the column counter over the character just read.
    fn proceed_counters(&mut self)
        ensures
            final(self).state() == (LexState {
                column: spec_bump(old(self).state().column),
                ..old(self).state()
            }),
    {
        self.current_column = bump_u32(self.current_column);
    }

    /// Finishes the buffered token, per [`spec_pop_token`].
    fn pop_token(&mut self) -> (r: Result<Option<Token>, LexingError>)
        ensures
            ({
                let (st, out) = spec_pop_token(old(self).state());
                &&& final(self).state() == st
                &&& (match (r, out) {
                    (Ok(None), LexStep::Silent) => true,
                    (Ok(Some(t)), LexStep::Emit(sv, sr)) => token_view(t.token_type) == sv
                        && t.source_ref == sr,
                    (Err(e), LexStep::Fail(e2)) => e == e2,
                    _ => false,
                })
            }),
    {
        let sref = SourceRef { column: self.token_column_marker, line: self.current_line };
        if self.mode == LexingState::Integer {
            let mut value: u64 = 0;
            let mut i: usize = 0;
            while i < self.buffer.len()
                invariant
                    i <= self.buffer@.len(),
                    value == spec_digits_value(self.buffer@.take(i as int)),
                    value <= 0x7fffffff,
                    self.mode == LexingState::Integer,
                    *self == *old(self),
                    sref == (SourceRef {
                        column: old(self).state().marker,
                        line: old(self).state().line,
                    }),
                decreases self.buffer@.len() - i,
            {
                let c = self.buffer[i];
                let d: u32 = if is_digit(c) {
                    digit_value(c)
                } else {
                    0
                };
                let next_value: u64 = value * 10 + (d as u64);
                proof {
                    assert(self.buffer@.take(i + 1 as int).drop_last() =~= self.buffer@.take(
                        i as int,
                    ));
                    assert(self.buffer@.take(i + 1 as int).last() == self.buffer@[i as int]);
                    assert(next_value == spec_digits_value(self.buffer@.take(i + 1 as int)));
                }
                if next_value > 0x7fffffff {
                    proof {
                        lemma_digits_value_bounds(self.buffer@, i + 1 as int);
                    }
                    return Err(LexingError { kind: LexingErrors::NotInteger, location: sref });
                }
                value = next_value;
                i = i + 1;
            }
            proof {
                assert(self.buffer@.take(self.buffer@.len() as int) =~= self.buffer@);
            }
            let token_type = TokenTypes::INTEGER(value as i32);
            self.buffer = Vec::new();
            self.mode = LexingState::Normal;
            self.token_column_marker = self.current_column;
            proof {
                assert(final(self).state().buffer =~= Seq::<char>::empty());
            }
            Ok(Some(Token { token_type, source_ref: sref }))
        } else {
            let token_type = if chars_eq_str(&self.buffer, "select") {
                TokenTypes::SELECT
            } else if chars_eq_str(&self.buffer, "update") {
                TokenTypes::UPDATE
            } else if chars_eq_str(&self.buffer, "insert") {
                TokenTypes::INSERT
            } else if chars_eq_str(&self.buffer, "delete") {
                TokenTypes::DELETE
            } else if chars_eq_str(&self.buffer, "show") {
                TokenTypes::SHOW
            } else if chars_eq_str(&self.buffer, "tables") {
                TokenTypes::TABLES
            } else if chars_eq_str(&self.buffer, "where") {
                TokenTypes::WHERE
            } else if chars_eq_str(&self.buffer, "from") {
                TokenTypes::FROM
            } else if chars_eq_str(&self.buffer, "set") {
                TokenTypes::SET
            } else if chars_eq_str(&self.buffer, ",") {
                TokenTypes::COMMA
            } else if chars_eq_str(&self.buffer, ".") {
                TokenTypes::DOT
            } else if chars_eq_str(&self.buffer, "(") {
                TokenTypes::LPARENS
            } else if chars_eq_str(&self.buffer, ")") {
                TokenTypes::RPARENS
            } else if chars_eq_str(&self.buffer, "=") {
                TokenTypes::EQ
            } else if chars_eq_str(&self.buffer, "<") {
                TokenTypes::LT
            } else if chars_eq_str(&self.buffer, ">") {
                TokenTypes::GT
            } else if chars_eq_str(&self.buffer, "<=") {
                TokenTypes::LTE
            } else if chars_eq_str(&self.buffer, ">=") {
                TokenTypes::GTE
            } else if chars_eq_str(&self.buffer, "+") {
                TokenTypes::PLUS
            } else if chars_eq_str(&self.buffer, "-") {
                TokenTypes::MINUS
            } else if chars_eq_str(&self.buffer, ";") {
                TokenTypes::TERMINATE
            } else {
                TokenTypes::IDENTIFIER(string_of_chars(&self.buffer))
            };
            self.buffer = Vec::new();
            self.mode = LexingState::Normal;
            self.token_column_marker = self.current_column;
            proof {
                assert(final(self).state().buffer =~= Seq::<char>::empty());
            }
            Ok(Some(Token { token_type, source_ref: sref }))
        }
    }

    /// Pushes one character into the buffer, with a peek at the next; the
    /// effect is exactly [`spec_push_char`] on the buffer's state.
    pub fn push_char(&mut self, current_char: char, peek: Option<char>) -> (r: Result<
        Option<Token>,
        LexingError,
    >)
        ensures
            ({
                let (st, out) = spec_push_char(old(self).state(), current_char, peek);
                &&& final(self).state() == st
                &&& (match (r, out) {
                    (Ok(None), LexStep::Silent) => true,
                    (Ok(Some(t)), LexStep::Emit(sv, sr)) => token_view(t.token_type) == sv
                        && t.source_ref == sr,
                    (Err(e), LexStep::Fail(e2)) => e == e2,
                    _ => false,
                })
            }),
    {
        self.proceed_counters();
        if is_space(current_char) && !(self.mode == LexingState::Quoted) {
            self.token_column_marker = bump_u32(self.token_column_marker);
            return Ok(None);
        }
        if current_char == '\'' {
            if self.mode == LexingState::Quoted {
                let sref = SourceRef { column: self.token_column_marker, line: self.current_line };
                let text = string_of_chars(&self.buffer);
                self.buffer = Vec::new();
                self.mode = LexingState::Normal;
                self.token_column_marker = self.current_column;
                proof {
                    assert(final(self).state().buffer =~= Seq::<char>::empty());
                }
                return Ok(Some(Token { token_type: TokenTypes::STRING(text), source_ref: sref }));
            } else {
                self.mode = LexingState::Quoted;
                return Ok(None);
            }
        }
        if self.mode == LexingState::Quoted {
            self.buffer.push(current_char);
            return (match peek {
                Some(_) => Ok(None),
                None => Err(
                    LexingError {
                        kind: LexingErrors::StringNotTerminated,
                        location: SourceRef {
                            column: self.token_column_marker,
                            line: self.current_line,
                        },
                    },
                ),
            });
        }
        if !is_ascii_char(current_char) {
            return Err(
                LexingError {
                    kind: LexingErrors::IllegalCharacter(current_char),
                    location: SourceRef { column: self.current_column, line: self.current_line },
                },
            );
        }
        if self.mode == LexingState::Integer && !is_digit(current_char) {
            return Err(
                LexingError {
                    kind: LexingErrors::NotInteger,
                    location: SourceRef { column: self.token_column_marker, line: self.current_line },
                },
            );
        }
        if self.mode == LexingState::Normal && is_digit(current_char) && self.buffer.len() == 0 {
            self.mode = LexingState::Integer;
        }
        self.buffer.push(lower_char(current_char));
        if self.mode == LexingState::ForcePop {
            self.mode = LexingState::Normal;
            return self.pop_token();
        }
        match peek {
            Some(p) => {
                if Self::makes_continuity_token(current_char, p) {
                    self.mode = LexingState::ForcePop;
                    Ok(None)
                } else if Self::is_delimiting(current_char) {
                    self.pop_token()
                } else if Self::is_delimiting(p) {
                    self.pop_token()
                } else {
                    Ok(None)
                }
            },
            None => self.pop_token(),
        }
    }
}

/// The result of scanning for the next token from a state and a position:
/// the state and position after the scan, and the token or failure found.
pub open spec fn spec_scan(state: LexState, input: Seq<char>, i: int) -> (
    LexState,
    int,
    Result<Option<SpecToken>, LexingError>,
)
    decreases input.len() - i,
{
    if i < 0 || i >= input.len() {
        (state, i, Ok(None))
    } else {
        let peek = if i + 1 < input.len() {
            Some(input[i + 1])
        } else {
            None
        };
        let (st, out) = spec_push_char(state, input[i], peek);
        match out {
            LexStep::Silent => spec_scan(st, input, i + 1),
            LexStep::Emit(t, _) => (st, i + 1, Ok(Some(t))),
            LexStep::Fail(e) => (st, i + 1, Err(e)),
        }
    }
}

/// A consumable lexer over one input.
///
/// Every character outside string literals is folded to lower case, so
/// identifiers come out lower-cased.
pub struct SqlLexer {
    pub source: Vec<char>,
    pub position: usize,
    pub buffer: LexBuffer,
}

impl SqlLexer {
    /// The position never runs past the input.
    pub open spec fn wf(&self) -> bool {
        self.position <= self.source@.len()
    }

    pub fn new(source: &str) -> (r: SqlLexer)
        ensures
            r.source@ == source@,
            r.position == 0,
            r.buffer.state() == spec_initial_state(),
            r.wf(),
    {
        SqlLexer { source: chars_of(source), position: 0, buffer: LexBuffer::new() }
    }

    /// The next token of the input, `None` at its end, or the first failure;
    /// exactly what [`spec_scan`] finds from the lexer's current state.
    pub fn next(&mut self) -> (r: Result<Option<Token>, LexingError>)
        requires
            old(self).wf(),
        ensures
            final(self).wf(),
            ({
                let (st, j, out) = spec_scan(
                    old(self).buffer.state(),
                    old(self).source@,
                    old(self).position as int,
                );
                &&& final(self).buffer.state() == st
                &&& final(self).position == j
                &&& final(self).source@ == old(self).source@
                &&& (match (r, out) {
                    (Ok(None), Ok(None)) => true,
                    (Ok(Some(t)), Ok(Some(sv))) => token_view(t.token_type) == sv,
                    (Err(e), Err(e2)) => e == e2,
                    _ => false,
                })
            }),
    {
        loop
            invariant
                self.position <= self.source@.len(),
                self.source@ == old(self).source@,
                spec_scan(old(self).buffer.state(), old(self).source@, old(self).position as int)
                    == spec_scan(self.buffer.state(), self.source@, self.position as int),
            decreases self.source@.len() - self.position,
        {
            if self.position >= self.source.len() {
                return Ok(None);
            }
            let c = self.source[self.position];
            let peek = if self.position + 1 < self.source.len() {
                Some(self.source[self.position + 1])
            } else {
                None
            };
            self.position = self.position + 1;
            match self.buffer.push_char(c, peek) {
                Ok(Some(token)) => {
                    return Ok(Some(token));
                },
                Ok(None) => {},
                Err(e) => {
                    return Err(e);
                },
            }
        }
    }
}

/// The token kinds of an input, or its first failure, with an input that
/// yields no token at all reported as a failure of its own.
pub open spec fn spec_tokens_of(input: Seq<char>) -> Result<Seq<SpecToken>, LexingErrors> {
    match spec_lex(input) {
        Ok(ts) => if ts.len() == 0 {
            Err(LexingErrors::NoTokens)
        } else {
            Ok(ts)
        },
        Err(e) => Err(e.kind),
    }
}

/// An eagerly lexed token stream, consumed by the parser.
///
/// The whole input is lexed up front; `next` and `peek` then walk the tokens.
#[derive(Debug)]
pub struct Lexer {
    pub current_position: usize,
    pub tokens: Vec<Token>,
}

impl Lexer {
    /// The position never runs past the token list.
    pub open spec fn wf(&self) -> bool {
        self.current_position <= self.tokens@.len()
    }

    /// Lexes a whole input. An input without a single token is refused.
    pub fn with_input(sql: String) -> (r: Result<Lexer, LexingError>)
        ensures
            (match r {
                Ok(lexer) => {
                    &&& lexer.current_position == 0
                    &&& lexer.wf()
                    &&& (match spec_tokens_of(sql@) {
                        Ok(ts) => token_views(lexer.tokens@) == ts,
                        Err(_) => false,
                    })
                },
                Err(e) => spec_tokens_of(sql@) == Err::<Seq<SpecToken>, LexingErrors>(e.kind),
            }),
    {
        let chars = chars_of(sql.as_str());
        let mut buffer = LexBuffer::new();
        let mut tokens: Vec<Token> = Vec::new();
        let mut i: usize = 0;
        proof {
            assert(token_views(tokens@) + Seq::<SpecToken>::empty() =~= token_views(tokens@));
        }
        while i < chars.len()
            invariant
                i <= chars@.len(),
                chars@ == sql@,
                (match spec_lex_from(buffer.state(), sql@, i as int) {
                    Ok(rest) => spec_lex(sql@) == Ok::<Seq<SpecToken>, LexingError>(
                        token_views(tokens@) + rest,
                    ),
                    Err(e) => spec_lex(sql@) == Err::<Seq<SpecToken>, LexingError>(e),
                }),
            decreases chars@.len() - i,
        {
            let peek = if i + 1 < chars.len() {
                Some(chars[i + 1])
            } else {
                None
            };
            let ghost pre = buffer.state();
            match buffer.push_char(chars[i], peek) {
                Ok(Some(token)) => {
                    proof {
                        let (st, out) = spec_push_char(pre, sql@[i as int], peek);
                        if let Ok(rest) = spec_lex_from(st, sql@, i + 1 as int) {
                            assert(token_views(tokens@.push(token)) =~= token_views(tokens@)
                                + seq![token_view(token.token_type)]);
                            assert(token_views(tokens@) + (seq![token_view(token.token_type)]
                                + rest) =~= (token_views(tokens@) + seq![
                                token_view(token.token_type),
                            ]) + rest);
                        }
                    }
                    tokens.push(token);
                },
                Ok(None) => {},
                Err(e) => {
                    return Err(e);
                },
            }
            i = i + 1;
        }
        proof {
            assert(spec_lex_from(buffer.state(), sql@, i as int) == Ok::<
                Seq<SpecToken>,
                LexingError,
            >(Seq::<SpecToken>::empty()));
            assert(token_views(tokens@) + Seq::<SpecToken>::empty() =~= token_views(tokens@));
        }
        if tokens.len() == 0 {
            return Err(
                LexingError { kind: LexingErrors::NoTokens, location: buffer.current_source_marker() },
            );
        }
        Ok(Lexer { tokens, current_position: 0 })
    }

    /// True when a token remains.
    pub fn has_next(&self) -> (r: bool)
        ensures
            r == (self.current_position < self.tokens@.len()),
    {
        self.current_position < self.tokens.len()
    }

    /// The next token, without consuming it.
    pub fn peek(&self) -> (r: Option<&Token>)
        ensures
            (match r {
                Some(t) => self.current_position < self.tokens@.len() && *t
                    == self.tokens@[self.current_position as int],
                None => self.current_position >= self.tokens@.len(),
            }),
    {
        if self.current_position < self.tokens.len() {
            Some(&self.tokens[self.current_position])
        } else {
            None
        }
    }

    /// Consumes and returns the next token.
    pub fn next(&mut self) -> (r: Token)
        requires
            old(self).current_position < old(self).tokens@.len(),
        ensures
            final(self).tokens@ == old(self).tokens@,
            final(self).current_position == old(self).current_position + 1,
            token_view(r.token_type) == token_view(
                old(self).tokens@[old(self).current_position as int].token_type,
            ),
            r.source_ref == old(self).tokens@[old(self).current_position as int].source_ref,
    {
        let token = self.tokens[self.current_position].clone();
        if self.current_position < self.tokens.len() {
            self.current_position = self.current_position + 1;
        }
        token
    }
}

} // verus!
