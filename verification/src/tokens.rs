//! The tokens of the SQL front end, with their source positions.

use vstd::prelude::*;

verus! {

/// A location in the lexed input: 1-based line and column.
#[derive(Debug, PartialEq, Eq, Structural, Clone, Copy)]
pub struct SourceRef {
    pub column: u32,
    pub line: u32,
}

/// The kinds of token the lexer can emit.
#[derive(Debug, PartialEq)]
pub enum TokenTypes {
    SELECT,
    UPDATE,
    INSERT,
    DELETE,
    SHOW,
    TABLES,
    WHERE,
    FROM,
    SET,
    COMMA,
    DOT,
    LPARENS,
    RPARENS,
    EQ,
    LT,
    GT,
    LTE,
    GTE,
    PLUS,
    MINUS,
    IDENTIFIER(String),
    STRING(String),
    INTEGER(i32),
    TERMINATE,
}

/// A token kind at the specification level: identifiers and string literals
/// are carried as character sequences.
pub enum SpecToken {
    Select,
    Update,
    Insert,
    Delete,
    Show,
    Tables,
    Where,
    From,
    SetKw,
    Comma,
    Dot,
    LParens,
    RParens,
    EqOp,
    Lt,
    Gt,
    Lte,
    Gte,
    Plus,
    Minus,
    Identifier(Seq<char>),
    StringLit(Seq<char>),
    Integer(i32),
    Terminate,
}

/// The specification-level view of a token kind.
pub open spec fn token_view(t: TokenTypes) -> SpecToken {
    match t {
        TokenTypes::SELECT => SpecToken::Select,
        TokenTypes::UPDATE => SpecToken::Update,
        TokenTypes::INSERT => SpecToken::Insert,
        TokenTypes::DELETE => SpecToken::Delete,
        TokenTypes::SHOW => SpecToken::Show,
        TokenTypes::TABLES => SpecToken::Tables,
        TokenTypes::WHERE => SpecToken::Where,
        TokenTypes::FROM => SpecToken::From,
        TokenTypes::SET => SpecToken::SetKw,
        TokenTypes::COMMA => SpecToken::Comma,
        TokenTypes::DOT => SpecToken::Dot,
        TokenTypes::LPARENS => SpecToken::LParens,
        TokenTypes::RPARENS => SpecToken::RParens,
        TokenTypes::EQ => SpecToken::EqOp,
        TokenTypes::LT => SpecToken::Lt,
        TokenTypes::GT => SpecToken::Gt,
        TokenTypes::LTE => SpecToken::Lte,
        TokenTypes::GTE => SpecToken::Gte,
        TokenTypes::PLUS => SpecToken::Plus,
        TokenTypes::MINUS => SpecToken::Minus,
        TokenTypes::IDENTIFIER(s) => SpecToken::Identifier(s@),
        TokenTypes::STRING(s) => SpecToken::StringLit(s@),
        TokenTypes::INTEGER(v) => SpecToken::Integer(v),
        TokenTypes::TERMINATE => SpecToken::Terminate,
    }
}

impl Clone for TokenTypes {
    fn clone(&self) -> (r: Self)
        ensures
            token_view(r) == token_view(*self),
    {
        match self {
            TokenTypes::SELECT => TokenTypes::SELECT,
            TokenTypes::UPDATE => TokenTypes::UPDATE,
            TokenTypes::INSERT => TokenTypes::INSERT,
            TokenTypes::DELETE => TokenTypes::DELETE,
            TokenTypes::SHOW => TokenTypes::SHOW,
            TokenTypes::TABLES => TokenTypes::TABLES,
            TokenTypes::WHERE => TokenTypes::WHERE,
            TokenTypes::FROM => TokenTypes::FROM,
            TokenTypes::SET => TokenTypes::SET,
            TokenTypes::COMMA => TokenTypes::COMMA,
            TokenTypes::DOT => TokenTypes::DOT,
            TokenTypes::LPARENS => TokenTypes::LPARENS,
            TokenTypes::RPARENS => TokenTypes::RPARENS,
            TokenTypes::EQ => TokenTypes::EQ,
            TokenTypes::LT => TokenTypes::LT,
            TokenTypes::GT => TokenTypes::GT,
            TokenTypes::LTE => TokenTypes::LTE,
            TokenTypes::GTE => TokenTypes::GTE,
            TokenTypes::PLUS => TokenTypes::PLUS,
            TokenTypes::MINUS => TokenTypes::MINUS,
            TokenTypes::IDENTIFIER(s) => TokenTypes::IDENTIFIER(s.clone()),
            TokenTypes::STRING(s) => TokenTypes::STRING(s.clone()),
            TokenTypes::INTEGER(v) => TokenTypes::INTEGER(*v),
            TokenTypes::TERMINATE => TokenTypes::TERMINATE,
        }
    }
}

/// One token: its kind and where it began in the input.
#[derive(Debug, PartialEq)]
pub struct Token {
    pub token_type: TokenTypes,
    pub source_ref: SourceRef,
}

impl Clone for Token {
    fn clone(&self) -> (r: Self)
        ensures
            token_view(r.token_type) == token_view(self.token_type),
            r.source_ref == self.source_ref,
    {
        Token { token_type: self.token_type.clone(), source_ref: self.source_ref }
    }
}

} // verus!
