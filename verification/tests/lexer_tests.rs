//! Tests of the lexer: the streaming lexer, the eager token stream, and the
//! lexing buffer with its source positions.

use microbat::lexer::{LexBuffer, Lexer, LexingError, LexingErrorKind, LexingErrors, SqlLexer};
use microbat::tokens::{Token, TokenTypes};

fn lexes_to(input: &str, expected_tokens: Vec<TokenTypes>) {
    let mut lexer = SqlLexer::new(input);
    for (index, expected_token) in expected_tokens.iter().enumerate() {
        let next_res = lexer.next();
        assert!(next_res.is_ok(), "Lexer returned error {:?}", next_res.unwrap_err());
        let next = next_res.unwrap();
        assert!(next.is_some(), "Expecting {:?} but lexer is finished", expected_token);
        assert_eq!(
            next.unwrap().token_type,
            *expected_token,
            "`{}` did not lex to {:?} at token index {}",
            input,
            expected_token,
            index
        );
    }
    let more_res = lexer.next();
    assert!(more_res.is_ok(), "Lexer returned error when finalized {:?}", more_res.unwrap_err());
    let more = more_res.unwrap();
    assert!(
        more.is_none(),
        "Lexer had more tokens than expected: {:?}",
        more.unwrap().token_type
    );
}

#[test]
fn test_lexing_errors() {
    assert_lexer_error(String::from(""), LexingErrorKind::NoTokens);
    assert_lexer_error(String::from(" "), LexingErrorKind::NoTokens);
    assert_lexer_error(String::from("   "), LexingErrorKind::NoTokens);
    assert_lexer_error(String::from("\t"), LexingErrorKind::NoTokens);

    assert_lexer_error(String::from("1d"), LexingErrorKind::NotInteger);
    assert_lexer_error(String::from("12foo"), LexingErrorKind::NotInteger);

    assert_lexer_error(String::from("'foo"), LexingErrorKind::StringNotTerminated);
    assert_lexer_error(String::from("'foo bar"), LexingErrorKind::StringNotTerminated);
}

fn assert_lexer_error(input: String, expected_kind: LexingErrors) {
    let error = Lexer::with_input(input.clone())
        .expect_err(format!("Expecting error for input '{}', but got Ok", input).as_str());
    assert_eq!(error.kind, expected_kind, "Received unexpected error, input '{}'", input);
}

#[test]
fn test_lexer_for_tokens() {
    lexes_to("SELECT", vec![TokenTypes::SELECT]);
    lexes_to("UPDATE", vec![TokenTypes::UPDATE]);
    lexes_to("INSERT", vec![TokenTypes::INSERT]);
    lexes_to("DELETE", vec![TokenTypes::DELETE]);
    lexes_to("WHERE", vec![TokenTypes::WHERE]);
    lexes_to("FROM", vec![TokenTypes::FROM]);
    lexes_to("SET", vec![TokenTypes::SET]);
    lexes_to("select", vec![TokenTypes::SELECT]);
    lexes_to("update", vec![TokenTypes::UPDATE]);
    lexes_to("insert", vec![TokenTypes::INSERT]);
    lexes_to("delete", vec![TokenTypes::DELETE]);
    lexes_to("where", vec![TokenTypes::WHERE]);
    lexes_to("from", vec![TokenTypes::FROM]);
    lexes_to("Select", vec![TokenTypes::SELECT]);
    lexes_to("upDAte", vec![TokenTypes::UPDATE]);
    lexes_to("inserT", vec![TokenTypes::INSERT]);
    lexes_to("deLEte", vec![TokenTypes::DELETE]);
    lexes_to("WHERe", vec![TokenTypes::WHERE]);
    lexes_to("fRoM", vec![TokenTypes::FROM]);

    lexes_to(",", vec![TokenTypes::COMMA]);
    lexes_to(".", vec![TokenTypes::DOT]);
    lexes_to("(", vec![TokenTypes::LPARENS]);
    lexes_to(")", vec![TokenTypes::RPARENS]);

    lexes_to("=", vec![TokenTypes::EQ]);
    lexes_to("<", vec![TokenTypes::LT]);
    lexes_to(">", vec![TokenTypes::GT]);
    lexes_to("<=", vec![TokenTypes::LTE]);
    lexes_to("<=", vec![TokenTypes::LTE]);

    lexes_to("'hello'", vec![TokenTypes::STRING(String::from("hello"))]);
    lexes_to("'\u{1f980}\u{1f980}'", vec![TokenTypes::STRING(String::from("\u{1f980}\u{1f980}"))]);

    lexes_to(";", vec![TokenTypes::TERMINATE]);

    lexes_to(
        "a.bar",
        vec![
            TokenTypes::IDENTIFIER(String::from("a")),
            TokenTypes::DOT,
            TokenTypes::IDENTIFIER(String::from("bar")),
        ],
    );
}

#[test]
fn test_lexer_corner_cases() {
    for input in vec!["a()", "a ()", "a ( )"] {
        lexes_to(
            input,
            vec![
                TokenTypes::IDENTIFIER(String::from("a")),
                TokenTypes::LPARENS,
                TokenTypes::RPARENS,
            ],
        );
    }
    for input in vec!["a(b)", "a (b)", "a (b )", "a ( b)"] {
        lexes_to(
            input,
            vec![
                TokenTypes::IDENTIFIER(String::from("a")),
                TokenTypes::LPARENS,
                TokenTypes::IDENTIFIER(String::from("b")),
                TokenTypes::RPARENS,
            ],
        );
    }
    for input in vec!["a(b, c)", "a(b,c)", "a (b,c)", "a ( b , c )"] {
        lexes_to(
            input,
            vec![
                TokenTypes::IDENTIFIER(String::from("a")),
                TokenTypes::LPARENS,
                TokenTypes::IDENTIFIER(String::from("b")),
                TokenTypes::COMMA,
                TokenTypes::IDENTIFIER(String::from("c")),
                TokenTypes::RPARENS,
            ],
        );
    }
    for input in vec!["a=b", "a =b", "a= b", "a  =  b"] {
        lexes_to(
            input,
            vec![
                TokenTypes::IDENTIFIER(String::from("a")),
                TokenTypes::EQ,
                TokenTypes::IDENTIFIER(String::from("b")),
            ],
        );
    }
    lexes_to(
        "a<b",
        vec![
            TokenTypes::IDENTIFIER(String::from("a")),
            TokenTypes::LT,
            TokenTypes::IDENTIFIER(String::from("b")),
        ],
    );
    lexes_to(
        "a>b",
        vec![
            TokenTypes::IDENTIFIER(String::from("a")),
            TokenTypes::GT,
            TokenTypes::IDENTIFIER(String::from("b")),
        ],
    );
    lexes_to(
        "a<=b",
        vec![
            TokenTypes::IDENTIFIER(String::from("a")),
            TokenTypes::LTE,
            TokenTypes::IDENTIFIER(String::from("b")),
        ],
    );
    lexes_to(
        "a>=b",
        vec![
            TokenTypes::IDENTIFIER(String::from("a")),
            TokenTypes::GTE,
            TokenTypes::IDENTIFIER(String::from("b")),
        ],
    );
    lexes_to("'hello world'", vec![TokenTypes::STRING(String::from("hello world"))]);
    lexes_to("'HELLO world'", vec![TokenTypes::STRING(String::from("HELLO world"))]);
    lexes_to(
        "'hello world\twith tab'",
        vec![TokenTypes::STRING(String::from("hello world\twith tab"))],
    );
}

#[test]
fn test_emoji_identifier() {
    let mut lexer = SqlLexer::new("\u{1f980}");
    let result = lexer.next();
    assert!(result.is_err(), "Was: {:?}", result);
    let err = result.unwrap_err();
    assert_eq!(err.kind, LexingErrors::IllegalCharacter('\u{1f980}'));
}

#[test]
fn test_string_not_terminated() {
    let mut lexer = SqlLexer::new("'a");
    let result = lexer.next();
    assert!(result.is_err(), "Was: {:?}", result);
    let err = result.unwrap_err();
    assert_eq!(err.kind, LexingErrors::StringNotTerminated);
}

#[test]
fn test_lexer_for_real_sql() {
    lexes_to(
        "SELECT a, b, c FROM foo WHERE a = b;",
        vec![
            TokenTypes::SELECT,
            TokenTypes::IDENTIFIER(String::from("a")),
            TokenTypes::COMMA,
            TokenTypes::IDENTIFIER(String::from("b")),
            TokenTypes::COMMA,
            TokenTypes::IDENTIFIER(String::from("c")),
            TokenTypes::FROM,
            TokenTypes::IDENTIFIER(String::from("foo")),
            TokenTypes::WHERE,
            TokenTypes::IDENTIFIER(String::from("a")),
            TokenTypes::EQ,
            TokenTypes::IDENTIFIER(String::from("b")),
            TokenTypes::TERMINATE,
        ],
    );
    lexes_to(
        "select a from bar where b <= c;",
        vec![
            TokenTypes::SELECT,
            TokenTypes::IDENTIFIER(String::from("a")),
            TokenTypes::FROM,
            TokenTypes::IDENTIFIER(String::from("bar")),
            TokenTypes::WHERE,
            TokenTypes::IDENTIFIER(String::from("b")),
            TokenTypes::LTE,
            TokenTypes::IDENTIFIER(String::from("c")),
            TokenTypes::TERMINATE,
        ],
    );
    lexes_to(
        "update a set b = NOW();",
        vec![
            TokenTypes::UPDATE,
            TokenTypes::IDENTIFIER(String::from("a")),
            TokenTypes::SET,
            TokenTypes::IDENTIFIER(String::from("b")),
            TokenTypes::EQ,
            TokenTypes::IDENTIFIER(String::from("now")),
            TokenTypes::LPARENS,
            TokenTypes::RPARENS,
            TokenTypes::TERMINATE,
        ],
    );
}

fn does_not_pop(result: Result<Option<Token>, LexingError>) {
    assert!(result.is_ok(), "Expecting result to be Ok, but was Err: {:?}", result.err().unwrap());
    let ok_result = result.unwrap();
    assert!(ok_result.is_none(), "Expecting result to be None but was Some {:?}", ok_result);
}

fn pops_token(
    result: Result<Option<Token>, LexingError>,
    expected_type: TokenTypes,
    expected_column: u32,
) {
    assert!(result.is_ok(), "Expecting result to be Ok, but was Err: {:?}", result.err().unwrap());
    let ok_result = result.unwrap();
    assert!(ok_result.is_some(), "Expecting result to be Some but was None");
    let token = ok_result.unwrap();
    assert_eq!(token.token_type, expected_type);
    assert_eq!(token.source_ref.column, expected_column, "Token column was wrong");
    assert_eq!(token.source_ref.line, 1, "Current line was wrong");
}

#[test]
fn test_pops_from_end_of_stream() {
    let mut buffer = LexBuffer::new();
    does_not_pop(buffer.push_char('A', Some('B')));
    does_not_pop(buffer.push_char('B', Some('C')));
    pops_token(buffer.push_char('C', None), TokenTypes::IDENTIFIER(String::from("abc")), 1);
}

#[test]
fn test_pops_with_whitespace() {
    let mut buffer = LexBuffer::new();
    does_not_pop(buffer.push_char('A', Some('B')));
    does_not_pop(buffer.push_char('B', Some('C')));
    pops_token(buffer.push_char('C', Some(' ')), TokenTypes::IDENTIFIER(String::from("abc")), 1);
    does_not_pop(buffer.push_char('D', Some('E')));
    does_not_pop(buffer.push_char('E', Some('F')));
    pops_token(buffer.push_char('F', None), TokenTypes::IDENTIFIER(String::from("def")), 4);
}

#[test]
fn test_does_not_pop_too_early() {
    let mut buffer = LexBuffer::new();
    does_not_pop(buffer.push_char('S', Some('E')));
    does_not_pop(buffer.push_char('E', Some('L')));
    does_not_pop(buffer.push_char('L', Some('E')));
    does_not_pop(buffer.push_char('E', Some('C')));
    does_not_pop(buffer.push_char('C', Some('T')));
    does_not_pop(buffer.push_char('T', Some('E')));
    does_not_pop(buffer.push_char('E', Some('D')));
    pops_token(buffer.push_char('D', None), TokenTypes::IDENTIFIER(String::from("selected")), 1);
}

#[test]
fn test_support_for_delimiting_tokens() {
    let mut buffer = LexBuffer::new();
    pops_token(buffer.push_char('a', Some('+')), TokenTypes::IDENTIFIER(String::from("a")), 1);
    pops_token(buffer.push_char('+', Some('b')), TokenTypes::PLUS, 2);
    pops_token(buffer.push_char('b', None), TokenTypes::IDENTIFIER(String::from("b")), 3);
}

#[test]
fn test_support_for_delimiting_tokens_with_whitespace() {
    let mut buffer = LexBuffer::new();
    pops_token(buffer.push_char('a', Some(' ')), TokenTypes::IDENTIFIER(String::from("a")), 1);
    does_not_pop(buffer.push_char(' ', Some('+')));
    pops_token(buffer.push_char('+', Some(' ')), TokenTypes::PLUS, 3);
    does_not_pop(buffer.push_char(' ', Some('b')));
    pops_token(buffer.push_char('b', None), TokenTypes::IDENTIFIER(String::from("b")), 5);
}

#[test]
fn test_filling_and_auto_popping_ready_buffer() {
    let mut buffer = LexBuffer::new();
    does_not_pop(buffer.push_char('S', Some('E')));
    does_not_pop(buffer.push_char('E', Some('L')));
    does_not_pop(buffer.push_char('L', Some('E')));
    does_not_pop(buffer.push_char('E', Some('C')));
    does_not_pop(buffer.push_char('C', Some('T')));
    pops_token(buffer.push_char('T', Some(' ')), TokenTypes::SELECT, 1);
    // Whitespace
    does_not_pop(buffer.push_char(' ', Some('W')));
    // Here the buffer must be reset
    does_not_pop(buffer.push_char('W', Some('H')));
    does_not_pop(buffer.push_char('H', Some('E')));
    does_not_pop(buffer.push_char('E', Some('R')));
    does_not_pop(buffer.push_char('R', Some('E')));
    pops_token(buffer.push_char('E', None), TokenTypes::WHERE, 8);
}

#[test]
fn test_integer_literals_lex() {
    lexes_to("1;", vec![TokenTypes::INTEGER(1), TokenTypes::TERMINATE]);
    lexes_to("1234;", vec![TokenTypes::INTEGER(1234), TokenTypes::TERMINATE]);
    lexes_to("2147483647;", vec![TokenTypes::INTEGER(2147483647), TokenTypes::TERMINATE]);
    lexes_to(
        "1+2",
        vec![TokenTypes::INTEGER(1), TokenTypes::PLUS, TokenTypes::INTEGER(2)],
    );
    lexes_to(
        "foo1",
        vec![TokenTypes::IDENTIFIER(String::from("foo1"))],
    );
}

#[test]
fn test_oversized_integer_literal_fails() {
    assert_lexer_error(String::from("2147483648;"), LexingErrorKind::NotInteger);
    assert_lexer_error(String::from("99999999999999999999;"), LexingErrorKind::NotInteger);
}

#[test]
fn test_relexing_reassembled_tokens_gives_the_same_kinds() {
    // Reassembling a lexed input with single spaces and lexing again yields
    // the same token kinds.
    let input = "select a, b from foo where a <= 'b c';";
    let first = collect_kinds(input);
    let mut reassembled = String::new();
    for kind in &first {
        reassembled.push_str(render_token(kind).as_str());
        reassembled.push(' ');
    }
    let second = collect_kinds(reassembled.as_str());
    assert_eq!(first, second);
}

fn collect_kinds(input: &str) -> Vec<TokenTypes> {
    let mut lexer = SqlLexer::new(input);
    let mut kinds = vec![];
    while let Some(token) = lexer.next().unwrap() {
        kinds.push(token.token_type);
    }
    kinds
}

fn render_token(kind: &TokenTypes) -> String {
    match kind {
        TokenTypes::SELECT => String::from("select"),
        TokenTypes::UPDATE => String::from("update"),
        TokenTypes::INSERT => String::from("insert"),
        TokenTypes::DELETE => String::from("delete"),
        TokenTypes::SHOW => String::from("show"),
        TokenTypes::TABLES => String::from("tables"),
        TokenTypes::WHERE => String::from("where"),
        TokenTypes::FROM => String::from("from"),
        TokenTypes::SET => String::from("set"),
        TokenTypes::COMMA => String::from(","),
        TokenTypes::DOT => String::from("."),
        TokenTypes::LPARENS => String::from("("),
        TokenTypes::RPARENS => String::from(")"),
        TokenTypes::EQ => String::from("="),
        TokenTypes::LT => String::from("<"),
        TokenTypes::GT => String::from(">"),
        TokenTypes::LTE => String::from("<="),
        TokenTypes::GTE => String::from(">="),
        TokenTypes::PLUS => String::from("+"),
        TokenTypes::MINUS => String::from("-"),
        TokenTypes::IDENTIFIER(name) => name.clone(),
        TokenTypes::STRING(text) => format!("'{}'", text),
        TokenTypes::INTEGER(value) => format!("{}", value),
        TokenTypes::TERMINATE => String::from(";"),
    }
}
