use monkey_lexer::lexer::{Lexer, TokenParsingError};
use monkey_lexer::token::{Token, TokenKind};

/// Drains a scanner over `input` to the end-of-input token (inclusive),
/// panicking on an unrecognized character.
fn drain(input: &str) -> Vec<(TokenKind, String)> {
    let mut lexer = Lexer::new(String::from(input));
    let mut out: Vec<(TokenKind, String)> = Vec::new();
    loop {
        let token = match lexer.next_token() {
            Ok(token) => token,
            Err(_) => panic!("Error parsing token: unknown token."),
        };
        let done = token.kind == TokenKind::Eof;
        out.push((token.kind, token.literal));
        if done {
            return out;
        }
    }
}

fn pairs(expected: &[(TokenKind, &str)]) -> Vec<(TokenKind, String)> {
    expected.iter().map(|(k, l)| (*k, String::from(*l))).collect()
}

#[test]
fn single_fixed_tokens() {
    let cases = [
        ("+", TokenKind::Plus),
        ("-", TokenKind::Minus),
        ("*", TokenKind::Asterisk),
        ("/", TokenKind::Slash),
        ("<", TokenKind::Lt),
        (">", TokenKind::Gt),
        ("(", TokenKind::LParen),
        (")", TokenKind::RParen),
        ("{", TokenKind::LBrace),
        ("}", TokenKind::RBrace),
        (",", TokenKind::Comma),
        (";", TokenKind::Semicolon),
    ];
    for (text, kind) in cases {
        assert_eq!(drain(text), pairs(&[(kind, text), (TokenKind::Eof, "")]));
    }
}

#[test]
fn operator_lookahead() {
    assert_eq!(drain("=="), pairs(&[(TokenKind::Eq, "=="), (TokenKind::Eof, "")]));
    assert_eq!(drain("!="), pairs(&[(TokenKind::NotEq, "!="), (TokenKind::Eof, "")]));
    assert_eq!(drain("="), pairs(&[(TokenKind::Assign, "="), (TokenKind::Eof, "")]));
    assert_eq!(drain("!"), pairs(&[(TokenKind::Bang, "!"), (TokenKind::Eof, "")]));
}

#[test]
fn identifier_runs() {
    assert_eq!(drain("foobar"), pairs(&[(TokenKind::Ident, "foobar"), (TokenKind::Eof, "")]));
    assert_eq!(drain("x"), pairs(&[(TokenKind::Ident, "x"), (TokenKind::Eof, "")]));
    assert_eq!(drain("_x"), pairs(&[(TokenKind::Ident, "_x"), (TokenKind::Eof, "")]));
    // Scanning resumes at the character right after the run: nothing is
    // skipped or duplicated.
    assert_eq!(
        drain("ab+cd"),
        pairs(&[
            (TokenKind::Ident, "ab"),
            (TokenKind::Plus, "+"),
            (TokenKind::Ident, "cd"),
            (TokenKind::Eof, ""),
        ])
    );
}

#[test]
fn identifier_run_stops_at_digit() {
    // Identifier runs hold letters and underscores only: a digit terminates
    // the run and begins an integer literal.
    assert_eq!(
        drain("_x1"),
        pairs(&[(TokenKind::Ident, "_x"), (TokenKind::Int, "1"), (TokenKind::Eof, "")])
    );
}

#[test]
fn keywords_in_isolation() {
    let cases = [
        ("fn", TokenKind::Function),
        ("let", TokenKind::Let),
        ("true", TokenKind::True),
        ("false", TokenKind::False),
        ("if", TokenKind::If),
        ("else", TokenKind::Else),
        ("return", TokenKind::Return),
    ];
    for (text, kind) in cases {
        assert_eq!(drain(text), pairs(&[(kind, text), (TokenKind::Eof, "")]));
        assert_eq!(Token::lookup_identifier(text), kind);
    }
}

#[test]
fn lookup_identifier_generic() {
    assert_eq!(Token::lookup_identifier("foobar"), TokenKind::Ident);
    assert_eq!(Token::lookup_identifier("fnord"), TokenKind::Ident);
    assert_eq!(Token::lookup_identifier("Let"), TokenKind::Ident);
    assert_eq!(Token::lookup_identifier(""), TokenKind::Ident);
}

#[test]
fn integer_runs() {
    assert_eq!(drain("0"), pairs(&[(TokenKind::Int, "0"), (TokenKind::Eof, "")]));
    assert_eq!(drain("12341"), pairs(&[(TokenKind::Int, "12341"), (TokenKind::Eof, "")]));
}

#[test]
fn whitespace_is_skipped() {
    assert_eq!(drain(" \t\r\n 5 \t "), pairs(&[(TokenKind::Int, "5"), (TokenKind::Eof, "")]));
    assert_eq!(
        drain("a \n b"),
        pairs(&[(TokenKind::Ident, "a"), (TokenKind::Ident, "b"), (TokenKind::Eof, "")])
    );
    assert_eq!(drain("   "), pairs(&[(TokenKind::Eof, "")]));
    assert_eq!(drain(""), pairs(&[(TokenKind::Eof, "")]));
}

#[test]
fn let_statement_end_to_end() {
    assert_eq!(
        drain("let five = 5;"),
        pairs(&[
            (TokenKind::Let, "let"),
            (TokenKind::Ident, "five"),
            (TokenKind::Assign, "="),
            (TokenKind::Int, "5"),
            (TokenKind::Semicolon, ";"),
            (TokenKind::Eof, ""),
        ])
    );
}

#[test]
fn comparisons_end_to_end() {
    assert_eq!(
        drain("10 == 10; 10 != 9;"),
        pairs(&[
            (TokenKind::Int, "10"),
            (TokenKind::Eq, "=="),
            (TokenKind::Int, "10"),
            (TokenKind::Semicolon, ";"),
            (TokenKind::Int, "10"),
            (TokenKind::NotEq, "!="),
            (TokenKind::Int, "9"),
            (TokenKind::Semicolon, ";"),
            (TokenKind::Eof, ""),
        ])
    );
}

#[test]
fn unrecognized_character() {
    let mut lexer = Lexer::new(String::from("@"));
    let first = lexer.next_token();
    assert!(matches!(first, Err(TokenParsingError::UnknownToken)));
    // The failure is local to the one character: the next call reaches the
    // end of the input.
    let second = lexer.next_token().expect("end of input expected");
    assert_eq!(second.kind, TokenKind::Eof);
    assert_eq!(second.literal, String::from(""));
}

#[test]
fn unrecognized_character_does_not_poison() {
    let mut lexer = Lexer::new(String::from("a@b"));
    let first = lexer.next_token().expect("identifier expected");
    assert_eq!(first.kind, TokenKind::Ident);
    assert_eq!(first.literal, String::from("a"));
    assert!(matches!(lexer.next_token(), Err(TokenParsingError::UnknownToken)));
    let third = lexer.next_token().expect("identifier expected");
    assert_eq!(third.kind, TokenKind::Ident);
    assert_eq!(third.literal, String::from("b"));
    let fourth = lexer.next_token().expect("end of input expected");
    assert_eq!(fourth.kind, TokenKind::Eof);
}

#[test]
fn draining_is_deterministic() {
    let text = "let add = fn(x, y) { x + y; }; add(1, 2) == 3;";
    assert_eq!(drain(text), drain(text));
}

#[test]
fn end_of_input_repeats() {
    let mut lexer = Lexer::new(String::from("x"));
    let first = lexer.next_token().expect("identifier expected");
    assert_eq!(first.kind, TokenKind::Ident);
    for _ in 0..3 {
        let token = lexer.next_token().expect("end of input expected");
        assert_eq!(token.kind, TokenKind::Eof);
        assert_eq!(token.literal, String::from(""));
    }
}
