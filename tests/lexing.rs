use std::str::FromStr;

use monkeylang::lexer::{Error, Lexer, Token, TokenKind};

fn lex_all(src: &[u8]) -> Result<Vec<Token>, Error> {
    Lexer::new(src).tokenize()
}

#[test]
fn each_punctuation_char_alone_is_one_token() {
    let cases = [
        ("=", Token::Assign),
        ("*", Token::Asterisk),
        ("!", Token::Bang),
        (",", Token::Comma),
        (">", Token::GreaterThan),
        ("{", Token::LeftBrace),
        ("(", Token::LeftParen),
        ("<", Token::LessThan),
        ("-", Token::Minus),
        ("+", Token::Plus),
        ("}", Token::RightBrace),
        (")", Token::RightParen),
        (";", Token::Semicolon),
        ("/", Token::Slash),
    ];
    for (src, tok) in cases {
        let mut lex = Lexer::new(src.as_bytes());
        assert_eq!(lex.next(), Some(Ok(tok)));
        assert_eq!(lex.next(), None);
    }
}

#[test]
fn two_char_operators_win_over_single_chars() {
    assert_eq!(lex_all(b"=="), Ok(vec![Token::Equal]));
    assert_eq!(lex_all(b"!="), Ok(vec![Token::NotEqual]));
    assert_eq!(lex_all(b"= ="), Ok(vec![Token::Assign, Token::Assign]));
    assert_eq!(lex_all(b"!x"), Ok(vec![Token::Bang, Token::Identifier("x".to_string())]));
    assert_eq!(lex_all(b"==="), Ok(vec![Token::Equal, Token::Assign]));
}

#[test]
fn whitespace_only_yields_nothing() {
    assert_eq!(lex_all(b" \t\n\r"), Ok(vec![]));
    assert_eq!(lex_all(b"\x0C  \n"), Ok(vec![]));
    assert_eq!(lex_all(b""), Ok(vec![]));
    let mut lex = Lexer::new(b"   ");
    assert_eq!(lex.next_token(), Err(Error::Eof));
}

#[test]
fn let_statement_tokens() {
    assert_eq!(
        lex_all(b"let five = 5;"),
        Ok(vec![
            Token::Let,
            Token::Identifier("five".to_string()),
            Token::Assign,
            Token::Integer(5),
            Token::Semicolon,
        ])
    );
}

#[test]
fn reserved_words_and_identifiers() {
    assert_eq!(
        lex_all(b"else false fn if let return true elsewhere _x"),
        Ok(vec![
            Token::Else,
            Token::False,
            Token::Function,
            Token::If,
            Token::Let,
            Token::Return,
            Token::True,
            Token::Identifier("elsewhere".to_string()),
            Token::Identifier("_x".to_string()),
        ])
    );
}

#[test]
fn token_at_end_of_input_is_kept() {
    assert_eq!(lex_all(b"x"), Ok(vec![Token::Identifier("x".to_string())]));
    assert_eq!(lex_all(b"42"), Ok(vec![Token::Integer(42)]));
    assert_eq!(lex_all(b"a!"), Ok(vec![Token::Identifier("a".to_string()), Token::Bang]));
}

#[test]
fn digit_run_stops_at_first_non_digit() {
    assert_eq!(
        lex_all(b"12abc"),
        Ok(vec![Token::Integer(12), Token::Identifier("abc".to_string())])
    );
    assert_eq!(lex_all(b"007"), Ok(vec![Token::Integer(7)]));
}

#[test]
fn largest_integer_and_overflow() {
    assert_eq!(lex_all(b"9223372036854775807"), Ok(vec![Token::Integer(i64::MAX)]));
    assert_eq!(
        lex_all(b"9223372036854775808"),
        Err(Error::Token("9223372036854775808".to_string()))
    );
}

#[test]
fn unmapped_bytes_are_errors() {
    assert_eq!(lex_all(b"a @ b"), Err(Error::Token("@".to_string())));
    assert_eq!(lex_all(&[0xe9]), Err(Error::Token("\u{e9}".to_string())));
    let mut lex = Lexer::new(b"x # y");
    assert_eq!(lex.next(), Some(Ok(Token::Identifier("x".to_string()))));
    assert_eq!(lex.next(), Some(Err(Error::Token("#".to_string()))));
    assert_eq!(lex.next(), Some(Ok(Token::Identifier("y".to_string()))));
    assert_eq!(lex.next(), None);
}

#[test]
fn reset_starts_over_on_new_source() {
    let mut lex = Lexer::new(b"let");
    assert_eq!(lex.next_token(), Ok(Token::Let));
    lex.reset(b"fn x");
    assert_eq!(lex.tokenize(), Ok(vec![Token::Function, Token::Identifier("x".to_string())]));
}

#[test]
fn token_from_text() {
    assert_eq!(Token::from_str("else"), Ok(Token::Else));
    assert_eq!(Token::from_str("="), Ok(Token::Assign));
    assert_eq!(Token::from_str("!="), Ok(Token::NotEqual));
    assert_eq!(Token::from_str("123"), Ok(Token::Integer(123)));
    assert_eq!(Token::from_str("abc"), Ok(Token::Identifier("abc".to_string())));
    assert_eq!(Token::from_str(""), Err(Error::Token(String::new())));
    assert_eq!(Token::from_str("12a"), Err(Error::Token("12a".to_string())));
    assert_eq!(Token::from_word("return"), Ok(Token::Return));
}

#[test]
fn token_helpers() {
    assert_eq!(Token::from_char('+'), Some(Token::Plus));
    assert_eq!(Token::from_char('a'), None);
    assert_eq!(Token::from_two_chars(&['=', '=']), Some(Token::Equal));
    assert_eq!(Token::from_two_chars(&['!', '=']), Some(Token::NotEqual));
    assert_eq!(Token::from_two_chars(&['=', '!']), None);
    assert!(Token::may_be_two_chars('!'));
    assert!(!Token::may_be_two_chars('+'));
    assert_eq!(Token::Identifier("a".to_string()).kind(), TokenKind::Identifier);
    assert_eq!(Token::Semicolon.kind(), TokenKind::Semicolon);
    let t = Token::Identifier("abc".to_string());
    assert_eq!(t.duplicate(), t);
}

#[test]
fn token_text() {
    assert_eq!(Token::LeftBrace.to_string(), "{");
    assert_eq!(Token::NotEqual.to_string(), "!=");
    assert_eq!(Token::Return.to_string(), "return");
    assert_eq!(Token::Identifier("abc".to_string()).to_string(), "abc");
    assert_eq!(Token::Integer(0).to_string(), "0");
    assert_eq!(Token::Integer(1234).to_string(), "1234");
    assert_eq!(Token::Integer(-42).to_string(), "-42");
    assert_eq!(Token::Integer(i64::MIN).to_string(), "-9223372036854775808");
    assert_eq!(Token::Integer(i64::MAX).to_string(), "9223372036854775807");
}

#[test]
fn default_lexer_has_empty_source() {
    let mut lex = Lexer::default();
    assert_eq!(lex.next(), None);
    assert_eq!(lex.next_token(), Err(Error::Eof));
}

#[test]
fn token_text_reads_back() {
    let tokens = vec![
        Token::Assign,
        Token::Equal,
        Token::NotEqual,
        Token::Else,
        Token::Function,
        Token::Identifier("abc_d".to_string()),
        Token::Integer(0),
        Token::Integer(i64::MAX),
    ];
    for t in tokens {
        assert_eq!(Token::from_str(&t.to_string()), Ok(t));
    }
    assert_eq!(Token::from_str("9223372036854775807"), Ok(Token::Integer(i64::MAX)));
    assert_eq!(Token::from_str("9223372036854775808"), Err(Error::Token("9223372036854775808".to_string())));
}
