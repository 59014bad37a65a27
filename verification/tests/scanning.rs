use monkey_lexer::lexer::{tokenize, Lexer};
use monkey_lexer::token::Token;

fn ident(text: &str) -> Token {
    Token::IDENT(String::from(text))
}

fn number(text: &str) -> Token {
    Token::INT(String::from(text))
}

#[test]
fn empty_input_is_end_of_file() {
    assert_eq!(tokenize(String::new()), vec![Token::EOF]);
}

#[test]
fn whitespace_only_is_end_of_file() {
    for input in [" ", "\t", "\n", "\r", "  \t\r\n \n\t  "] {
        assert_eq!(tokenize(String::from(input)), vec![Token::EOF]);
        let mut lexer = Lexer::new(String::from(input));
        assert_eq!(lexer.next_token(), Token::EOF);
    }
}

#[test]
fn end_of_file_repeats() {
    let mut lexer = Lexer::new(String::from("x ;"));
    assert_eq!(lexer.next_token(), ident("x"));
    assert_eq!(lexer.next_token(), Token::SEMICOLON);
    for _ in 0..5 {
        assert_eq!(lexer.next_token(), Token::EOF);
    }
}

#[test]
fn zero_byte_ends_the_scan() {
    let mut lexer = Lexer::new(String::from("a\0b"));
    assert_eq!(lexer.next_token(), ident("a"));
    for _ in 0..3 {
        assert_eq!(lexer.next_token(), Token::EOF);
    }
    assert_eq!(tokenize(String::from("a\0b")), vec![ident("a"), Token::EOF]);
}

#[test]
fn every_scan_ends_within_its_length() {
    let input = "let x=1;@@ fn";
    let mut lexer = Lexer::new(String::from(input));
    let mut calls = 0;
    while lexer.next_token() != Token::EOF {
        calls += 1;
        assert!(calls <= input.len());
    }
    assert_eq!(calls, 8);
}

#[test]
fn single_character_tokens() {
    let cases = [
        ("+", Token::PLUS),
        ("-", Token::MINUS),
        ("*", Token::ASTERISK),
        ("/", Token::SLASH),
        ("<", Token::LT),
        (">", Token::GT),
        (",", Token::COMMA),
        (";", Token::SEMICOLON),
        ("(", Token::LPAREN),
        (")", Token::RPAREN),
        ("{", Token::LBRACE),
        ("}", Token::RBRACE),
    ];
    for (input, token) in cases {
        assert_eq!(tokenize(String::from(input)), vec![token, Token::EOF]);
    }
}

#[test]
fn keywords() {
    let cases = [
        ("let", Token::LET),
        ("fn", Token::FUNCTION),
        ("true", Token::TRUE),
        ("false", Token::FALSE),
        ("if", Token::IF),
        ("else", Token::ELSE),
        ("return", Token::RETURN),
    ];
    for (input, token) in cases {
        assert_eq!(tokenize(String::from(input)), vec![token, Token::EOF]);
    }
}

#[test]
fn identifiers_carry_their_text() {
    for word in ["foobar", "x", "_", "_foo_bar", "Let", "LET", "lets", "f", "returns", "iff"] {
        assert_eq!(tokenize(String::from(word)), vec![ident(word), Token::EOF]);
    }
}

#[test]
fn digits_do_not_continue_an_identifier() {
    assert_eq!(tokenize(String::from("foo1")), vec![ident("foo"), number("1"), Token::EOF]);
    assert_eq!(tokenize(String::from("x2y")), vec![ident("x"), number("2"), ident("y"), Token::EOF]);
    assert_eq!(tokenize(String::from("1let")), vec![number("1"), Token::LET, Token::EOF]);
}

#[test]
fn integers_carry_their_digits() {
    for digits in ["0", "5", "10", "007", "123456789012345678901234567890"] {
        assert_eq!(tokenize(String::from(digits)), vec![number(digits), Token::EOF]);
    }
}

#[test]
fn two_character_operators() {
    assert_eq!(tokenize(String::from("==")), vec![Token::EQ, Token::EOF]);
    assert_eq!(tokenize(String::from("!=")), vec![Token::NotEq, Token::EOF]);
    assert_eq!(tokenize(String::from("=")), vec![Token::ASSIGN, Token::EOF]);
    assert_eq!(tokenize(String::from("!")), vec![Token::BANG, Token::EOF]);
}

#[test]
fn lookahead_takes_no_more_than_it_needs() {
    assert_eq!(tokenize(String::from("===")), vec![Token::EQ, Token::ASSIGN, Token::EOF]);
    assert_eq!(tokenize(String::from("!==")), vec![Token::NotEq, Token::ASSIGN, Token::EOF]);
    assert_eq!(tokenize(String::from("= =")), vec![Token::ASSIGN, Token::ASSIGN, Token::EOF]);
    assert_eq!(tokenize(String::from("=!")), vec![Token::ASSIGN, Token::BANG, Token::EOF]);
    assert_eq!(tokenize(String::from("!!=")), vec![Token::BANG, Token::NotEq, Token::EOF]);
    assert_eq!(tokenize(String::from("=+")), vec![Token::ASSIGN, Token::PLUS, Token::EOF]);
}

#[test]
fn let_statement() {
    assert_eq!(
        tokenize(String::from("let five = 5;")),
        vec![Token::LET, ident("five"), Token::ASSIGN, number("5"), Token::SEMICOLON, Token::EOF]
    );
}

#[test]
fn function_literal() {
    assert_eq!(
        tokenize(String::from("fn(x, y) { x + y; }")),
        vec![
            Token::FUNCTION,
            Token::LPAREN,
            ident("x"),
            Token::COMMA,
            ident("y"),
            Token::RPAREN,
            Token::LBRACE,
            ident("x"),
            Token::PLUS,
            ident("y"),
            Token::SEMICOLON,
            Token::RBRACE,
            Token::EOF,
        ]
    );
}

#[test]
fn illegal_byte_does_not_stop_the_scan() {
    assert_eq!(
        tokenize(String::from("a @ 1")),
        vec![ident("a"), Token::ILLEGAL, number("1"), Token::EOF]
    );
    assert_eq!(tokenize(String::from("@")), vec![Token::ILLEGAL, Token::EOF]);
    assert_eq!(
        tokenize(String::from("#$x")),
        vec![Token::ILLEGAL, Token::ILLEGAL, ident("x"), Token::EOF]
    );
}

#[test]
fn form_feed_is_no_whitespace() {
    assert_eq!(
        tokenize(String::from("a\u{c}b")),
        vec![ident("a"), Token::ILLEGAL, ident("b"), Token::EOF]
    );
}

#[test]
fn bytes_beyond_ascii_are_illegal_one_by_one() {
    assert_eq!(
        tokenize(String::from("é")),
        vec![Token::ILLEGAL, Token::ILLEGAL, Token::EOF]
    );
    assert_eq!(
        tokenize(String::from("x€y")),
        vec![ident("x"), Token::ILLEGAL, Token::ILLEGAL, Token::ILLEGAL, ident("y"), Token::EOF]
    );
}

#[test]
fn tokenize_agrees_with_next_token() {
    let input = "if (a != b) { return !true; } else { x = y == 10 }";
    let tokens = tokenize(String::from(input));
    let mut lexer = Lexer::new(String::from(input));
    for token in &tokens {
        assert_eq!(lexer.next_token(), *token);
    }
    assert_eq!(tokens.len(), 21);
    assert_eq!(tokens[tokens.len() - 1], Token::EOF);
    assert_eq!(tokens.iter().filter(|t| **t == Token::EOF).count(), 1);
}

#[test]
fn default_scanner_has_no_input() {
    let mut lexer = Lexer::default();
    assert_eq!(lexer.next_token(), Token::EOF);
    assert_eq!(lexer.next_token(), Token::EOF);
}
