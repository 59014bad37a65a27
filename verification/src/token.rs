//! The tokens of the language.

use vstd::prelude::*;
use vstd::std_specs::cmp::PartialEqSpecImpl;

verus! {

/// A token as the scanner hands it out. Identifiers and integer literals
/// carry the text that was matched; an integer literal is not parsed here.
#[allow(non_camel_case_types)]
#[derive(Debug)]
pub enum Token {
    ILLEGAL,
    EOF,
    // Identifiers + literals
    IDENT(String),
    INT(String),
    // Operators
    ASSIGN,
    PLUS,
    MINUS,
    BANG,
    ASTERISK,
    SLASH,
    LT,
    GT,
    EQ,
    NotEq,
    // Delimiters
    COMMA,
    SEMICOLON,
    LPAREN,
    RPAREN,
    LBRACE,
    RBRACE,
    // Keywords
    FUNCTION,
    LET,
    TRUE,
    FALSE,
    IF,
    ELSE,
    RETURN,
}

/// A token as a mathematical value: the category, and for identifiers and
/// integer literals the matched text as a sequence of characters.
pub enum TokenView {
    Illegal,
    Eof,
    Ident(Seq<char>),
    Int(Seq<char>),
    Assign,
    Plus,
    Minus,
    Bang,
    Asterisk,
    Slash,
    LessThan,
    GreaterThan,
    Equals,
    NotEquals,
    Comma,
    Semicolon,
    LeftParen,
    RightParen,
    LeftBrace,
    RightBrace,
    Function,
    Let,
    True,
    False,
    If,
    Else,
    Return,
}

impl View for Token {
    type V = TokenView;

    open spec fn view(&self) -> TokenView {
        match self {
            Token::ILLEGAL => TokenView::Illegal,
            Token::EOF => TokenView::Eof,
            Token::IDENT(text) => TokenView::Ident(text@),
            Token::INT(text) => TokenView::Int(text@),
            Token::ASSIGN => TokenView::Assign,
            Token::PLUS => TokenView::Plus,
            Token::MINUS => TokenView::Minus,
            Token::BANG => TokenView::Bang,
            Token::ASTERISK => TokenView::Asterisk,
            Token::SLASH => TokenView::Slash,
            Token::LT => TokenView::LessThan,
            Token::GT => TokenView::GreaterThan,
            Token::EQ => TokenView::Equals,
            Token::NotEq => TokenView::NotEquals,
            Token::COMMA => TokenView::Comma,
            Token::SEMICOLON => TokenView::Semicolon,
            Token::LPAREN => TokenView::LeftParen,
            Token::RPAREN => TokenView::RightParen,
            Token::LBRACE => TokenView::LeftBrace,
            Token::RBRACE => TokenView::RightBrace,
            Token::FUNCTION => TokenView::Function,
            Token::LET => TokenView::Let,
            Token::TRUE => TokenView::True,
            Token::FALSE => TokenView::False,
            Token::IF => TokenView::If,
            Token::ELSE => TokenView::Else,
            Token::RETURN => TokenView::Return,
        }
    }
}

/// The views of a sequence of tokens, in order.
pub open spec fn views(tokens: Seq<Token>) -> Seq<TokenView> {
    tokens.map_values(|t: Token| t@)
}

impl Token {
    /// Whether this is the token that ends every scan.
    pub fn is_eof(&self) -> (r: bool)
        ensures
            r == (self@ == TokenView::Eof),
    {
        match self {
            Token::EOF => true,
            _ => false,
        }
    }
}

impl Clone for Token {
    fn clone(&self) -> (r: Token)
        ensures
            r@ == self@,
    {
        match self {
            Token::ILLEGAL => Token::ILLEGAL,
            Token::EOF => Token::EOF,
            Token::IDENT(text) => Token::IDENT(text.clone()),
            Token::INT(text) => Token::INT(text.clone()),
            Token::ASSIGN => Token::ASSIGN,
            Token::PLUS => Token::PLUS,
            Token::MINUS => Token::MINUS,
            Token::BANG => Token::BANG,
            Token::ASTERISK => Token::ASTERISK,
            Token::SLASH => Token::SLASH,
            Token::LT => Token::LT,
            Token::GT => Token::GT,
            Token::EQ => Token::EQ,
            Token::NotEq => Token::NotEq,
            Token::COMMA => Token::COMMA,
            Token::SEMICOLON => Token::SEMICOLON,
            Token::LPAREN => Token::LPAREN,
            Token::RPAREN => Token::RPAREN,
            Token::LBRACE => Token::LBRACE,
            Token::RBRACE => Token::RBRACE,
            Token::FUNCTION => Token::FUNCTION,
            Token::LET => Token::LET,
            Token::TRUE => Token::TRUE,
            Token::FALSE => Token::FALSE,
            Token::IF => Token::IF,
            Token::ELSE => Token::ELSE,
            Token::RETURN => Token::RETURN,
        }
    }
}

impl PartialEq for Token {
    /// Two tokens are equal when they are of the same category and, where
    /// they carry text, carry the same text.
    fn eq(&self, other: &Token) -> (r: bool) {
        match (self, other) {
            (Token::ILLEGAL, Token::ILLEGAL) => true,
            (Token::EOF, Token::EOF) => true,
            (Token::IDENT(a), Token::IDENT(b)) => *a == *b,
            (Token::INT(a), Token::INT(b)) => *a == *b,
            (Token::ASSIGN, Token::ASSIGN) => true,
            (Token::PLUS, Token::PLUS) => true,
            (Token::MINUS, Token::MINUS) => true,
            (Token::BANG, Token::BANG) => true,
            (Token::ASTERISK, Token::ASTERISK) => true,
            (Token::SLASH, Token::SLASH) => true,
            (Token::LT, Token::LT) => true,
            (Token::GT, Token::GT) => true,
            (Token::EQ, Token::EQ) => true,
            (Token::NotEq, Token::NotEq) => true,
            (Token::COMMA, Token::COMMA) => true,
            (Token::SEMICOLON, Token::SEMICOLON) => true,
            (Token::LPAREN, Token::LPAREN) => true,
            (Token::RPAREN, Token::RPAREN) => true,
            (Token::LBRACE, Token::LBRACE) => true,
            (Token::RBRACE, Token::RBRACE) => true,
            (Token::FUNCTION, Token::FUNCTION) => true,
            (Token::LET, Token::LET) => true,
            (Token::TRUE, Token::TRUE) => true,
            (Token::FALSE, Token::FALSE) => true,
            (Token::IF, Token::IF) => true,
            (Token::ELSE, Token::ELSE) => true,
            (Token::RETURN, Token::RETURN) => true,
            _ => false,
        }
    }
}

impl PartialEqSpecImpl for Token {
    open spec fn obeys_eq_spec() -> bool {
        true
    }

    open spec fn eq_spec(&self, other: &Token) -> bool {
        self@ == other@
    }
}

} // verus!
