//! The scanner: a cursor over a buffer of bytes that hands out one token
//! per call.

use vstd::prelude::*;
use vstd::slice::slice_subrange;
use vstd::utf8::{
    decode_utf8, encode_utf8, encode_utf8_decode_utf8, encode_utf8_valid_utf8,
    is_ascii_chars_encode_utf8, valid_utf8,
};
use crate::ascii::{
    byte_at, lemma_run_end, run_end, ByteClass, ASTERISK, BANG, COMMA, EQUALS, GREATER_THAN,
    LEFT_BRACE, LEFT_PAREN, LESS_THAN, MINUS, NUL, PLUS, RIGHT_BRACE, RIGHT_PAREN, SEMICOLON,
    SLASH,
};
use crate::grammar::{scan, text_of, token_stream};
use crate::keywords::lookup_ident;
use crate::token::{views, Token, TokenView};

verus! {

/// The text of `bytes`, by `String::from_utf8_lossy`: bytes that are valid
/// UTF-8 come back as the characters they encode. What becomes of other
/// bytes is not stated.
#[verifier::external_body]
fn lossy_text(bytes: &[u8]) -> (text: String)
    ensures
        valid_utf8(bytes@) ==> text@ == decode_utf8(bytes@),
{
    String::from_utf8_lossy(bytes).to_string()
}

/// ASCII bytes are valid UTF-8 and encode one character each.
pub proof fn lemma_ascii_text(bytes: Seq<u8>)
    requires
        forall|i: int| 0 <= i < bytes.len() ==> bytes[i] < 0x80,
    ensures
        valid_utf8(bytes),
        decode_utf8(bytes) == text_of(bytes),
{
    let chars = text_of(bytes);
    is_ascii_chars_encode_utf8(chars);
    assert(encode_utf8(chars) =~= bytes);
    encode_utf8_valid_utf8(chars);
    encode_utf8_decode_utf8(chars);
}

/// Where the scanner stands in its input.
#[derive(Clone, Copy)]
struct Cursor {
    /// Index of the byte under examination; the length of the input when
    /// nothing is left.
    position: usize,
    /// Index of the next byte to read; never past the end of the input.
    read_position: usize,
    /// The byte under examination, `NUL` when nothing is left.
    ch: u8,
}

impl Cursor {
    /// The three fields agree with each other and with `input`.
    spec fn rests_on(self, input: Seq<u8>) -> bool {
        &&& self.position <= input.len()
        &&& self.read_position == if self.position < input.len() {
            self.position + 1
        } else {
            input.len() as int
        }
        &&& self.ch == byte_at(input, self.position as int)
    }

    /// The cursor that examines the byte at `index`.
    fn at(input: &Vec<u8>, index: usize) -> (cursor: Cursor)
        requires
            index <= input.len(),
        ensures
            cursor.rests_on(input@),
            cursor.position == index,
    {
        if index < input.len() {
            Cursor { position: index, read_position: index + 1, ch: input[index] }
        } else {
            Cursor { position: index, read_position: index, ch: NUL }
        }
    }
}

/// A scanner over one input buffer, which it owns.
pub struct Lexer {
    cursor: Cursor,
    input: Vec<u8>,
}

/// A scanner as a mathematical value.
pub struct LexerView {
    /// The bytes of the whole input.
    pub input: Seq<u8>,
    /// The index of the byte under examination.
    pub position: int,
}

impl View for Lexer {
    type V = LexerView;

    closed spec fn view(&self) -> LexerView {
        LexerView { input: self.input@, position: self.cursor.position as int }
    }
}

impl Lexer {
    #[verifier::type_invariant]
    spec fn well_formed(self) -> bool {
        self.cursor.rests_on(self.input@)
    }

    /// A scanner at the start of `input`, read as its UTF-8 bytes.
    pub fn new(input: String) -> (lexer: Lexer)
        ensures
            lexer@.input == encode_utf8(input@),
            lexer@.position == 0,
    {
        let input = input.as_str().as_bytes_vec();
        let cursor = Cursor::at(&input, 0);
        Lexer { cursor, input }
    }

    /// Moves on to the next byte; at the end of the input nothing changes.
    fn read_char(&mut self)
        ensures
            final(self)@.input == old(self)@.input,
            final(self)@.position == if old(self)@.position < old(self)@.input.len() {
                old(self)@.position + 1
            } else {
                old(self)@.position
            },
    {
        proof {
            use_type_invariant(&*self);
        }
        self.cursor = Cursor::at(&self.input, self.cursor.read_position);
    }

    /// The byte after the one under examination, `NUL` if there is none.
    fn peek_char(&self) -> (b: u8)
        ensures
            b == byte_at(self@.input, self@.position + 1),
    {
        proof {
            use_type_invariant(self);
        }
        if self.cursor.read_position >= self.input.len() {
            NUL
        } else {
            self.input[self.cursor.read_position]
        }
    }

    /// Moves to the end of the run of bytes of `class` that starts under
    /// the cursor.
    fn skip_run(&mut self, class: ByteClass)
        ensures
            final(self)@.input == old(self)@.input,
            final(self)@.position == run_end(old(self)@.input, old(self)@.position, class),
    {
        proof {
            use_type_invariant(&*self);
        }
        while class.contains(self.cursor.ch)
            invariant
                self@.input == old(self)@.input,
                self.well_formed(),
                run_end(self@.input, self@.position, class) == run_end(
                    old(self)@.input,
                    old(self)@.position,
                    class,
                ),
            decreases self@.input.len() - self@.position,
        {
            self.read_char();
            proof {
                use_type_invariant(&*self);
            }
        }
    }

    /// The text of the bytes from `start` up to the cursor, which must all
    /// be ASCII.
    fn text_since(&self, start: usize) -> (text: String)
        requires
            start <= self@.position,
            forall|i: int| start <= i < self@.position ==> #[trigger] self@.input[i] < 0x80,
        ensures
            text@ == text_of(self@.input.subrange(start as int, self@.position)),
    {
        proof {
            use_type_invariant(self);
        }
        let bytes = slice_subrange(self.input.as_slice(), start, self.cursor.position);
        proof {
            assert forall|i: int| 0 <= i < bytes@.len() implies bytes@[i] < 0x80 by {
                assert(bytes@[i] == self@.input[start + i]);
            }
            lemma_ascii_text(bytes@);
        }
        lossy_text(bytes)
    }

    /// Reads the run of letters under the cursor.
    fn read_identifier(&mut self) -> (text: String)
        ensures
            final(self)@.input == old(self)@.input,
            final(self)@.position == run_end(
                old(self)@.input,
                old(self)@.position,
                ByteClass::Letter,
            ),
            text@ == text_of(
                old(self)@.input.subrange(old(self)@.position, final(self)@.position),
            ),
    {
        proof {
            use_type_invariant(&*self);
            lemma_run_end(self@.input, self@.position, ByteClass::Letter);
        }
        let position = self.cursor.position;
        self.skip_run(ByteClass::Letter);
        self.text_since(position)
    }

    /// Reads the run of digits under the cursor.
    fn read_number(&mut self) -> (text: String)
        ensures
            final(self)@.input == old(self)@.input,
            final(self)@.position == run_end(
                old(self)@.input,
                old(self)@.position,
                ByteClass::Digit,
            ),
            text@ == text_of(
                old(self)@.input.subrange(old(self)@.position, final(self)@.position),
            ),
    {
        proof {
            use_type_invariant(&*self);
            lemma_run_end(self@.input, self@.position, ByteClass::Digit);
        }
        let position = self.cursor.position;
        self.skip_run(ByteClass::Digit);
        self.text_since(position)
    }

    /// Passes over whitespace.
    fn skip_whitespace(&mut self)
        ensures
            final(self)@.input == old(self)@.input,
            final(self)@.position == run_end(
                old(self)@.input,
                old(self)@.position,
                ByteClass::Space,
            ),
    {
        self.skip_run(ByteClass::Space);
    }
}

impl Lexer {
    /// Hands out the next token and moves past it.
    ///
    /// Never fails: a byte that starts no token comes back as
    /// `Token::ILLEGAL`, and scanning goes on behind it. Once the end-of-file
    /// token has come, the scanner stays where it is.
    pub fn next_token(&mut self) -> (token: Token)
        ensures
            final(self)@.input == old(self)@.input,
            token@ == scan(old(self)@.input, old(self)@.position).token,
            final(self)@.position == scan(old(self)@.input, old(self)@.position).end,
            old(self)@.position <= final(self)@.position <= final(self)@.input.len(),
            token@ != TokenView::Eof ==> old(self)@.position < final(self)@.position,
    {
        proof {
            use_type_invariant(&*self);
            lemma_run_end(self@.input, self@.position, ByteClass::Space);
        }
        self.skip_whitespace();
        proof {
            use_type_invariant(&*self);
            lemma_run_end(self@.input, self@.position, ByteClass::Letter);
            lemma_run_end(self@.input, self@.position, ByteClass::Digit);
        }
        let ch = self.cursor.ch;
        let token = match ch {
            EQUALS => {
                if self.peek_char() == EQUALS {
                    self.read_char();
                    Token::EQ
                } else {
                    Token::ASSIGN
                }
            },
            SEMICOLON => Token::SEMICOLON,
            LEFT_PAREN => Token::LPAREN,
            RIGHT_PAREN => Token::RPAREN,
            COMMA => Token::COMMA,
            PLUS => Token::PLUS,
            MINUS => Token::MINUS,
            BANG => {
                if self.peek_char() == EQUALS {
                    self.read_char();
                    Token::NotEq
                } else {
                    Token::BANG
                }
            },
            ASTERISK => Token::ASTERISK,
            SLASH => Token::SLASH,
            LESS_THAN => Token::LT,
            GREATER_THAN => Token::GT,
            LEFT_BRACE => Token::LBRACE,
            RIGHT_BRACE => Token::RBRACE,
            NUL => {
                return Token::EOF;
            },
            _ => {
                if ByteClass::Letter.contains(ch) {
                    let ident = self.read_identifier();
                    return lookup_ident(ident);
                } else if ByteClass::Digit.contains(ch) {
                    return Token::INT(self.read_number());
                } else {
                    Token::ILLEGAL
                }
            },
        };
        self.read_char();
        token
    }
}

/// Scans `input` from start to end: every token in order, the last of
/// them, and only the last, end-of-file.
pub fn tokenize(input: String) -> (tokens: Vec<Token>)
    ensures
        views(tokens@) == token_stream(encode_utf8(input@), 0),
{
    let ghost bytes = encode_utf8(input@);
    let mut lexer = Lexer::new(input);
    let mut tokens: Vec<Token> = Vec::new();
    loop
        invariant_except_break
            lexer@.input == bytes,
            0 <= lexer@.position <= bytes.len(),
            views(tokens@) + token_stream(bytes, lexer@.position) == token_stream(bytes, 0),
        ensures
            views(tokens@) == token_stream(bytes, 0),
        decreases bytes.len() - lexer@.position,
    {
        let ghost before = lexer@.position;
        let ghost scanned = views(tokens@);
        let token = lexer.next_token();
        let done = token.is_eof();
        tokens.push(token);
        proof {
            assert(views(tokens@) =~= scanned + seq![token@]);
            if done {
                assert(views(tokens@) =~= scanned + token_stream(bytes, before));
            } else {
                assert(views(tokens@) + token_stream(bytes, lexer@.position) =~= scanned
                    + token_stream(bytes, before));
            }
        }
        if done {
            break ;
        }
    }
    tokens
}

impl Default for Lexer {
    /// A scanner over the empty input.
    fn default() -> (lexer: Lexer)
        ensures
            lexer@.input == Seq::<u8>::empty(),
            lexer@.position == 0,
    {
        let input: Vec<u8> = Vec::new();
        let cursor = Cursor::at(&input, 0);
        Lexer { cursor, input }
    }
}

} // verus!
