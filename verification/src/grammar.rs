//! What the scanner recognises, as functions on a sequence of bytes.
//!
//! `scan` gives the token that a scanner standing at a position hands out
//! next and the position at which it then stands; `token_stream` gives all
//! the tokens up to and including the end-of-file token.

use vstd::prelude::*;
use crate::ascii::{
    byte_at, run_end, ByteClass, ASTERISK, BANG, COMMA, EQUALS, GREATER_THAN, LEFT_BRACE,
    LEFT_PAREN, LESS_THAN, MINUS, NUL, PLUS, RIGHT_BRACE, RIGHT_PAREN, SEMICOLON, SLASH,
};
use crate::keywords::{keyword, word_token};
use crate::token::TokenView;

verus! {

/// The text that a run of ASCII bytes spells: one character per byte.
pub open spec fn text_of(bytes: Seq<u8>) -> Seq<char> {
    bytes.map_values(|b: u8| b as char)
}

/// The token that the single byte `b` stands for when nothing longer
/// starts with it; a byte that stands for none is illegal.
pub open spec fn symbol(b: u8) -> TokenView {
    if b == EQUALS {
        TokenView::Assign
    } else if b == SEMICOLON {
        TokenView::Semicolon
    } else if b == LEFT_PAREN {
        TokenView::LeftParen
    } else if b == RIGHT_PAREN {
        TokenView::RightParen
    } else if b == COMMA {
        TokenView::Comma
    } else if b == PLUS {
        TokenView::Plus
    } else if b == MINUS {
        TokenView::Minus
    } else if b == BANG {
        TokenView::Bang
    } else if b == ASTERISK {
        TokenView::Asterisk
    } else if b == SLASH {
        TokenView::Slash
    } else if b == LESS_THAN {
        TokenView::LessThan
    } else if b == GREATER_THAN {
        TokenView::GreaterThan
    } else if b == LEFT_BRACE {
        TokenView::LeftBrace
    } else if b == RIGHT_BRACE {
        TokenView::RightBrace
    } else {
        TokenView::Illegal
    }
}

/// A token together with the index just past its last byte.
pub struct Lexeme {
    pub token: TokenView,
    pub end: int,
}

/// The token that starts exactly at `start`, where no whitespace stands.
///
/// A zero byte, or the end of the input, gives end-of-file and consumes
/// nothing. A letter starts the longest run of letters, a digit the longest
/// run of digits. `==` and `!=` are taken whole; every other byte is a token
/// by itself.
pub open spec fn lexeme_at(input: Seq<u8>, start: int) -> Lexeme {
    let b = byte_at(input, start);
    if b == NUL {
        Lexeme { token: TokenView::Eof, end: start }
    } else if ByteClass::Letter.contains(b) {
        let end = run_end(input, start, ByteClass::Letter);
        Lexeme { token: word_token(text_of(input.subrange(start, end))), end }
    } else if ByteClass::Digit.contains(b) {
        let end = run_end(input, start, ByteClass::Digit);
        Lexeme { token: TokenView::Int(text_of(input.subrange(start, end))), end }
    } else if b == EQUALS && byte_at(input, start + 1) == EQUALS {
        Lexeme { token: TokenView::Equals, end: start + 2 }
    } else if b == BANG && byte_at(input, start + 1) == EQUALS {
        Lexeme { token: TokenView::NotEquals, end: start + 2 }
    } else {
        Lexeme { token: symbol(b), end: start + 1 }
    }
}

/// The next token for a scanner that stands at `pos`: whitespace is
/// skipped, then the token that starts there is taken.
pub open spec fn scan(input: Seq<u8>, pos: int) -> Lexeme {
    lexeme_at(input, run_end(input, pos, ByteClass::Space))
}

/// All the tokens from `pos` on, the last of which is end-of-file.
pub open spec fn token_stream(input: Seq<u8>, pos: int) -> Seq<TokenView>
    decreases input.len() - pos,
    via token_stream_decreases
{
    let next = scan(input, pos);
    if 0 <= pos <= input.len() && next.token != TokenView::Eof {
        seq![next.token] + token_stream(input, next.end)
    } else {
        seq![TokenView::Eof]
    }
}

#[via_fn]
proof fn token_stream_decreases(input: Seq<u8>, pos: int) {
    if 0 <= pos <= input.len() {
        lemma_scan_advances(input, pos);
    }
}

/// Every token but end-of-file consumes at least one byte, and no token
/// reaches past the end of the input.
pub proof fn lemma_scan_advances(input: Seq<u8>, pos: int)
    requires
        0 <= pos <= input.len(),
    ensures
        pos <= scan(input, pos).end <= input.len(),
        scan(input, pos).token != TokenView::Eof ==> pos < scan(input, pos).end,
{
    let start = run_end(input, pos, ByteClass::Space);
    crate::ascii::lemma_run_end(input, pos, ByteClass::Space);
    crate::ascii::lemma_run_end(input, start, ByteClass::Letter);
    crate::ascii::lemma_run_end(input, start, ByteClass::Digit);
}

/// A word or a number is a whole run: it holds nothing but letters, or
/// nothing but digits, and the byte behind it is not one more of them.
pub proof fn lemma_runs_are_maximal(input: Seq<u8>, pos: int, class: ByteClass)
    requires
        0 <= pos <= input.len(),
        class != ByteClass::Space,
        class.contains(byte_at(input, run_end(input, pos, ByteClass::Space))),
    ensures
        forall|i: int|
            run_end(input, pos, ByteClass::Space) <= i < scan(input, pos).end ==> class.contains(
                #[trigger] input[i],
            ),
        !class.contains(byte_at(input, scan(input, pos).end)),
{
    let start = run_end(input, pos, ByteClass::Space);
    crate::ascii::lemma_run_end(input, pos, ByteClass::Space);
    crate::ascii::lemma_run_end(input, start, class);
}

/// Where a scanner that started at `pos` stands after `n` tokens.
pub open spec fn position_after(input: Seq<u8>, pos: int, n: nat) -> int
    decreases n,
{
    if n == 0 {
        pos
    } else {
        position_after(input, scan(input, pos).end, (n - 1) as nat)
    }
}

/// The token that a scanner that started at `pos` hands out after `n`
/// earlier ones.
pub open spec fn nth_token(input: Seq<u8>, pos: int, n: nat) -> TokenView {
    scan(input, position_after(input, pos, n)).token
}

/// Input that is whitespace throughout holds no token but end-of-file.
pub proof fn lemma_whitespace_only(input: Seq<u8>, pos: int)
    requires
        0 <= pos <= input.len(),
        forall|i: int| 0 <= i < input.len() ==> ByteClass::Space.contains(#[trigger] input[i]),
    ensures
        scan(input, pos).token == TokenView::Eof,
        token_stream(input, pos) == seq![TokenView::Eof],
{
    crate::ascii::lemma_run_end_unique(input, pos, ByteClass::Space, input.len() as int);
}

/// After end-of-file the scanner stays where it is and hands out
/// end-of-file again.
pub proof fn lemma_eof_repeats(input: Seq<u8>, pos: int)
    requires
        scan(input, pos).token == TokenView::Eof,
    ensures
        scan(input, scan(input, pos).end) == scan(input, pos),
{
    let start = run_end(input, pos, ByteClass::Space);
    assert(run_end(input, start, ByteClass::Space) == start);
}

/// Every call after the first end-of-file hands out end-of-file too.
pub proof fn lemma_eof_is_terminal(input: Seq<u8>, pos: int, n: nat, m: nat)
    requires
        nth_token(input, pos, n) == TokenView::Eof,
        n <= m,
    ensures
        nth_token(input, pos, m) == TokenView::Eof,
    decreases m,
{
    if n < m {
        if n == 0 {
            lemma_eof_repeats(input, pos);
            lemma_eof_is_terminal(input, scan(input, pos).end, 0, (m - 1) as nat);
        } else {
            lemma_eof_is_terminal(input, scan(input, pos).end, (n - 1) as nat, (m - 1) as nat);
        }
    }
}

/// A scanner reaches end-of-file after at most as many tokens as bytes
/// are left.
pub proof fn lemma_reaches_eof(input: Seq<u8>, pos: int)
    requires
        0 <= pos <= input.len(),
    ensures
        nth_token(input, pos, (input.len() - pos) as nat) == TokenView::Eof,
    decreases input.len() - pos,
{
    let left = (input.len() - pos) as nat;
    let next = scan(input, pos);
    lemma_scan_advances(input, pos);
    if next.token == TokenView::Eof {
        lemma_eof_is_terminal(input, pos, 0, left);
    } else {
        lemma_reaches_eof(input, next.end);
        lemma_eof_is_terminal(
            input,
            next.end,
            (input.len() - next.end) as nat,
            (left - 1) as nat,
        );
    }
}

/// The token stream holds the tokens in the order of the calls: one
/// for each call up to the first end-of-file, which is its last.
pub proof fn lemma_token_stream(input: Seq<u8>, pos: int)
    requires
        0 <= pos <= input.len(),
    ensures
        0 < token_stream(input, pos).len() <= input.len() - pos + 1,
        token_stream(input, pos).last() == TokenView::Eof,
        forall|n: nat|
            n < token_stream(input, pos).len() ==> token_stream(input, pos)[n as int]
                == #[trigger] nth_token(input, pos, n),
        forall|n: nat|
            n + 1 < token_stream(input, pos).len() ==> #[trigger] nth_token(input, pos, n)
                != TokenView::Eof,
    decreases input.len() - pos,
{
    let next = scan(input, pos);
    lemma_scan_advances(input, pos);
    if next.token != TokenView::Eof {
        lemma_token_stream(input, next.end);
        let rest = token_stream(input, next.end);
        assert forall|n: nat| n < token_stream(input, pos).len() implies token_stream(
            input,
            pos,
        )[n as int] == #[trigger] nth_token(input, pos, n) by {
            if n > 0 {
                assert(rest[n - 1] == nth_token(input, next.end, (n - 1) as nat));
            }
        }
        assert forall|n: nat| n + 1 < token_stream(input, pos).len() implies #[trigger] nth_token(
            input,
            pos,
            n,
        ) != TokenView::Eof by {
            if n > 0 {
                assert(nth_token(input, next.end, (n - 1) as nat) != TokenView::Eof);
            }
        }
    }
}

/// A byte that is a token by itself, alone in the input, gives that token
/// and then end-of-file.
pub proof fn lemma_single_symbol(b: u8)
    requires
        symbol(b) != TokenView::Illegal,
    ensures
        token_stream(seq![b], 0) == seq![symbol(b), TokenView::Eof],
{
    let input = seq![b];
    assert(run_end(input, 0, ByteClass::Space) == 0);
    assert(scan(input, 0) == Lexeme { token: symbol(b), end: 1 });
    assert(scan(input, 1).token == TokenView::Eof);
    reveal_with_fuel(token_stream, 2);
    assert(token_stream(input, 0) =~= seq![symbol(b), TokenView::Eof]);
}

/// Input that is one run of letters gives the keyword it spells, or else
/// an identifier that carries exactly that run, and then end-of-file.
pub proof fn lemma_single_word(input: Seq<u8>)
    requires
        input.len() > 0,
        forall|i: int| 0 <= i < input.len() ==> ByteClass::Letter.contains(#[trigger] input[i]),
    ensures
        token_stream(input, 0) == seq![word_token(text_of(input)), TokenView::Eof],
        keyword(text_of(input)) is None ==> token_stream(input, 0) == seq![
            TokenView::Ident(text_of(input)),
            TokenView::Eof,
        ],
{
    let end = input.len() as int;
    assert(run_end(input, 0, ByteClass::Space) == 0);
    crate::ascii::lemma_run_end_unique(input, 0, ByteClass::Letter, end);
    assert(input.subrange(0, end) =~= input);
    assert(scan(input, 0) == Lexeme { token: word_token(text_of(input)), end });
    assert(word_token(text_of(input)) != TokenView::Eof);
    assert(scan(input, end).token == TokenView::Eof);
    reveal_with_fuel(token_stream, 2);
    assert(token_stream(input, 0) =~= seq![word_token(text_of(input)), TokenView::Eof]);
}

/// A byte that starts no token is handed out as illegal, alone, and the
/// scanner goes on behind it.
pub proof fn lemma_illegal_byte(input: Seq<u8>, pos: int)
    requires
        0 <= pos < input.len(),
        input[pos] != NUL,
        !ByteClass::Space.contains(input[pos]),
        !ByteClass::Letter.contains(input[pos]),
        !ByteClass::Digit.contains(input[pos]),
        symbol(input[pos]) == TokenView::Illegal,
    ensures
        scan(input, pos) == (Lexeme { token: TokenView::Illegal, end: pos + 1 }),
{
}

} // verus!
