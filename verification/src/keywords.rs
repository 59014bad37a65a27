//! The reserved words, and the lookup that tells them from identifiers.

use vstd::prelude::*;
use vstd::utf8::{encode_utf8, encode_utf8_decode_utf8};
use crate::token::{Token, TokenView};

verus! {

/// The keyword that `word` spells, if it spells one.
pub open spec fn keyword(word: Seq<char>) -> Option<TokenView> {
    if word == "fn"@ {
        Some(TokenView::Function)
    } else if word == "let"@ {
        Some(TokenView::Let)
    } else if word == "true"@ {
        Some(TokenView::True)
    } else if word == "false"@ {
        Some(TokenView::False)
    } else if word == "if"@ {
        Some(TokenView::If)
    } else if word == "else"@ {
        Some(TokenView::Else)
    } else if word == "return"@ {
        Some(TokenView::Return)
    } else {
        None
    }
}

/// The token for a run of letters: its keyword, or else an identifier that
/// carries the run.
pub open spec fn word_token(word: Seq<char>) -> TokenView {
    match keyword(word) {
        Some(token) => token,
        None => TokenView::Ident(word),
    }
}

/// Whether two strings hold the same text, read off their bytes.
fn same_text(a: &str, b: &str) -> (r: bool)
    ensures
        r == (a@ == b@),
{
    let x = a.as_bytes();
    let y = b.as_bytes();
    if x.len() != y.len() {
        return false;
    }
    let mut i: usize = 0;
    while i < x.len()
        invariant
            i <= x.len() == y.len(),
            x@ == encode_utf8(a@),
            y@ == encode_utf8(b@),
            forall|j: int| 0 <= j < i ==> x[j] == y[j],
        decreases x.len() - i,
    {
        if x[i] != y[i] {
            return false;
        }
        i += 1;
    }
    proof {
        assert(x@ =~= y@);
        encode_utf8_decode_utf8(a@);
        encode_utf8_decode_utf8(b@);
    }
    true
}

/// The token for the word `ident`: the keyword it spells, or else an
/// identifier that carries it.
pub fn lookup_ident(ident: String) -> (token: Token)
    ensures
        token@ == word_token(ident@),
{
    let word = ident.as_str();
    if same_text(word, "fn") {
        Token::FUNCTION
    } else if same_text(word, "let") {
        Token::LET
    } else if same_text(word, "true") {
        Token::TRUE
    } else if same_text(word, "false") {
        Token::FALSE
    } else if same_text(word, "if") {
        Token::IF
    } else if same_text(word, "else") {
        Token::ELSE
    } else if same_text(word, "return") {
        Token::RETURN
    } else {
        Token::IDENT(ident)
    }
}

} // verus!
