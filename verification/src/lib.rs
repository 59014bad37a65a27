//! A lexical scanner for the Monkey scripting language.
//!
//! The scanner reads a buffer of bytes and hands out one [`token::Token`] per
//! call. What it returns is fixed by the functions of [`grammar`], which
//! describe the token that starts at any position of any input.

pub mod ascii;
pub mod token;
pub mod keywords;
pub mod grammar;
pub mod lexer;
