//! Tokens and lexical errors.

use vstd::prelude::*;
use crate::value::Rat;

verus! {

/// An atomic lexical unit: a numeric literal (already converted to an exact
/// fraction), one of the four operator symbols, or a parenthesis.
#[derive(Clone, Copy, Debug, PartialEq, Eq)]
pub enum Token {
    Number(Rat),
    Plus,
    Minus,
    Star,
    Slash,
    LParen,
    RParen,
}

impl Token {
    /// A token is well-formed when any fraction it carries is.
    pub open spec fn wf(self) -> bool {
        match self {
            Token::Number(r) => r.wf(),
            _ => true,
        }
    }
}

/// A fatal lexical error; `pos` is the character index in the input.
#[derive(Clone, Copy, Debug, PartialEq, Eq)]
pub enum LexError {
    /// A character that matches no recognized token pattern, at `pos`.
    UnexpectedChar { ch: char, pos: usize },
    /// A numeric literal starting at `pos` that has no digit, more than one
    /// decimal point, or more than [`crate::lexer::MAX_LIT_DIGITS`] digits.
    MalformedNumber { pos: usize },
}

} // verus!
