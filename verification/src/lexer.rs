//! Lexical analysis: text to tokens.
//!
//! The scanner walks the input left to right. A space produces no token;
//! each of `+ - * / ( )` maps to its single-character token; a digit or `.`
//! begins a numeric literal, which greedily consumes the following digits
//! and `.` characters; any other character is a fatal error carrying the
//! character and its position.
//!
//! A literal is rejected (as [`LexError::MalformedNumber`], carrying the
//! position where the literal starts) when it has no digit at all, more
//! than one decimal point, or more than [`MAX_LIT_DIGITS`] digits; the last
//! limit keeps the literal's exact value inside the fraction type. An
//! accepted literal with `f` fractional digits becomes the exact fraction
//! `mantissa / 10^f`, where the mantissa is the literal's digit string read
//! as a decimal integer.

use vstd::prelude::*;
use crate::token::{LexError, Token};
use crate::value::Rat;

verus! {

/// The most digits a numeric literal may carry; 10^18 still fits in the
/// fraction type's `i64` fields.
pub const MAX_LIT_DIGITS: usize = 18;

pub open spec fn is_digit(c: char) -> bool {
    48 <= c as u32 <= 57
}

pub open spec fn digit_val(c: char) -> int {
    c as u32 - 48
}

/// The characters a numeric literal is scanned from.
pub open spec fn is_num_char(c: char) -> bool {
    is_digit(c) || c == '.'
}

/// The single-character tokens.
pub open spec fn char_token(c: char) -> Option<Token> {
    if c == '+' {
        Some(Token::Plus)
    } else if c == '-' {
        Some(Token::Minus)
    } else if c == '*' {
        Some(Token::Star)
    } else if c == '/' {
        Some(Token::Slash)
    } else if c == '(' {
        Some(Token::LParen)
    } else if c == ')' {
        Some(Token::RParen)
    } else {
        None
    }
}

pub open spec fn dot_count(t: Seq<char>) -> int
    decreases t.len(),
{
    if t.len() == 0 {
        0
    } else {
        dot_count(t.drop_last()) + if t.last() == '.' {
            1int
        } else {
            0int
        }
    }
}

pub open spec fn digit_count(t: Seq<char>) -> int
    decreases t.len(),
{
    if t.len() == 0 {
        0
    } else {
        digit_count(t.drop_last()) + if is_digit(t.last()) {
            1int
        } else {
            0int
        }
    }
}

/// How many digits stand after the first decimal point.
pub open spec fn frac_digits(t: Seq<char>) -> int
    decreases t.len(),
{
    if t.len() == 0 {
        0
    } else {
        frac_digits(t.drop_last()) + if dot_count(t.drop_last()) > 0 && is_digit(t.last()) {
            1int
        } else {
            0int
        }
    }
}

/// The literal's digit string read as a decimal integer, ignoring any `.`.
pub open spec fn lit_mantissa(t: Seq<char>) -> int
    decreases t.len(),
{
    if t.len() == 0 {
        0
    } else if is_digit(t.last()) {
        lit_mantissa(t.drop_last()) * 10 + digit_val(t.last())
    } else {
        lit_mantissa(t.drop_last())
    }
}

pub open spec fn pow10(k: int) -> int
    decreases k,
{
    if k <= 0 {
        1
    } else {
        10 * pow10(k - 1)
    }
}

/// The exact fraction an accepted literal denotes, or `None` when the
/// literal is malformed.
pub open spec fn spec_lit(t: Seq<char>) -> Option<Rat> {
    if 1 <= digit_count(t) <= MAX_LIT_DIGITS as int && dot_count(t) <= 1 {
        Some(Rat { num: lit_mantissa(t) as i64, den: pow10(frac_digits(t)) as i64 })
    } else {
        None
    }
}

/// The first index at or after `j` whose character no longer belongs to a
/// numeric literal.
pub open spec fn lit_end(s: Seq<char>, j: int) -> int
    decreases s.len() - j,
{
    if j < s.len() && is_num_char(s[j]) {
        lit_end(s, j + 1)
    } else {
        j
    }
}

/// The token sequence of the input from position `i` on, or the first
/// lexical error.
pub open spec fn spec_tokenize_from(s: Seq<char>, i: int) -> Result<Seq<Token>, LexError>
    decreases s.len() - i,
{
    if i < 0 || i >= s.len() {
        Ok(Seq::empty())
    } else {
        let c = s[i];
        if c == ' ' {
            spec_tokenize_from(s, i + 1)
        } else if is_num_char(c) {
            let e = lit_end(s, i);
            let next = if e <= i {
                i + 1
            } else if e > s.len() {
                s.len() as int
            } else {
                e
            };
            match spec_lit(s.subrange(i, next)) {
                None => Err(LexError::MalformedNumber { pos: i as usize }),
                Some(r) => match spec_tokenize_from(s, next) {
                    Ok(rest) => Ok(seq![Token::Number(r)] + rest),
                    Err(e2) => Err(e2),
                },
            }
        } else {
            match char_token(c) {
                Some(t) => match spec_tokenize_from(s, i + 1) {
                    Ok(rest) => Ok(seq![t] + rest),
                    Err(e2) => Err(e2),
                },
                None => Err(LexError::UnexpectedChar { ch: c, pos: i as usize }),
            }
        }
    }
}

/// The token sequence of the whole input, or the first lexical error.
pub open spec fn spec_tokenize(s: Seq<char>) -> Result<Seq<Token>, LexError> {
    spec_tokenize_from(s, 0)
}

pub proof fn lemma_pow10_pos(k: int)
    ensures
        1 <= pow10(k),
    decreases k,
{
    if k > 0 {
        lemma_pow10_pos(k - 1);
    }
}

pub proof fn lemma_pow10_mono(a: int, b: int)
    requires
        a <= b,
    ensures
        pow10(a) <= pow10(b),
    decreases b,
{
    if a < b && b > 0 {
        lemma_pow10_mono(a, b - 1);
        lemma_pow10_pos(b - 1);
    }
}

pub proof fn lemma_pow10_vals()
    ensures
        pow10(17) == 100000000000000000,
        pow10(MAX_LIT_DIGITS as int) == 1000000000000000000,
{
    reveal_with_fuel(pow10, 20);
}

/// The scanned prefix of the tokenizer's main loop: the tokens already
/// produced, followed by whatever the rest of the input yields, form the
/// whole input's result.
spec fn lex_step(s: Seq<char>, done: Seq<Token>, i: int) -> bool {
    match spec_tokenize_from(s, i) {
        Ok(rest) => spec_tokenize_from(s, 0) == Ok::<Seq<Token>, LexError>(done + rest),
        Err(e) => spec_tokenize_from(s, 0) == Err::<Seq<Token>, LexError>(e),
    }
}

fn num_char_at(s: &str, k: usize) -> (b: bool)
    requires
        k < s@.len(),
    ensures
        b == is_num_char(s@[k as int]),
{
    let c: char = s.get_char(k);
    let u: u32 = c as u32;
    (48 <= u && u <= 57) || c == '.'
}

/// Converts the input text to its ordered token sequence, or reports the
/// first lexical error: an unrecognized character (with that character and
/// its position) or a malformed numeric literal (with its starting
/// position).
pub fn tokenize(input: &str) -> (r: Result<Vec<Token>, LexError>)
    ensures
        (match r {
            Ok(ts) => spec_tokenize(input@) == Ok::<Seq<Token>, LexError>(ts@),
            Err(e) => spec_tokenize(input@) == Err::<Seq<Token>, LexError>(e),
        }),
{
    let ghost s = input@;
    let n: usize = input.unicode_len();
    let mut toks: Vec<Token> = Vec::new();
    let mut i: usize = 0;
    while i < n
        invariant
            input@ == s,
            n == s.len(),
            i <= n,
            lex_step(s, toks@, i as int),
        decreases n - i,
    {
        let c: char = input.get_char(i);
        if c == ' ' {
            i = i + 1;
        } else {
            let u: u32 = c as u32;
            if (48 <= u && u <= 57) || c == '.' {
                let start: usize = i;
                let mut k: usize = i;
                let mut m: i64 = 0;
                let mut digits: usize = 0;
                let mut dots: usize = 0;
                let mut frac: usize = 0;
                while k < n && num_char_at(input, k)
                    invariant
                        input@ == s,
                        n == s.len(),
                        start <= k <= n,
                        start < n,
                        is_num_char(s[start as int]),
                        lit_end(s, start as int) == lit_end(s, k as int),
                        dots as int == dot_count(s.subrange(start as int, k as int)),
                        digits as int == digit_count(s.subrange(start as int, k as int)),
                        frac as int == frac_digits(s.subrange(start as int, k as int)),
                        frac <= digits,
                        dots + digits <= k - start,
                        0 <= m,
                        digits <= MAX_LIT_DIGITS ==> (m as int == lit_mantissa(
                            s.subrange(start as int, k as int),
                        ) && (m as int) < pow10(digits as int)),
                    decreases n - k,
                {
                    let c2: char = input.get_char(k);
                    proof {
                        let sub = s.subrange(start as int, k as int);
                        assert(s.subrange(start as int, k as int + 1) =~= sub.push(s[k as int]));
                        assert(sub.push(s[k as int]).drop_last() =~= sub);
                    }
                    if c2 == '.' {
                        dots = dots + 1;
                    } else {
                        if digits < MAX_LIT_DIGITS {
                            proof {
                                lemma_pow10_mono(digits as int, 17);
                                lemma_pow10_vals();
                            }
                            let u2: u32 = c2 as u32;
                            m = m * 10 + ((u2 - 48) as i64);
                        }
                        digits = digits + 1;
                        if dots > 0 {
                            frac = frac + 1;
                        }
                    }
                    k = k + 1;
                }
                if digits == 0 || digits > MAX_LIT_DIGITS || dots > 1 {
                    return Err(LexError::MalformedNumber { pos: start });
                }
                let mut den: i64 = 1;
                let mut j: usize = 0;
                while j < frac
                    invariant
                        j <= frac,
                        frac <= MAX_LIT_DIGITS,
                        den as int == pow10(j as int),
                    decreases frac - j,
                {
                    proof {
                        lemma_pow10_pos(j as int);
                        lemma_pow10_mono(j as int, 17);
                        lemma_pow10_vals();
                    }
                    den = den * 10;
                    j = j + 1;
                }
                proof {
                    lemma_pow10_pos(frac as int);
                    lemma_pow10_mono(frac as int, MAX_LIT_DIGITS as int);
                    lemma_pow10_vals();
                }
                let tok = Token::Number(Rat { num: m, den: den });
                proof {
                    let rest_at = spec_tokenize_from(s, k as int);
                    if rest_at is Ok {
                        assert(toks@.push(tok) + rest_at->Ok_0 =~= toks@ + (seq![tok]
                            + rest_at->Ok_0));
                    }
                }
                toks.push(tok);
                i = k;
            } else {
                if c == '+' || c == '-' || c == '*' || c == '/' || c == '(' || c == ')' {
                    let tok = if c == '+' {
                        Token::Plus
                    } else if c == '-' {
                        Token::Minus
                    } else if c == '*' {
                        Token::Star
                    } else if c == '/' {
                        Token::Slash
                    } else if c == '(' {
                        Token::LParen
                    } else {
                        Token::RParen
                    };
                    proof {
                        let rest_at = spec_tokenize_from(s, i as int + 1);
                        if rest_at is Ok {
                            assert(toks@.push(tok) + rest_at->Ok_0 =~= toks@ + (seq![tok]
                                + rest_at->Ok_0));
                        }
                    }
                    toks.push(tok);
                    i = i + 1;
                } else {
                    return Err(LexError::UnexpectedChar { ch: c, pos: i });
                }
            }
        }
    }
    proof {
        assert(toks@ + Seq::<Token>::empty() =~= toks@);
    }
    Ok(toks)
}

} // verus!
