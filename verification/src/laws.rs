//! Laws of the pipeline, proved once and for all inputs.
//!
//! Well-formedness flows through the stages: the lexer only builds
//! fractions with positive denominators, the parser only rearranges the
//! lexer's tokens into trees, and evaluation of a well-formed tree yields a
//! well-formed value. Together with the stages' own contracts this gives
//! the top-level guarantee: on any input text the pipeline terminates and
//! yields either a well-formed value or one of the documented errors.
//! Each stage is also a pure function of its input — the determinism
//! lemmas at the end make that explicit.

use vstd::prelude::*;
use crate::eval::{spec_apply, spec_eval};
use crate::lexer::{
    frac_digits, digit_count, dot_count, lemma_pow10_mono, lemma_pow10_pos, lemma_pow10_vals,
    spec_tokenize, spec_tokenize_from,
};
use crate::parser::{
    clamp_idx, spec_parse, spec_parse_expr, spec_parse_factor, spec_parse_term, spec_expr_rest,
    spec_term_rest, Expr, Operator,
};
use crate::token::{LexError, Token};
use crate::value::Value;

verus! {

/// Every token of the sequence is well-formed.
pub open spec fn tokens_wf(ts: Seq<Token>) -> bool {
    forall|q: int| 0 <= q < ts.len() ==> (#[trigger] ts[q]).wf()
}

/// In any character sequence, the digits after the first decimal point are
/// no more than the digits altogether, and no count is negative.
pub proof fn lemma_counts(t: Seq<char>)
    ensures
        0 <= dot_count(t),
        0 <= frac_digits(t) <= digit_count(t),
    decreases t.len(),
{
    if t.len() > 0 {
        lemma_counts(t.drop_last());
    }
}

/// The lexer only builds well-formed tokens: every fraction it produces
/// has a positive denominator.
pub proof fn lemma_tokenize_wf(s: Seq<char>, i: int)
    ensures
        (match spec_tokenize_from(s, i) {
            Ok(ts) => tokens_wf(ts),
            Err(_) => true,
        }),
    decreases s.len() - i,
{
    if 0 <= i < s.len() {
        let c = s[i];
        if c == ' ' {
            lemma_tokenize_wf(s, i + 1);
        } else if crate::lexer::is_num_char(c) {
            let e = crate::lexer::lit_end(s, i);
            let next = if e <= i {
                i + 1
            } else if e > s.len() {
                s.len() as int
            } else {
                e
            };
            let t = s.subrange(i, next);
            lemma_counts(t);
            if digit_count(t) <= crate::lexer::MAX_LIT_DIGITS as int {
                lemma_pow10_pos(frac_digits(t));
                lemma_pow10_mono(frac_digits(t), crate::lexer::MAX_LIT_DIGITS as int);
                lemma_pow10_vals();
            }
            lemma_tokenize_wf(s, next);
        } else {
            lemma_tokenize_wf(s, i + 1);
        }
    }
}

/// The factor production only builds well-formed trees from well-formed
/// tokens.
pub proof fn lemma_factor_wf(ts: Seq<Token>, i: int)
    requires
        tokens_wf(ts),
    ensures
        (match spec_parse_factor(ts, i) {
            Ok(r) => r.0.wf(),
            Err(_) => true,
        }),
    decreases ts.len() - i, 0int,
{
    if 0 <= i < ts.len() {
        match ts[i] {
            Token::LParen => {
                lemma_expr_wf(ts, i + 1);
            },
            _ => {},
        }
    }
}

/// The term production only builds well-formed trees from well-formed
/// tokens.
pub proof fn lemma_term_wf(ts: Seq<Token>, i: int)
    requires
        tokens_wf(ts),
    ensures
        (match spec_parse_term(ts, i) {
            Ok(r) => r.0.wf(),
            Err(_) => true,
        }),
    decreases ts.len() - i, 2int,
{
    if 0 <= i <= ts.len() {
        lemma_factor_wf(ts, i);
        match spec_parse_factor(ts, i) {
            Ok(r) => {
                lemma_term_rest_wf(ts, clamp_idx(r.1, i, ts.len() as int), r.0);
            },
            Err(_) => {},
        }
    }
}

/// The fold of the term production preserves well-formedness.
pub proof fn lemma_term_rest_wf(ts: Seq<Token>, j: int, left: Expr)
    requires
        tokens_wf(ts),
        left.wf(),
    ensures
        (match spec_term_rest(ts, j, left) {
            Ok(r) => r.0.wf(),
            Err(_) => true,
        }),
    decreases ts.len() - j, 1int,
{
    if 0 <= j < ts.len() && (ts[j] is Star || ts[j] is Slash) {
        let op = if ts[j] is Star {
            Operator::Mul
        } else {
            Operator::Div
        };
        lemma_factor_wf(ts, j + 1);
        match spec_parse_factor(ts, j + 1) {
            Ok(r) => {
                lemma_term_rest_wf(
                    ts,
                    clamp_idx(r.1, j + 1, ts.len() as int),
                    Expr::BinaryOp { op, left: Box::new(left), right: Box::new(r.0) },
                );
            },
            Err(_) => {},
        }
    }
}

/// The expression production only builds well-formed trees from
/// well-formed tokens.
pub proof fn lemma_expr_wf(ts: Seq<Token>, i: int)
    requires
        tokens_wf(ts),
    ensures
        (match spec_parse_expr(ts, i) {
            Ok(r) => r.0.wf(),
            Err(_) => true,
        }),
    decreases ts.len() - i, 4int,
{
    if 0 <= i <= ts.len() {
        lemma_term_wf(ts, i);
        match spec_parse_term(ts, i) {
            Ok(r) => {
                lemma_expr_rest_wf(ts, clamp_idx(r.1, i, ts.len() as int), r.0);
            },
            Err(_) => {},
        }
    }
}

/// The fold of the expression production preserves well-formedness.
pub proof fn lemma_expr_rest_wf(ts: Seq<Token>, j: int, left: Expr)
    requires
        tokens_wf(ts),
        left.wf(),
    ensures
        (match spec_expr_rest(ts, j, left) {
            Ok(r) => r.0.wf(),
            Err(_) => true,
        }),
    decreases ts.len() - j, 3int,
{
    if 0 <= j < ts.len() && (ts[j] is Plus || ts[j] is Minus) {
        let op = if ts[j] is Plus {
            Operator::Add
        } else {
            Operator::Sub
        };
        lemma_term_wf(ts, j + 1);
        match spec_parse_term(ts, j + 1) {
            Ok(r) => {
                lemma_expr_rest_wf(
                    ts,
                    clamp_idx(r.1, j + 1, ts.len() as int),
                    Expr::BinaryOp { op, left: Box::new(left), right: Box::new(r.0) },
                );
            },
            Err(_) => {},
        }
    }
}

/// The parser only builds well-formed trees from well-formed tokens.
pub proof fn lemma_parse_wf(ts: Seq<Token>)
    requires
        tokens_wf(ts),
    ensures
        (match spec_parse(ts) {
            Ok(e) => e.wf(),
            Err(_) => true,
        }),
{
    lemma_expr_wf(ts, 0);
}

/// Applying an operator to well-formed values yields a well-formed value.
pub proof fn lemma_apply_wf(op: Operator, a: Value, b: Value)
    requires
        a.wf(),
        b.wf(),
    ensures
        spec_apply(op, a, b).wf(),
{
}

/// Evaluating a well-formed tree yields a well-formed value: a finite
/// result always has a positive denominator.
pub proof fn lemma_eval_wf(e: Expr)
    requires
        e.wf(),
    ensures
        spec_eval(e).wf(),
    decreases e,
{
    match e {
        Expr::Number(_) => {},
        Expr::BinaryOp { op, left, right } => {
            lemma_eval_wf(*left);
            lemma_eval_wf(*right);
            lemma_apply_wf(op, spec_eval(*left), spec_eval(*right));
        },
    }
}

/// The whole pipeline keeps values well-formed: when the input lexes and
/// parses, evaluating the resulting tree yields a well-formed value. With
/// each stage's own contract, this says the pipeline terminates on every
/// input with a well-formed value or one of the documented errors.
pub proof fn lemma_pipeline_wf(s: Seq<char>)
    ensures
        (match spec_tokenize(s) {
            Ok(ts) => match spec_parse(ts) {
                Ok(e) => e.wf() && spec_eval(e).wf(),
                Err(_) => true,
            },
            Err(_) => true,
        }),
{
    lemma_tokenize_wf(s, 0);
    match spec_tokenize(s) {
        Ok(ts) => {
            lemma_parse_wf(ts);
            match spec_parse(ts) {
                Ok(e) => {
                    lemma_eval_wf(e);
                },
                Err(_) => {},
            }
        },
        Err(_) => {},
    }
}

/// Lexing is a pure function of the text: any two results that satisfy
/// the lexer's contract on the same input are identical.
pub proof fn lemma_tokenize_deterministic(
    s: Seq<char>,
    r1: Result<Seq<Token>, LexError>,
    r2: Result<Seq<Token>, LexError>,
)
    requires
        r1 == spec_tokenize(s),
        r2 == spec_tokenize(s),
    ensures
        r1 == r2,
{
}

/// Parsing is a pure function of the tokens.
pub proof fn lemma_parse_deterministic(
    ts: Seq<Token>,
    r1: Result<Expr, crate::parser::ParseError>,
    r2: Result<Expr, crate::parser::ParseError>,
)
    requires
        r1 == spec_parse(ts),
        r2 == spec_parse(ts),
    ensures
        r1 == r2,
{
}

/// Evaluation is a pure function of the tree: rerunning the pipeline on
/// the same text yields identical results.
pub proof fn lemma_eval_deterministic(e: Expr, v1: Value, v2: Value)
    requires
        v1 == spec_eval(e),
        v2 == spec_eval(e),
    ensures
        v1 == v2,
{
}

} // verus!
