//! Syntax analysis: tokens to an expression tree.
//!
//! Recursive descent over three productions, one per precedence level:
//! an expression is a left-associative fold of terms over `+` and `-`, a
//! term is a left-associative fold of factors over `*` and `/`, and a
//! factor is a numeric literal or a parenthesized expression. A `(` whose
//! inner expression is not followed by `)` is a fatal
//! [`ParseError::UnmatchedParen`]; a missing operand is
//! [`ParseError::UnexpectedToken`] or, at the end of the tokens,
//! [`ParseError::UnexpectedEndOfInput`]. Tokens after the first complete
//! expression are ignored, as [`parse`] documents.

use vstd::prelude::*;
use crate::token::Token;
use crate::value::Rat;

verus! {

/// The four binary operators.
#[derive(Clone, Copy, Debug, PartialEq, Eq)]
pub enum Operator {
    Add,
    Sub,
    Mul,
    Div,
}

/// An expression tree: a numeric leaf, or an operator applied to two
/// subtrees. Trees are finite and immutable; the parser builds them
/// bottom-up, so an internal node always owns two fully built children.
#[derive(Debug, PartialEq)]
pub enum Expr {
    Number(Rat),
    BinaryOp { op: Operator, left: Box<Expr>, right: Box<Expr> },
}

impl Expr {
    /// Every numeric leaf carries a well-formed fraction.
    pub open spec fn wf(self) -> bool
        decreases self,
    {
        match self {
            Expr::Number(r) => r.wf(),
            Expr::BinaryOp { left, right, .. } => (*left).wf() && (*right).wf(),
        }
    }

    /// Runtime form of [`Expr::wf`], for callers outside the verified
    /// world that build trees by hand.
    pub fn well_formed(&self) -> (b: bool)
        ensures
            b == self.wf(),
        decreases *self,
    {
        match self {
            Expr::Number(r) => 0 < r.den,
            Expr::BinaryOp { left, right, .. } => {
                (&**left).well_formed() && (&**right).well_formed()
            },
        }
    }
}

/// A fatal syntax error.
#[derive(Clone, Copy, Debug, PartialEq, Eq)]
pub enum ParseError {
    /// A production needed a number or `(` and found this token at this
    /// position in the token sequence.
    UnexpectedToken { found: Token, pos: usize },
    /// The tokens ran out in the middle of a production.
    UnexpectedEndOfInput,
    /// A `(` whose inner expression is not followed by `)`.
    UnmatchedParen,
}

/// Keeps a recursion index inside `[lo, hi]`; the parser's productions only
/// move the cursor forward and never past the end, so at every real call
/// the index passes through unchanged, but the bound lets the recursion
/// measure go through definitionally.
pub open spec fn clamp_idx(j: int, lo: int, hi: int) -> int {
    if j < lo {
        lo
    } else if j > hi {
        hi
    } else {
        j
    }
}

/// The factor production at position `i`: a numeric leaf, or a
/// parenthesized expression whose closing `)` is required. Returns the
/// parsed subtree and the position after it.
pub open spec fn spec_parse_factor(ts: Seq<Token>, i: int) -> Result<(Expr, int), ParseError>
    decreases ts.len() - i, 0int,
{
    if i < 0 || i >= ts.len() {
        Err(ParseError::UnexpectedEndOfInput)
    } else {
        match ts[i] {
            Token::Number(r) => Ok((Expr::Number(r), i + 1)),
            Token::LParen => match spec_parse_expr(ts, i + 1) {
                Err(e) => Err(e),
                Ok((inner, j)) => if 0 <= j < ts.len() && ts[j] is RParen {
                    Ok((inner, j + 1))
                } else {
                    Err(ParseError::UnmatchedParen)
                },
            },
            t => Err(ParseError::UnexpectedToken { found: t, pos: i as usize }),
        }
    }
}

/// The term production at position `i`: a factor, then a left-associative
/// fold over `*` and `/`.
pub open spec fn spec_parse_term(ts: Seq<Token>, i: int) -> Result<(Expr, int), ParseError>
    decreases ts.len() - i, 2int,
{
    if i < 0 || i > ts.len() {
        Err(ParseError::UnexpectedEndOfInput)
    } else {
        match spec_parse_factor(ts, i) {
            Err(e) => Err(e),
            Ok((left, j)) => spec_term_rest(ts, clamp_idx(j, i, ts.len() as int), left),
        }
    }
}

/// The fold of the term production: while the next token is `*` or `/`,
/// consume it, parse another factor, and graft it as the right child of
/// the tree built so far.
pub open spec fn spec_term_rest(ts: Seq<Token>, j: int, left: Expr) -> Result<
    (Expr, int),
    ParseError,
>
    decreases ts.len() - j, 1int,
{
    if 0 <= j < ts.len() && (ts[j] is Star || ts[j] is Slash) {
        let op = if ts[j] is Star {
            Operator::Mul
        } else {
            Operator::Div
        };
        match spec_parse_factor(ts, j + 1) {
            Err(e) => Err(e),
            Ok((right, k)) => spec_term_rest(
                ts,
                clamp_idx(k, j + 1, ts.len() as int),
                Expr::BinaryOp { op, left: Box::new(left), right: Box::new(right) },
            ),
        }
    } else {
        Ok((left, j))
    }
}

/// The expression production at position `i`: a term, then a
/// left-associative fold over `+` and `-`.
pub open spec fn spec_parse_expr(ts: Seq<Token>, i: int) -> Result<(Expr, int), ParseError>
    decreases ts.len() - i, 4int,
{
    if i < 0 || i > ts.len() {
        Err(ParseError::UnexpectedEndOfInput)
    } else {
        match spec_parse_term(ts, i) {
            Err(e) => Err(e),
            Ok((left, j)) => spec_expr_rest(ts, clamp_idx(j, i, ts.len() as int), left),
        }
    }
}

/// The fold of the expression production, over `+` and `-`.
pub open spec fn spec_expr_rest(ts: Seq<Token>, j: int, left: Expr) -> Result<
    (Expr, int),
    ParseError,
>
    decreases ts.len() - j, 3int,
{
    if 0 <= j < ts.len() && (ts[j] is Plus || ts[j] is Minus) {
        let op = if ts[j] is Plus {
            Operator::Add
        } else {
            Operator::Sub
        };
        match spec_parse_term(ts, j + 1) {
            Err(e) => Err(e),
            Ok((right, k)) => spec_expr_rest(
                ts,
                clamp_idx(k, j + 1, ts.len() as int),
                Expr::BinaryOp { op, left: Box::new(left), right: Box::new(right) },
            ),
        }
    } else {
        Ok((left, j))
    }
}

/// What parsing a whole token sequence yields: the expression production
/// from position 0, with any trailing tokens ignored.
pub open spec fn spec_parse(ts: Seq<Token>) -> Result<Expr, ParseError> {
    match spec_parse_expr(ts, 0) {
        Ok((e, j)) => Ok(e),
        Err(pe) => Err(pe),
    }
}

/// The parser's state: the token sequence and a cursor into it.
pub struct Parser {
    pub tokens: Vec<Token>,
    pub pos: usize,
}

impl Parser {
    /// The cursor never stands past the end of the tokens.
    pub open spec fn wf(self) -> bool {
        self.pos <= self.tokens@.len()
    }

    pub fn new(tokens: Vec<Token>) -> (p: Parser)
        ensures
            p.tokens@ == tokens@,
            p.pos == 0,
            p.wf(),
    {
        Parser { tokens, pos: 0 }
    }

    /// The token under the cursor, if any.
    pub fn current(&self) -> (t: Option<Token>)
        ensures
            t == (if self.pos < self.tokens@.len() {
                Some(self.tokens@[self.pos as int])
            } else {
                None::<Token>
            }),
    {
        if self.pos < self.tokens.len() {
            Some(self.tokens[self.pos])
        } else {
            None
        }
    }

    /// Moves the cursor one token forward.
    pub fn advance(&mut self)
        requires
            old(self).pos < old(self).tokens@.len(),
        ensures
            final(self).tokens@ == old(self).tokens@,
            final(self).pos == old(self).pos + 1,
    {
        let n: usize = self.tokens.len();
        assert(self.pos < n);
        self.pos = self.pos + 1;
    }

    pub fn parse_expr(&mut self) -> (r: Result<Expr, ParseError>)
        requires
            old(self).wf(),
        ensures
            final(self).wf(),
            final(self).tokens@ == old(self).tokens@,
            old(self).pos <= final(self).pos,
            (match r {
                Ok(e) => spec_parse_expr(old(self).tokens@, old(self).pos as int) == Ok::<
                    (Expr, int),
                    ParseError,
                >((e, final(self).pos as int)) && old(self).pos < final(self).pos,
                Err(pe) => spec_parse_expr(old(self).tokens@, old(self).pos as int) == Err::<
                    (Expr, int),
                    ParseError,
                >(pe),
            }),
        decreases self.tokens@.len() - self.pos, 4int,
    {
        let ghost ts = self.tokens@;
        let ghost p0 = self.pos as int;
        let mut left: Expr = match self.parse_term() {
            Ok(e) => e,
            Err(pe) => {
                return Err(pe);
            },
        };
        loop
            invariant
                self.wf(),
                ts == old(self).tokens@,
                p0 == old(self).pos as int,
                self.tokens@ == ts,
                p0 < self.pos as int,
                spec_parse_expr(ts, p0) == spec_expr_rest(ts, self.pos as int, left),
            decreases ts.len() - self.pos,
        {
            let op: Operator = match self.current() {
                Some(Token::Plus) => Operator::Add,
                Some(Token::Minus) => Operator::Sub,
                _ => {
                    return Ok(left);
                },
            };
            self.advance();
            let right: Expr = match self.parse_term() {
                Ok(e) => e,
                Err(pe) => {
                    return Err(pe);
                },
            };
            left = Expr::BinaryOp { op, left: Box::new(left), right: Box::new(right) };
        }
    }

    pub fn parse_term(&mut self) -> (r: Result<Expr, ParseError>)
        requires
            old(self).wf(),
        ensures
            final(self).wf(),
            final(self).tokens@ == old(self).tokens@,
            old(self).pos <= final(self).pos,
            (match r {
                Ok(e) => spec_parse_term(old(self).tokens@, old(self).pos as int) == Ok::<
                    (Expr, int),
                    ParseError,
                >((e, final(self).pos as int)) && old(self).pos < final(self).pos,
                Err(pe) => spec_parse_term(old(self).tokens@, old(self).pos as int) == Err::<
                    (Expr, int),
                    ParseError,
                >(pe),
            }),
        decreases self.tokens@.len() - self.pos, 2int,
    {
        let ghost ts = self.tokens@;
        let ghost p0 = self.pos as int;
        let mut left: Expr = match self.parse_factor() {
            Ok(e) => e,
            Err(pe) => {
                return Err(pe);
            },
        };
        loop
            invariant
                self.wf(),
                ts == old(self).tokens@,
                p0 == old(self).pos as int,
                self.tokens@ == ts,
                p0 < self.pos as int,
                spec_parse_term(ts, p0) == spec_term_rest(ts, self.pos as int, left),
            decreases ts.len() - self.pos,
        {
            let op: Operator = match self.current() {
                Some(Token::Star) => Operator::Mul,
                Some(Token::Slash) => Operator::Div,
                _ => {
                    return Ok(left);
                },
            };
            self.advance();
            let right: Expr = match self.parse_factor() {
                Ok(e) => e,
                Err(pe) => {
                    return Err(pe);
                },
            };
            left = Expr::BinaryOp { op, left: Box::new(left), right: Box::new(right) };
        }
    }

    pub fn parse_factor(&mut self) -> (r: Result<Expr, ParseError>)
        requires
            old(self).wf(),
        ensures
            final(self).wf(),
            final(self).tokens@ == old(self).tokens@,
            old(self).pos <= final(self).pos,
            (match r {
                Ok(e) => spec_parse_factor(old(self).tokens@, old(self).pos as int) == Ok::<
                    (Expr, int),
                    ParseError,
                >((e, final(self).pos as int)) && old(self).pos < final(self).pos,
                Err(pe) => spec_parse_factor(old(self).tokens@, old(self).pos as int) == Err::<
                    (Expr, int),
                    ParseError,
                >(pe),
            }),
        decreases self.tokens@.len() - self.pos, 0int,
    {
        match self.current() {
            Some(Token::Number(r)) => {
                self.advance();
                Ok(Expr::Number(r))
            },
            Some(Token::LParen) => {
                self.advance();
                let inner: Expr = match self.parse_expr() {
                    Ok(e) => e,
                    Err(pe) => {
                        return Err(pe);
                    },
                };
                match self.current() {
                    Some(Token::RParen) => {
                        self.advance();
                        Ok(inner)
                    },
                    _ => Err(ParseError::UnmatchedParen),
                }
            },
            Some(t) => Err(ParseError::UnexpectedToken { found: t, pos: self.pos }),
            None => Err(ParseError::UnexpectedEndOfInput),
        }
    }
}

/// Builds the expression tree for a token sequence, or reports the first
/// syntax error. Tokens after the first complete expression are ignored:
/// the grammar is permissive at its right edge, and callers decide what a
/// trailing token means to them.
pub fn parse(tokens: Vec<Token>) -> (r: Result<Expr, ParseError>)
    ensures
        r == spec_parse(tokens@),
{
    let mut parser = Parser::new(tokens);
    match parser.parse_expr() {
        Ok(e) => Ok(e),
        Err(pe) => Err(pe),
    }
}

} // verus!
