//! A verified evaluator for arithmetic expressions given as text.
//!
//! The pipeline has three stages, each a pure function with a full
//! functional contract:
//!
//! - [`lexer::tokenize`]: text to tokens (numbers, `+ - * /`, parentheses),
//!   rejecting unrecognized characters and malformed numeric literals;
//! - [`parser::parse`]: tokens to an expression tree by recursive descent
//!   over three precedence levels, with multiplication and division binding
//!   tighter than addition and subtraction, and left-associative grouping
//!   within each level;
//! - [`eval::evaluate`]: a post-order fold of the tree down to a single
//!   numeric value.
//!
//! Numbers are exact rationals (see [`value`]): a decimal literal such as
//! `1.25` becomes the fraction 125/100, and the four operators act on
//! fractions exactly. Division by zero yields an infinity or NaN value
//! rather than an error, and a result whose numerator or denominator falls
//! outside the representable range collapses to NaN; both choices are part
//! of the documented numeric model, not failures.

pub mod eval;
pub mod laws;
pub mod lexer;
pub mod parser;
pub mod token;
pub mod value;
