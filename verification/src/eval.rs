//! Evaluation: an expression tree to a single numeric value.
//!
//! A single post-order walk: a leaf yields its fraction; an internal node
//! evaluates its children and applies its operator under the numeric model
//! of [`crate::value`]. Evaluation is total over all trees — division by
//! zero yields an infinity or NaN, never an error.

use vstd::prelude::*;
use crate::parser::{Expr, Operator};
use crate::value::{
    spec_val_add, spec_val_div, spec_val_mul, spec_val_sub, val_add, val_div, val_mul, val_sub,
    Value,
};

verus! {

/// One operator applied to two already-evaluated operands.
pub open spec fn spec_apply(op: Operator, a: Value, b: Value) -> Value {
    match op {
        Operator::Add => spec_val_add(a, b),
        Operator::Sub => spec_val_sub(a, b),
        Operator::Mul => spec_val_mul(a, b),
        Operator::Div => spec_val_div(a, b),
    }
}

/// The value of an expression tree: the post-order fold of its operators
/// over its leaves.
pub open spec fn spec_eval(e: Expr) -> Value
    decreases e,
{
    match e {
        Expr::Number(r) => Value::Finite(r),
        Expr::BinaryOp { op, left, right } => spec_apply(op, spec_eval(*left), spec_eval(*right)),
    }
}

pub fn apply_op(op: Operator, a: Value, b: Value) -> (r: Value)
    requires
        a.wf(),
        b.wf(),
    ensures
        r == spec_apply(op, a, b),
{
    match op {
        Operator::Add => val_add(a, b),
        Operator::Sub => val_sub(a, b),
        Operator::Mul => val_mul(a, b),
        Operator::Div => val_div(a, b),
    }
}

/// Evaluates a well-formed expression tree to its exact value.
pub fn evaluate(e: &Expr) -> (v: Value)
    requires
        e.wf(),
    ensures
        v == spec_eval(*e),
    decreases *e,
{
    match e {
        Expr::Number(r) => Value::Finite(*r),
        Expr::BinaryOp { op, left, right } => {
            let l: Value = evaluate(&**left);
            let r2: Value = evaluate(&**right);
            proof {
                crate::laws::lemma_eval_wf(**left);
                crate::laws::lemma_eval_wf(**right);
            }
            apply_op(*op, l, r2)
        },
    }
}

} // verus!
