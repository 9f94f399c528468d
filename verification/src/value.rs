//! The numeric model: exact rationals extended with infinities and NaN.
//!
//! Every number in the pipeline is a fraction of two `i64` values with a
//! positive denominator. The four operators act on fractions exactly;
//! denominators are not reduced, so `4 / 2` yields the fraction 4/2, which
//! denotes exactly the number 2. Division by zero yields `PosInf`, `NegInf`
//! or `NaN` according to the sign of the dividend, and the special values
//! propagate through later operations in the usual way (an infinity absorbs
//! finite operands; `NaN` absorbs everything; opposite infinities cancel to
//! `NaN`). A result whose numerator or denominator falls outside the `i64`
//! range collapses to `NaN`: the model tracks no values beyond that range.

use vstd::prelude::*;

verus! {

/// An exact fraction `num / den`. Well-formed values have `den > 0`.
#[derive(Clone, Copy, Debug, PartialEq, Eq)]
pub struct Rat {
    pub num: i64,
    pub den: i64,
}

impl Rat {
    /// A fraction denotes a number only when its denominator is positive.
    pub open spec fn wf(self) -> bool {
        0 < self.den
    }
}

/// The result of evaluating an expression: an exact fraction, an infinity,
/// or NaN.
#[derive(Clone, Copy, Debug, PartialEq, Eq)]
pub enum Value {
    Finite(Rat),
    PosInf,
    NegInf,
    NaN,
}

impl Value {
    pub open spec fn wf(self) -> bool {
        match self {
            Value::Finite(r) => r.wf(),
            _ => true,
        }
    }
}

/// Packs an exact numerator and denominator into a `Value`: finite when both
/// lie in the representable range and the denominator is positive, `NaN`
/// otherwise.
pub open spec fn spec_norm(n: int, d: int) -> Value {
    if i64::MIN as int <= n <= i64::MAX as int && 0 < d <= i64::MAX as int {
        Value::Finite(Rat { num: n as i64, den: d as i64 })
    } else {
        Value::NaN
    }
}

pub open spec fn spec_rat_add(x: Rat, y: Rat) -> Value {
    spec_norm(x.num * y.den + y.num * x.den, x.den * y.den)
}

pub open spec fn spec_rat_sub(x: Rat, y: Rat) -> Value {
    spec_norm(x.num * y.den - y.num * x.den, x.den * y.den)
}

pub open spec fn spec_rat_mul(x: Rat, y: Rat) -> Value {
    spec_norm(x.num * y.num, x.den * y.den)
}

/// Division of fractions with a nonzero divisor; the sign of the divisor's
/// numerator moves into the result's numerator so the denominator stays
/// positive.
pub open spec fn spec_rat_div(x: Rat, y: Rat) -> Value {
    if y.num > 0 {
        spec_norm(x.num * y.den, x.den * y.num)
    } else {
        spec_norm(-(x.num * y.den), -(x.den * y.num))
    }
}

/// Addition over the extended values: `NaN` absorbs, equal infinities keep
/// their sign, opposite infinities cancel to `NaN`, an infinity absorbs a
/// finite operand.
pub open spec fn spec_val_add(a: Value, b: Value) -> Value {
    match (a, b) {
        (Value::NaN, _) => Value::NaN,
        (_, Value::NaN) => Value::NaN,
        (Value::Finite(x), Value::Finite(y)) => spec_rat_add(x, y),
        (Value::PosInf, Value::NegInf) => Value::NaN,
        (Value::NegInf, Value::PosInf) => Value::NaN,
        (Value::PosInf, _) => Value::PosInf,
        (Value::NegInf, _) => Value::NegInf,
        (Value::Finite(_), b2) => b2,
    }
}

pub open spec fn spec_val_sub(a: Value, b: Value) -> Value {
    match (a, b) {
        (Value::NaN, _) => Value::NaN,
        (_, Value::NaN) => Value::NaN,
        (Value::Finite(x), Value::Finite(y)) => spec_rat_sub(x, y),
        (Value::PosInf, Value::PosInf) => Value::NaN,
        (Value::NegInf, Value::NegInf) => Value::NaN,
        (Value::PosInf, _) => Value::PosInf,
        (Value::NegInf, _) => Value::NegInf,
        (Value::Finite(_), Value::PosInf) => Value::NegInf,
        (Value::Finite(_), Value::NegInf) => Value::PosInf,
    }
}

/// The sign of a finite value, read off the numerator of a well-formed
/// fraction: 1, -1 or 0.
pub open spec fn spec_sign(x: Rat) -> int {
    if x.num > 0 {
        1
    } else if x.num < 0 {
        -1
    } else {
        0
    }
}

/// Multiplication over the extended values: an infinity times zero is `NaN`,
/// otherwise signs multiply.
pub open spec fn spec_val_mul(a: Value, b: Value) -> Value {
    match (a, b) {
        (Value::NaN, _) => Value::NaN,
        (_, Value::NaN) => Value::NaN,
        (Value::Finite(x), Value::Finite(y)) => spec_rat_mul(x, y),
        (Value::PosInf, Value::PosInf) => Value::PosInf,
        (Value::PosInf, Value::NegInf) => Value::NegInf,
        (Value::NegInf, Value::PosInf) => Value::NegInf,
        (Value::NegInf, Value::NegInf) => Value::PosInf,
        (Value::PosInf, Value::Finite(y)) => spec_inf_times(1, y),
        (Value::NegInf, Value::Finite(y)) => spec_inf_times(-1, y),
        (Value::Finite(x), Value::PosInf) => spec_inf_times(1, x),
        (Value::Finite(x), Value::NegInf) => spec_inf_times(-1, x),
    }
}

/// An infinity of the given sign times a finite value.
pub open spec fn spec_inf_times(sign: int, y: Rat) -> Value {
    if spec_sign(y) * sign > 0 {
        Value::PosInf
    } else if spec_sign(y) * sign < 0 {
        Value::NegInf
    } else {
        Value::NaN
    }
}

/// Division over the extended values: a finite value over zero is a signed
/// infinity (or `NaN` for zero over zero), a finite value over an infinity
/// is zero, an infinity over a finite value keeps the divisor's sign, and an
/// infinity over an infinity is `NaN`.
pub open spec fn spec_val_div(a: Value, b: Value) -> Value {
    match (a, b) {
        (Value::NaN, _) => Value::NaN,
        (_, Value::NaN) => Value::NaN,
        (Value::Finite(x), Value::Finite(y)) => {
            if y.num == 0 {
                if x.num > 0 {
                    Value::PosInf
                } else if x.num < 0 {
                    Value::NegInf
                } else {
                    Value::NaN
                }
            } else {
                spec_rat_div(x, y)
            }
        },
        (Value::Finite(_), Value::PosInf) => Value::Finite(Rat { num: 0, den: 1 }),
        (Value::Finite(_), Value::NegInf) => Value::Finite(Rat { num: 0, den: 1 }),
        (Value::PosInf, Value::Finite(y)) => {
            if y.num >= 0 {
                Value::PosInf
            } else {
                Value::NegInf
            }
        },
        (Value::NegInf, Value::Finite(y)) => {
            if y.num >= 0 {
                Value::NegInf
            } else {
                Value::PosInf
            }
        },
        (Value::PosInf, _) => Value::NaN,
        (Value::NegInf, _) => Value::NaN,
    }
}

/// The product of two values drawn from the `i64` range stays within 2^126
/// in magnitude, well inside the `i128` range.
pub proof fn lemma_i64_mul_bound(a: int, b: int) by (nonlinear_arith)
    requires
        i64::MIN as int <= a <= i64::MAX as int,
        i64::MIN as int <= b <= i64::MAX as int,
    ensures
        -0x40000000000000000000000000000000 <= a * b
            <= 0x40000000000000000000000000000000,
{
}

/// The product of an `i64` value and a positive `i64` value stays strictly
/// below 2^126 in magnitude, so the sum of two such products fits in `i128`.
pub proof fn lemma_num_den_mul_bound(a: int, b: int) by (nonlinear_arith)
    requires
        i64::MIN as int <= a <= i64::MAX as int,
        0 < b <= i64::MAX as int,
    ensures
        -0x3fffffffffffffff8000000000000000 <= a * b
            <= 0x3fffffffffffffff8000000000000000,
{
}

/// Packs an `i128` numerator and denominator into a `Value`, collapsing to
/// `NaN` outside the representable range.
fn norm_val(n: i128, d: i128) -> (r: Value)
    ensures
        r == spec_norm(n as int, d as int),
{
    if i64::MIN as i128 <= n && n <= i64::MAX as i128 && 0 < d && d <= i64::MAX as i128 {
        Value::Finite(Rat { num: n as i64, den: d as i64 })
    } else {
        Value::NaN
    }
}

fn rat_add(x: Rat, y: Rat) -> (r: Value)
    requires
        x.wf(),
        y.wf(),
    ensures
        r == spec_rat_add(x, y),
{
    proof {
        lemma_num_den_mul_bound(x.num as int, y.den as int);
        lemma_num_den_mul_bound(y.num as int, x.den as int);
        lemma_num_den_mul_bound(x.den as int, y.den as int);
    }
    let n: i128 = (x.num as i128) * (y.den as i128) + (y.num as i128) * (x.den as i128);
    let d: i128 = (x.den as i128) * (y.den as i128);
    norm_val(n, d)
}

fn rat_sub(x: Rat, y: Rat) -> (r: Value)
    requires
        x.wf(),
        y.wf(),
    ensures
        r == spec_rat_sub(x, y),
{
    proof {
        lemma_num_den_mul_bound(x.num as int, y.den as int);
        lemma_num_den_mul_bound(y.num as int, x.den as int);
        lemma_num_den_mul_bound(x.den as int, y.den as int);
    }
    let n: i128 = (x.num as i128) * (y.den as i128) - (y.num as i128) * (x.den as i128);
    let d: i128 = (x.den as i128) * (y.den as i128);
    norm_val(n, d)
}

fn rat_mul(x: Rat, y: Rat) -> (r: Value)
    requires
        x.wf(),
        y.wf(),
    ensures
        r == spec_rat_mul(x, y),
{
    proof {
        lemma_i64_mul_bound(x.num as int, y.num as int);
        lemma_num_den_mul_bound(x.den as int, y.den as int);
    }
    let n: i128 = (x.num as i128) * (y.num as i128);
    let d: i128 = (x.den as i128) * (y.den as i128);
    norm_val(n, d)
}

fn rat_div(x: Rat, y: Rat) -> (r: Value)
    requires
        x.wf(),
        y.wf(),
        y.num != 0,
    ensures
        r == spec_rat_div(x, y),
{
    proof {
        lemma_num_den_mul_bound(x.num as int, y.den as int);
        lemma_i64_mul_bound(x.den as int, y.num as int);
    }
    let n: i128 = (x.num as i128) * (y.den as i128);
    let d: i128 = (x.den as i128) * (y.num as i128);
    if y.num > 0 {
        norm_val(n, d)
    } else {
        norm_val(-n, -d)
    }
}

pub fn val_add(a: Value, b: Value) -> (r: Value)
    requires
        a.wf(),
        b.wf(),
    ensures
        r == spec_val_add(a, b),
{
    match (a, b) {
        (Value::NaN, _) => Value::NaN,
        (_, Value::NaN) => Value::NaN,
        (Value::Finite(x), Value::Finite(y)) => rat_add(x, y),
        (Value::PosInf, Value::NegInf) => Value::NaN,
        (Value::NegInf, Value::PosInf) => Value::NaN,
        (Value::PosInf, _) => Value::PosInf,
        (Value::NegInf, _) => Value::NegInf,
        (Value::Finite(_), b2) => b2,
    }
}

pub fn val_sub(a: Value, b: Value) -> (r: Value)
    requires
        a.wf(),
        b.wf(),
    ensures
        r == spec_val_sub(a, b),
{
    match (a, b) {
        (Value::NaN, _) => Value::NaN,
        (_, Value::NaN) => Value::NaN,
        (Value::Finite(x), Value::Finite(y)) => rat_sub(x, y),
        (Value::PosInf, Value::PosInf) => Value::NaN,
        (Value::NegInf, Value::NegInf) => Value::NaN,
        (Value::PosInf, _) => Value::PosInf,
        (Value::NegInf, _) => Value::NegInf,
        (Value::Finite(_), Value::PosInf) => Value::NegInf,
        (Value::Finite(_), Value::NegInf) => Value::PosInf,
    }
}

fn inf_times(positive: bool, y: Rat) -> (r: Value)
    ensures
        r == spec_inf_times(if positive { 1int } else { -1int }, y),
{
    if y.num == 0 {
        Value::NaN
    } else if (y.num > 0) == positive {
        Value::PosInf
    } else {
        Value::NegInf
    }
}

pub fn val_mul(a: Value, b: Value) -> (r: Value)
    requires
        a.wf(),
        b.wf(),
    ensures
        r == spec_val_mul(a, b),
{
    match (a, b) {
        (Value::NaN, _) => Value::NaN,
        (_, Value::NaN) => Value::NaN,
        (Value::Finite(x), Value::Finite(y)) => rat_mul(x, y),
        (Value::PosInf, Value::PosInf) => Value::PosInf,
        (Value::PosInf, Value::NegInf) => Value::NegInf,
        (Value::NegInf, Value::PosInf) => Value::NegInf,
        (Value::NegInf, Value::NegInf) => Value::PosInf,
        (Value::PosInf, Value::Finite(y)) => inf_times(true, y),
        (Value::NegInf, Value::Finite(y)) => inf_times(false, y),
        (Value::Finite(x), Value::PosInf) => inf_times(true, x),
        (Value::Finite(x), Value::NegInf) => inf_times(false, x),
    }
}

pub fn val_div(a: Value, b: Value) -> (r: Value)
    requires
        a.wf(),
        b.wf(),
    ensures
        r == spec_val_div(a, b),
{
    match (a, b) {
        (Value::NaN, _) => Value::NaN,
        (_, Value::NaN) => Value::NaN,
        (Value::Finite(x), Value::Finite(y)) => {
            if y.num == 0 {
                if x.num > 0 {
                    Value::PosInf
                } else if x.num < 0 {
                    Value::NegInf
                } else {
                    Value::NaN
                }
            } else {
                rat_div(x, y)
            }
        },
        (Value::Finite(_), Value::PosInf) => Value::Finite(Rat { num: 0, den: 1 }),
        (Value::Finite(_), Value::NegInf) => Value::Finite(Rat { num: 0, den: 1 }),
        (Value::PosInf, Value::Finite(y)) => {
            if y.num >= 0 {
                Value::PosInf
            } else {
                Value::NegInf
            }
        },
        (Value::NegInf, Value::Finite(y)) => {
            if y.num >= 0 {
                Value::NegInf
            } else {
                Value::PosInf
            }
        },
        (Value::PosInf, _) => Value::NaN,
        (Value::NegInf, _) => Value::NaN,
    }
}

} // verus!
