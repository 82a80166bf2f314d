//! Arithmetic and comparison on register values, as the `CALCULATE` and `COMPARE`
//! instructions perform them.
use vstd::prelude::*;
use vstd::arithmetic::power::pow;
use vstd::utf8::encode_utf8;

use crate::machine::instruction::{CalculationMethod, ComparisonMethod};
use crate::machine::register::{lex_lt, str_equal, str_less, value_eq, RegisterValue, ValueView};

verus! {

/// A condition on which the machine stops with a panic.
#[derive(Debug, Clone, Copy, PartialEq, Eq, Structural)]
pub enum Fault {
    /// The operands of a calculation have types that it does not combine.
    IncompatibleTypes(CalculationMethod),
    /// The operands of an ordering comparison have types that cannot be ordered.
    Unordered,
    /// An integer division or remainder by zero.
    DivisionByZero,
    /// An integer power that does not fit its type.
    Overflow,
    /// The operands of a bitwise operation have types that it does not combine.
    BitwiseTypes,
    /// A shift by at least the width of the integer.
    ShiftOverflow,
    /// Bytecode on which decoding gives up.
    Undecodable,
    /// The bytecode register `bc` does not hold an array of bytes.
    MalformedBytecode,
}

/// The result of a calculation: a value; a floating-point calculation, which the embedder
/// performs; or a fault.
pub enum CalcView {
    Value(ValueView),
    Float,
    Fault(Fault),
}

/// The result of a calculation, as the machine computes it.
pub enum Calculated {
    Value(RegisterValue),
    Float,
    Fault(Fault),
}

impl View for Calculated {
    type V = CalcView;

    open spec fn view(&self) -> CalcView {
        match self {
            Calculated::Value(v) => CalcView::Value(v@),
            Calculated::Float => CalcView::Float,
            Calculated::Fault(f) => CalcView::Fault(*f),
        }
    }
}

/// `i64::checked_pow`: the power if it fits in an `i64`.
pub open spec fn checked_pow_i64(base: i64, exp: u32) -> Option<i64> {
    let p = pow(base as int, exp as nat);
    if i64::MIN <= p <= i64::MAX {
        Some(p as i64)
    } else {
        None
    }
}

proof fn lemma_pow_one(e: nat)
    ensures
        pow(1, e) == 1,
    decreases e,
{
    reveal(pow);
    if e > 0 {
        lemma_pow_one((e - 1) as nat);
    }
}

proof fn lemma_pow_minus_one(e: nat)
    ensures
        pow(-1, e) == if e % 2 == 0 { 1int } else { -1int },
    decreases e,
{
    reveal(pow);
    if e > 0 {
        lemma_pow_minus_one((e - 1) as nat);
    }
}

/// Once a power of a base of magnitude two or more leaves the range of `i64`, every higher
/// power stays out of it.
proof fn lemma_pow_stays_out(b: int, i: nat, j: nat)
    requires
        b >= 2 || b <= -2,
        i <= j,
        pow(b, i) > i64::MAX || pow(b, i) < i64::MIN,
    ensures
        pow(b, j) > i64::MAX || pow(b, j) < i64::MIN,
    decreases j - i,
{
    reveal(pow);
    if j > i {
        lemma_pow_stays_out(b, i, (j - 1) as nat);
        let p = pow(b, (j - 1) as nat);
        assert(pow(b, j) == b * p);
        if b >= 2 && p > i64::MAX {
            assert(b * p >= 2 * p) by (nonlinear_arith)
                requires
                    b >= 2,
                    p > 0,
            ;
        } else if b >= 2 {
            assert(b * p <= 2 * p) by (nonlinear_arith)
                requires
                    b >= 2,
                    p < 0,
            ;
        } else if p > i64::MAX {
            assert(b * p <= -2 * p) by (nonlinear_arith)
                requires
                    b <= -2,
                    p > 0,
            ;
        } else {
            assert(b * p >= -2 * p) by (nonlinear_arith)
                requires
                    b <= -2,
                    p < 0,
            ;
        }
    }
}

/// `i64::checked_pow`: the power if it fits in an `i64`, by repeated checked multiplication.
fn power_i64(base: i64, exp: u32) -> (r: Option<i64>)
    ensures
        r == checked_pow_i64(base, exp),
{
    proof {
        reveal(pow);
    }
    if base == 0 {
        return if exp == 0 { Some(1) } else { Some(0) };
    }
    if base == 1 {
        proof {
            lemma_pow_one(exp as nat);
        }
        return Some(1);
    }
    if base == -1 {
        proof {
            lemma_pow_minus_one(exp as nat);
        }
        return if exp % 2 == 0 { Some(1) } else { Some(-1) };
    }
    let mut acc: i64 = 1;
    let mut i: u32 = 0;
    while i < exp
        invariant
            i <= exp,
            base >= 2 || base <= -2,
            acc == pow(base as int, i as nat),
        decreases exp - i,
    {
        assert(pow(base as int, (i + 1) as nat) == base * pow(base as int, i as nat)) by {
            reveal(pow);
        }
        match acc.checked_mul(base) {
            Some(v) => {
                acc = v;
                i = i + 1;
            },
            None => {
                proof {
                    lemma_pow_stays_out(base as int, (i + 1) as nat, exp as nat);
                }
                return None;
            },
        }
    }
    Some(acc)
}

/// A calculation on two `i8` operands: wrapping addition, subtraction and multiplication,
/// wrapping division and remainder that fault on a zero divisor.
pub open spec fn calc_i8(m: CalculationMethod, x: i8, y: i8) -> CalcView {
    match m {
        CalculationMethod::ADD => CalcView::Value(ValueView::Int8(x.wrapping_add(y))),
        CalculationMethod::SUBTRACT => CalcView::Value(ValueView::Int8(x.wrapping_sub(y))),
        CalculationMethod::MULTIPLY => CalcView::Value(ValueView::Int8(x.wrapping_mul(y))),
        CalculationMethod::DIVIDE => if y == 0 {
            CalcView::Fault(Fault::DivisionByZero)
        } else {
            CalcView::Value(ValueView::Int8(match x.checked_div(y) { Some(q) => q, None => i8::MIN }))
        },
        CalculationMethod::MODULO => if y == 0 {
            CalcView::Fault(Fault::DivisionByZero)
        } else {
            CalcView::Value(ValueView::Int8(match x.checked_rem(y) { Some(r) => r, None => 0i8 }))
        },
        _ => CalcView::Fault(Fault::IncompatibleTypes(m)),
    }
}

fn calculate_i8(m: CalculationMethod, x: i8, y: i8) -> (r: Calculated)
    ensures
        r@ == calc_i8(m, x, y),
{
    match m {
        CalculationMethod::ADD => Calculated::Value(RegisterValue::Int8(x.wrapping_add(y))),
        CalculationMethod::SUBTRACT => Calculated::Value(RegisterValue::Int8(x.wrapping_sub(y))),
        CalculationMethod::MULTIPLY => Calculated::Value(RegisterValue::Int8(x.wrapping_mul(y))),
        CalculationMethod::DIVIDE => if y == 0 {
            Calculated::Fault(Fault::DivisionByZero)
        } else {
            Calculated::Value(RegisterValue::Int8(match x.checked_div(y) { Some(q) => q, None => i8::MIN }))
        },
        CalculationMethod::MODULO => if y == 0 {
            Calculated::Fault(Fault::DivisionByZero)
        } else {
            Calculated::Value(RegisterValue::Int8(match x.checked_rem(y) { Some(r) => r, None => 0i8 }))
        },
        _ => Calculated::Fault(Fault::IncompatibleTypes(m)),
    }
}

/// A calculation on two `i16` operands: wrapping addition, subtraction and multiplication,
/// wrapping division and remainder that fault on a zero divisor.
pub open spec fn calc_i16(m: CalculationMethod, x: i16, y: i16) -> CalcView {
    match m {
        CalculationMethod::ADD => CalcView::Value(ValueView::Int16(x.wrapping_add(y))),
        CalculationMethod::SUBTRACT => CalcView::Value(ValueView::Int16(x.wrapping_sub(y))),
        CalculationMethod::MULTIPLY => CalcView::Value(ValueView::Int16(x.wrapping_mul(y))),
        CalculationMethod::DIVIDE => if y == 0 {
            CalcView::Fault(Fault::DivisionByZero)
        } else {
            CalcView::Value(ValueView::Int16(match x.checked_div(y) { Some(q) => q, None => i16::MIN }))
        },
        CalculationMethod::MODULO => if y == 0 {
            CalcView::Fault(Fault::DivisionByZero)
        } else {
            CalcView::Value(ValueView::Int16(match x.checked_rem(y) { Some(r) => r, None => 0i16 }))
        },
        _ => CalcView::Fault(Fault::IncompatibleTypes(m)),
    }
}

fn calculate_i16(m: CalculationMethod, x: i16, y: i16) -> (r: Calculated)
    ensures
        r@ == calc_i16(m, x, y),
{
    match m {
        CalculationMethod::ADD => Calculated::Value(RegisterValue::Int16(x.wrapping_add(y))),
        CalculationMethod::SUBTRACT => Calculated::Value(RegisterValue::Int16(x.wrapping_sub(y))),
        CalculationMethod::MULTIPLY => Calculated::Value(RegisterValue::Int16(x.wrapping_mul(y))),
        CalculationMethod::DIVIDE => if y == 0 {
            Calculated::Fault(Fault::DivisionByZero)
        } else {
            Calculated::Value(RegisterValue::Int16(match x.checked_div(y) { Some(q) => q, None => i16::MIN }))
        },
        CalculationMethod::MODULO => if y == 0 {
            Calculated::Fault(Fault::DivisionByZero)
        } else {
            Calculated::Value(RegisterValue::Int16(match x.checked_rem(y) { Some(r) => r, None => 0i16 }))
        },
        _ => Calculated::Fault(Fault::IncompatibleTypes(m)),
    }
}

/// A calculation on two `i32` operands: wrapping addition, subtraction and multiplication,
/// wrapping division and remainder that fault on a zero divisor.
pub open spec fn calc_i32(m: CalculationMethod, x: i32, y: i32) -> CalcView {
    match m {
        CalculationMethod::ADD => CalcView::Value(ValueView::Int32(x.wrapping_add(y))),
        CalculationMethod::SUBTRACT => CalcView::Value(ValueView::Int32(x.wrapping_sub(y))),
        CalculationMethod::MULTIPLY => CalcView::Value(ValueView::Int32(x.wrapping_mul(y))),
        CalculationMethod::DIVIDE => if y == 0 {
            CalcView::Fault(Fault::DivisionByZero)
        } else {
            CalcView::Value(ValueView::Int32(match x.checked_div(y) { Some(q) => q, None => i32::MIN }))
        },
        CalculationMethod::MODULO => if y == 0 {
            CalcView::Fault(Fault::DivisionByZero)
        } else {
            CalcView::Value(ValueView::Int32(match x.checked_rem(y) { Some(r) => r, None => 0i32 }))
        },
        _ => CalcView::Fault(Fault::IncompatibleTypes(m)),
    }
}

fn calculate_i32(m: CalculationMethod, x: i32, y: i32) -> (r: Calculated)
    ensures
        r@ == calc_i32(m, x, y),
{
    match m {
        CalculationMethod::ADD => Calculated::Value(RegisterValue::Int32(x.wrapping_add(y))),
        CalculationMethod::SUBTRACT => Calculated::Value(RegisterValue::Int32(x.wrapping_sub(y))),
        CalculationMethod::MULTIPLY => Calculated::Value(RegisterValue::Int32(x.wrapping_mul(y))),
        CalculationMethod::DIVIDE => if y == 0 {
            Calculated::Fault(Fault::DivisionByZero)
        } else {
            Calculated::Value(RegisterValue::Int32(match x.checked_div(y) { Some(q) => q, None => i32::MIN }))
        },
        CalculationMethod::MODULO => if y == 0 {
            Calculated::Fault(Fault::DivisionByZero)
        } else {
            Calculated::Value(RegisterValue::Int32(match x.checked_rem(y) { Some(r) => r, None => 0i32 }))
        },
        _ => Calculated::Fault(Fault::IncompatibleTypes(m)),
    }
}

/// A calculation on two `i64` operands: wrapping addition, subtraction and multiplication,
/// wrapping division and remainder that fault on a zero divisor, and a power that faults on overflow.
pub open spec fn calc_i64(m: CalculationMethod, x: i64, y: i64) -> CalcView {
    match m {
        CalculationMethod::ADD => CalcView::Value(ValueView::Int64(x.wrapping_add(y))),
        CalculationMethod::SUBTRACT => CalcView::Value(ValueView::Int64(x.wrapping_sub(y))),
        CalculationMethod::MULTIPLY => CalcView::Value(ValueView::Int64(x.wrapping_mul(y))),
        CalculationMethod::DIVIDE => if y == 0 {
            CalcView::Fault(Fault::DivisionByZero)
        } else {
            CalcView::Value(ValueView::Int64(match x.checked_div(y) { Some(q) => q, None => i64::MIN }))
        },
        CalculationMethod::MODULO => if y == 0 {
            CalcView::Fault(Fault::DivisionByZero)
        } else {
            CalcView::Value(ValueView::Int64(match x.checked_rem(y) { Some(r) => r, None => 0i64 }))
        },
        CalculationMethod::POWER => match checked_pow_i64(x, y as u32) {
            Some(p) => CalcView::Value(ValueView::Int64(p)),
            None => CalcView::Fault(Fault::Overflow),
        },
        _ => CalcView::Fault(Fault::IncompatibleTypes(m)),
    }
}

fn calculate_i64(m: CalculationMethod, x: i64, y: i64) -> (r: Calculated)
    ensures
        r@ == calc_i64(m, x, y),
{
    match m {
        CalculationMethod::ADD => Calculated::Value(RegisterValue::Int64(x.wrapping_add(y))),
        CalculationMethod::SUBTRACT => Calculated::Value(RegisterValue::Int64(x.wrapping_sub(y))),
        CalculationMethod::MULTIPLY => Calculated::Value(RegisterValue::Int64(x.wrapping_mul(y))),
        CalculationMethod::DIVIDE => if y == 0 {
            Calculated::Fault(Fault::DivisionByZero)
        } else {
            Calculated::Value(RegisterValue::Int64(match x.checked_div(y) { Some(q) => q, None => i64::MIN }))
        },
        CalculationMethod::MODULO => if y == 0 {
            Calculated::Fault(Fault::DivisionByZero)
        } else {
            Calculated::Value(RegisterValue::Int64(match x.checked_rem(y) { Some(r) => r, None => 0i64 }))
        },
        CalculationMethod::POWER => match power_i64(x, y as u32) {
            Some(p) => Calculated::Value(RegisterValue::Int64(p)),
            None => Calculated::Fault(Fault::Overflow),
        },
        _ => Calculated::Fault(Fault::IncompatibleTypes(m)),
    }
}

/// A calculation on two `u8` operands: wrapping addition, subtraction and multiplication,
/// wrapping division and remainder that fault on a zero divisor.
pub open spec fn calc_u8(m: CalculationMethod, x: u8, y: u8) -> CalcView {
    match m {
        CalculationMethod::ADD => CalcView::Value(ValueView::UInt8(x.wrapping_add(y))),
        CalculationMethod::SUBTRACT => CalcView::Value(ValueView::UInt8(x.wrapping_sub(y))),
        CalculationMethod::MULTIPLY => CalcView::Value(ValueView::UInt8(x.wrapping_mul(y))),
        CalculationMethod::DIVIDE => if y == 0 {
            CalcView::Fault(Fault::DivisionByZero)
        } else {
            CalcView::Value(ValueView::UInt8(x / y))
        },
        CalculationMethod::MODULO => if y == 0 {
            CalcView::Fault(Fault::DivisionByZero)
        } else {
            CalcView::Value(ValueView::UInt8(x % y))
        },
        _ => CalcView::Fault(Fault::IncompatibleTypes(m)),
    }
}

fn calculate_u8(m: CalculationMethod, x: u8, y: u8) -> (r: Calculated)
    ensures
        r@ == calc_u8(m, x, y),
{
    match m {
        CalculationMethod::ADD => Calculated::Value(RegisterValue::UInt8(x.wrapping_add(y))),
        CalculationMethod::SUBTRACT => Calculated::Value(RegisterValue::UInt8(x.wrapping_sub(y))),
        CalculationMethod::MULTIPLY => Calculated::Value(RegisterValue::UInt8(x.wrapping_mul(y))),
        CalculationMethod::DIVIDE => if y == 0 {
            Calculated::Fault(Fault::DivisionByZero)
        } else {
            Calculated::Value(RegisterValue::UInt8(x / y))
        },
        CalculationMethod::MODULO => if y == 0 {
            Calculated::Fault(Fault::DivisionByZero)
        } else {
            Calculated::Value(RegisterValue::UInt8(x % y))
        },
        _ => Calculated::Fault(Fault::IncompatibleTypes(m)),
    }
}

/// A calculation on two `u16` operands: wrapping addition, subtraction and multiplication,
/// wrapping division and remainder that fault on a zero divisor.
pub open spec fn calc_u16(m: CalculationMethod, x: u16, y: u16) -> CalcView {
    match m {
        CalculationMethod::ADD => CalcView::Value(ValueView::UInt16(x.wrapping_add(y))),
        CalculationMethod::SUBTRACT => CalcView::Value(ValueView::UInt16(x.wrapping_sub(y))),
        CalculationMethod::MULTIPLY => CalcView::Value(ValueView::UInt16(x.wrapping_mul(y))),
        CalculationMethod::DIVIDE => if y == 0 {
            CalcView::Fault(Fault::DivisionByZero)
        } else {
            CalcView::Value(ValueView::UInt16(x / y))
        },
        CalculationMethod::MODULO => if y == 0 {
            CalcView::Fault(Fault::DivisionByZero)
        } else {
            CalcView::Value(ValueView::UInt16(x % y))
        },
        _ => CalcView::Fault(Fault::IncompatibleTypes(m)),
    }
}

fn calculate_u16(m: CalculationMethod, x: u16, y: u16) -> (r: Calculated)
    ensures
        r@ == calc_u16(m, x, y),
{
    match m {
        CalculationMethod::ADD => Calculated::Value(RegisterValue::UInt16(x.wrapping_add(y))),
        CalculationMethod::SUBTRACT => Calculated::Value(RegisterValue::UInt16(x.wrapping_sub(y))),
        CalculationMethod::MULTIPLY => Calculated::Value(RegisterValue::UInt16(x.wrapping_mul(y))),
        CalculationMethod::DIVIDE => if y == 0 {
            Calculated::Fault(Fault::DivisionByZero)
        } else {
            Calculated::Value(RegisterValue::UInt16(x / y))
        },
        CalculationMethod::MODULO => if y == 0 {
            Calculated::Fault(Fault::DivisionByZero)
        } else {
            Calculated::Value(RegisterValue::UInt16(x % y))
        },
        _ => Calculated::Fault(Fault::IncompatibleTypes(m)),
    }
}

/// A calculation on two `u32` operands: wrapping addition, subtraction and multiplication,
/// wrapping division and remainder that fault on a zero divisor.
pub open spec fn calc_u32(m: CalculationMethod, x: u32, y: u32) -> CalcView {
    match m {
        CalculationMethod::ADD => CalcView::Value(ValueView::UInt32(x.wrapping_add(y))),
        CalculationMethod::SUBTRACT => CalcView::Value(ValueView::UInt32(x.wrapping_sub(y))),
        CalculationMethod::MULTIPLY => CalcView::Value(ValueView::UInt32(x.wrapping_mul(y))),
        CalculationMethod::DIVIDE => if y == 0 {
            CalcView::Fault(Fault::DivisionByZero)
        } else {
            CalcView::Value(ValueView::UInt32(x / y))
        },
        CalculationMethod::MODULO => if y == 0 {
            CalcView::Fault(Fault::DivisionByZero)
        } else {
            CalcView::Value(ValueView::UInt32(x % y))
        },
        _ => CalcView::Fault(Fault::IncompatibleTypes(m)),
    }
}

fn calculate_u32(m: CalculationMethod, x: u32, y: u32) -> (r: Calculated)
    ensures
        r@ == calc_u32(m, x, y),
{
    match m {
        CalculationMethod::ADD => Calculated::Value(RegisterValue::UInt32(x.wrapping_add(y))),
        CalculationMethod::SUBTRACT => Calculated::Value(RegisterValue::UInt32(x.wrapping_sub(y))),
        CalculationMethod::MULTIPLY => Calculated::Value(RegisterValue::UInt32(x.wrapping_mul(y))),
        CalculationMethod::DIVIDE => if y == 0 {
            Calculated::Fault(Fault::DivisionByZero)
        } else {
            Calculated::Value(RegisterValue::UInt32(x / y))
        },
        CalculationMethod::MODULO => if y == 0 {
            Calculated::Fault(Fault::DivisionByZero)
        } else {
            Calculated::Value(RegisterValue::UInt32(x % y))
        },
        _ => Calculated::Fault(Fault::IncompatibleTypes(m)),
    }
}

/// A calculation on two `u64` operands: wrapping addition, subtraction and multiplication,
/// wrapping division and remainder that fault on a zero divisor.
pub open spec fn calc_u64(m: CalculationMethod, x: u64, y: u64) -> CalcView {
    match m {
        CalculationMethod::ADD => CalcView::Value(ValueView::UInt64(x.wrapping_add(y))),
        CalculationMethod::SUBTRACT => CalcView::Value(ValueView::UInt64(x.wrapping_sub(y))),
        CalculationMethod::MULTIPLY => CalcView::Value(ValueView::UInt64(x.wrapping_mul(y))),
        CalculationMethod::DIVIDE => if y == 0 {
            CalcView::Fault(Fault::DivisionByZero)
        } else {
            CalcView::Value(ValueView::UInt64(x / y))
        },
        CalculationMethod::MODULO => if y == 0 {
            CalcView::Fault(Fault::DivisionByZero)
        } else {
            CalcView::Value(ValueView::UInt64(x % y))
        },
        _ => CalcView::Fault(Fault::IncompatibleTypes(m)),
    }
}

fn calculate_u64(m: CalculationMethod, x: u64, y: u64) -> (r: Calculated)
    ensures
        r@ == calc_u64(m, x, y),
{
    match m {
        CalculationMethod::ADD => Calculated::Value(RegisterValue::UInt64(x.wrapping_add(y))),
        CalculationMethod::SUBTRACT => Calculated::Value(RegisterValue::UInt64(x.wrapping_sub(y))),
        CalculationMethod::MULTIPLY => Calculated::Value(RegisterValue::UInt64(x.wrapping_mul(y))),
        CalculationMethod::DIVIDE => if y == 0 {
            Calculated::Fault(Fault::DivisionByZero)
        } else {
            Calculated::Value(RegisterValue::UInt64(x / y))
        },
        CalculationMethod::MODULO => if y == 0 {
            Calculated::Fault(Fault::DivisionByZero)
        } else {
            Calculated::Value(RegisterValue::UInt64(x % y))
        },
        _ => Calculated::Fault(Fault::IncompatibleTypes(m)),
    }
}

/// The result of a calculation on two values. Integers of one type combine as described
/// for each type; two floating-point values of one type make a floating-point calculation
/// (but for `CONCAT`, and `POWER` of 32-bit values); `CONCAT` joins two strings. Any other
/// pair of operands is a fault.
pub open spec fn calc_spec(m: CalculationMethod, a: ValueView, b: ValueView) -> CalcView {
    match (a, b) {
        (ValueView::Int8(x), ValueView::Int8(y)) => calc_i8(m, x, y),
        (ValueView::Int16(x), ValueView::Int16(y)) => calc_i16(m, x, y),
        (ValueView::Int32(x), ValueView::Int32(y)) => calc_i32(m, x, y),
        (ValueView::Int64(x), ValueView::Int64(y)) => calc_i64(m, x, y),
        (ValueView::UInt8(x), ValueView::UInt8(y)) => calc_u8(m, x, y),
        (ValueView::UInt16(x), ValueView::UInt16(y)) => calc_u16(m, x, y),
        (ValueView::UInt32(x), ValueView::UInt32(y)) => calc_u32(m, x, y),
        (ValueView::UInt64(x), ValueView::UInt64(y)) => calc_u64(m, x, y),
        (ValueView::Float32(_), ValueView::Float32(_)) => if m is CONCAT || m is POWER {
            CalcView::Fault(Fault::IncompatibleTypes(m))
        } else {
            CalcView::Float
        },
        (ValueView::Float64(_), ValueView::Float64(_)) => if m is CONCAT {
            CalcView::Fault(Fault::IncompatibleTypes(m))
        } else {
            CalcView::Float
        },
        (ValueView::Text(x), ValueView::Text(y)) => if m is CONCAT {
            CalcView::Value(ValueView::Text(x + y))
        } else {
            CalcView::Fault(Fault::IncompatibleTypes(m))
        },
        _ => CalcView::Fault(Fault::IncompatibleTypes(m)),
    }
}

/// Perform a calculation on two values.
pub fn calculate(m: CalculationMethod, a: &RegisterValue, b: &RegisterValue) -> (r: Calculated)
    ensures
        r@ == calc_spec(m, a@, b@),
{
    match (a, b) {
        (RegisterValue::Int8(x), RegisterValue::Int8(y)) => calculate_i8(m, *x, *y),
        (RegisterValue::Int16(x), RegisterValue::Int16(y)) => calculate_i16(m, *x, *y),
        (RegisterValue::Int32(x), RegisterValue::Int32(y)) => calculate_i32(m, *x, *y),
        (RegisterValue::Int64(x), RegisterValue::Int64(y)) => calculate_i64(m, *x, *y),
        (RegisterValue::UInt8(x), RegisterValue::UInt8(y)) => calculate_u8(m, *x, *y),
        (RegisterValue::UInt16(x), RegisterValue::UInt16(y)) => calculate_u16(m, *x, *y),
        (RegisterValue::UInt32(x), RegisterValue::UInt32(y)) => calculate_u32(m, *x, *y),
        (RegisterValue::UInt64(x), RegisterValue::UInt64(y)) => calculate_u64(m, *x, *y),
        (RegisterValue::Float32(_), RegisterValue::Float32(_)) => if m == CalculationMethod::CONCAT || m
            == CalculationMethod::POWER {
            Calculated::Fault(Fault::IncompatibleTypes(m))
        } else {
            Calculated::Float
        },
        (RegisterValue::Float64(_), RegisterValue::Float64(_)) => if m == CalculationMethod::CONCAT {
            Calculated::Fault(Fault::IncompatibleTypes(m))
        } else {
            Calculated::Float
        },
        (RegisterValue::String(x), RegisterValue::String(y)) => if m == CalculationMethod::CONCAT {
            let mut s = x.clone();
            s.append(y.as_str());
            Calculated::Value(RegisterValue::String(s))
        } else {
            Calculated::Fault(Fault::IncompatibleTypes(m))
        },
        _ => Calculated::Fault(Fault::IncompatibleTypes(m)),
    }
}

/// The result of a comparison: a boolean; a comparison of two floating-point values, which
/// the embedder performs; or a fault.
pub enum CmpView {
    Value(bool),
    Float,
    Fault(Fault),
}

/// The result of a comparison, as the machine computes it.
pub enum Compared {
    Value(bool),
    Float,
    Fault(Fault),
}

impl View for Compared {
    type V = CmpView;

    open spec fn view(&self) -> CmpView {
        match self {
            Compared::Value(b) => CmpView::Value(*b),
            Compared::Float => CmpView::Float,
            Compared::Fault(f) => CmpView::Fault(*f),
        }
    }
}

/// The order of two values, as -1, 0 or 1, where they have one: integers of one type by
/// number, booleans with `false` first, strings by the bytes of their UTF-8 encodings.
pub open spec fn order_of(a: ValueView, b: ValueView) -> Option<int> {
    match (a, b) {
        (ValueView::Int8(x), ValueView::Int8(y)) => Some(if x < y { -1int } else if x == y { 0int } else { 1int }),
        (ValueView::Int16(x), ValueView::Int16(y)) => Some(if x < y { -1int } else if x == y { 0int } else { 1int }),
        (ValueView::Int32(x), ValueView::Int32(y)) => Some(if x < y { -1int } else if x == y { 0int } else { 1int }),
        (ValueView::Int64(x), ValueView::Int64(y)) => Some(if x < y { -1int } else if x == y { 0int } else { 1int }),
        (ValueView::UInt8(x), ValueView::UInt8(y)) => Some(if x < y { -1int } else if x == y { 0int } else { 1int }),
        (ValueView::UInt16(x), ValueView::UInt16(y)) => Some(if x < y { -1int } else if x == y { 0int } else { 1int }),
        (ValueView::UInt32(x), ValueView::UInt32(y)) => Some(if x < y { -1int } else if x == y { 0int } else { 1int }),
        (ValueView::UInt64(x), ValueView::UInt64(y)) => Some(if x < y { -1int } else if x == y { 0int } else { 1int }),
        (ValueView::Boolean(x), ValueView::Boolean(y)) => Some(if !x && y { -1int } else if x == y { 0int } else { 1int }),
        (ValueView::Text(x), ValueView::Text(y)) => Some(if x == y {
            0int
        } else if lex_lt(encode_utf8(x), encode_utf8(y)) {
            -1int
        } else {
            1int
        }),
        _ => None,
    }
}

/// Whether a comparison holds of an order.
pub open spec fn order_holds(m: ComparisonMethod, c: int) -> bool {
    match m {
        ComparisonMethod::EQ => c == 0,
        ComparisonMethod::NEQ => c != 0,
        ComparisonMethod::GT => c > 0,
        ComparisonMethod::GTE => c >= 0,
        ComparisonMethod::LT => c < 0,
        ComparisonMethod::LTE => c <= 0,
    }
}

/// Whether two values are floating-point values of one type.
pub open spec fn both_float(a: ValueView, b: ValueView) -> bool {
    (a is Float32 && b is Float32) || (a is Float64 && b is Float64)
}

/// The result of a comparison of two values. Two floating-point values of one type make a
/// floating-point comparison. Otherwise `EQ` and `NEQ` compare the values by `value_eq`, and
/// the ordering comparisons go by `order_of`; values without an order are a fault.
pub open spec fn compare_spec(m: ComparisonMethod, a: ValueView, b: ValueView) -> CmpView {
    if both_float(a, b) {
        CmpView::Float
    } else if m is EQ {
        CmpView::Value(value_eq(a, b))
    } else if m is NEQ {
        CmpView::Value(!value_eq(a, b))
    } else {
        match order_of(a, b) {
            Some(c) => CmpView::Value(order_holds(m, c)),
            None => CmpView::Fault(Fault::Unordered),
        }
    }
}

fn order(a: &RegisterValue, b: &RegisterValue) -> (r: Option<i8>)
    ensures
        r matches Some(c) ==> order_of(a@, b@) == Some(c as int),
        r is None ==> order_of(a@, b@) is None,
{
    match (a, b) {
        (RegisterValue::Int8(x), RegisterValue::Int8(y)) => Some(if *x < *y { -1i8 } else if *x == *y { 0i8 } else { 1i8 }),
        (RegisterValue::Int16(x), RegisterValue::Int16(y)) => Some(if *x < *y { -1i8 } else if *x == *y { 0i8 } else { 1i8 }),
        (RegisterValue::Int32(x), RegisterValue::Int32(y)) => Some(if *x < *y { -1i8 } else if *x == *y { 0i8 } else { 1i8 }),
        (RegisterValue::Int64(x), RegisterValue::Int64(y)) => Some(if *x < *y { -1i8 } else if *x == *y { 0i8 } else { 1i8 }),
        (RegisterValue::UInt8(x), RegisterValue::UInt8(y)) => Some(if *x < *y { -1i8 } else if *x == *y { 0i8 } else { 1i8 }),
        (RegisterValue::UInt16(x), RegisterValue::UInt16(y)) => Some(if *x < *y { -1i8 } else if *x == *y { 0i8 } else { 1i8 }),
        (RegisterValue::UInt32(x), RegisterValue::UInt32(y)) => Some(if *x < *y { -1i8 } else if *x == *y { 0i8 } else { 1i8 }),
        (RegisterValue::UInt64(x), RegisterValue::UInt64(y)) => Some(if *x < *y { -1i8 } else if *x == *y { 0i8 } else { 1i8 }),
        (RegisterValue::Boolean(x), RegisterValue::Boolean(y)) => Some(if !*x && *y { -1i8 } else if *x == *y { 0i8 } else { 1i8 }),
        (RegisterValue::String(x), RegisterValue::String(y)) => Some(if str_equal(x.as_str(), y.as_str()) {
            0i8
        } else if str_less(x.as_str(), y.as_str()) {
            -1i8
        } else {
            1i8
        }),
        _ => None,
    }
}

/// Compare two values.
pub fn compare(m: ComparisonMethod, a: &RegisterValue, b: &RegisterValue) -> (r: Compared)
    ensures
        r@ == compare_spec(m, a@, b@),
{
    let float = match (a, b) {
        (RegisterValue::Float32(_), RegisterValue::Float32(_)) => true,
        (RegisterValue::Float64(_), RegisterValue::Float64(_)) => true,
        _ => false,
    };
    if float {
        return Compared::Float;
    }
    match m {
        ComparisonMethod::EQ => Compared::Value(a.same_as(b)),
        ComparisonMethod::NEQ => Compared::Value(!a.same_as(b)),
        _ => match order(a, b) {
            Some(c) => Compared::Value(match m {
                ComparisonMethod::GT => c > 0,
                ComparisonMethod::GTE => c >= 0,
                ComparisonMethod::LT => c < 0,
                _ => c <= 0,
            }),
            None => Compared::Fault(Fault::Unordered),
        },
    }
}

/// A bitwise `AND` (`kind` 0), `OR` (1) or `XOR` (2) of two values: integers of one type
/// bit by bit, booleans logically. Any other pair of operands is a fault.
pub open spec fn bit_binary_spec(kind: u8, a: ValueView, b: ValueView) -> CalcView {
    match (a, b) {
        (ValueView::Int8(x), ValueView::Int8(y)) => CalcView::Value(ValueView::Int8(if kind == 0 { x & y } else if kind == 1 { x | y } else { x ^ y })),
        (ValueView::Int16(x), ValueView::Int16(y)) => CalcView::Value(ValueView::Int16(if kind == 0 { x & y } else if kind == 1 { x | y } else { x ^ y })),
        (ValueView::Int32(x), ValueView::Int32(y)) => CalcView::Value(ValueView::Int32(if kind == 0 { x & y } else if kind == 1 { x | y } else { x ^ y })),
        (ValueView::Int64(x), ValueView::Int64(y)) => CalcView::Value(ValueView::Int64(if kind == 0 { x & y } else if kind == 1 { x | y } else { x ^ y })),
        (ValueView::UInt8(x), ValueView::UInt8(y)) => CalcView::Value(ValueView::UInt8(if kind == 0 { x & y } else if kind == 1 { x | y } else { x ^ y })),
        (ValueView::UInt16(x), ValueView::UInt16(y)) => CalcView::Value(ValueView::UInt16(if kind == 0 { x & y } else if kind == 1 { x | y } else { x ^ y })),
        (ValueView::UInt32(x), ValueView::UInt32(y)) => CalcView::Value(ValueView::UInt32(if kind == 0 { x & y } else if kind == 1 { x | y } else { x ^ y })),
        (ValueView::UInt64(x), ValueView::UInt64(y)) => CalcView::Value(ValueView::UInt64(if kind == 0 { x & y } else if kind == 1 { x | y } else { x ^ y })),
        (ValueView::Boolean(x), ValueView::Boolean(y)) => CalcView::Value(ValueView::Boolean(if kind == 0 {
            x && y
        } else if kind == 1 {
            x || y
        } else {
            x != y
        })),
        _ => CalcView::Fault(Fault::BitwiseTypes),
    }
}

/// A bitwise `AND` (`kind` 0), `OR` (1) or `XOR` (2) of two values.
pub fn bit_binary(kind: u8, a: &RegisterValue, b: &RegisterValue) -> (r: Calculated)
    ensures
        r@ == bit_binary_spec(kind, a@, b@),
{
    match (a, b) {
        (RegisterValue::Int8(x), RegisterValue::Int8(y)) => Calculated::Value(RegisterValue::Int8(if kind == 0 { *x & *y } else if kind == 1 { *x | *y } else { *x ^ *y })),
        (RegisterValue::Int16(x), RegisterValue::Int16(y)) => Calculated::Value(RegisterValue::Int16(if kind == 0 { *x & *y } else if kind == 1 { *x | *y } else { *x ^ *y })),
        (RegisterValue::Int32(x), RegisterValue::Int32(y)) => Calculated::Value(RegisterValue::Int32(if kind == 0 { *x & *y } else if kind == 1 { *x | *y } else { *x ^ *y })),
        (RegisterValue::Int64(x), RegisterValue::Int64(y)) => Calculated::Value(RegisterValue::Int64(if kind == 0 { *x & *y } else if kind == 1 { *x | *y } else { *x ^ *y })),
        (RegisterValue::UInt8(x), RegisterValue::UInt8(y)) => Calculated::Value(RegisterValue::UInt8(if kind == 0 { *x & *y } else if kind == 1 { *x | *y } else { *x ^ *y })),
        (RegisterValue::UInt16(x), RegisterValue::UInt16(y)) => Calculated::Value(RegisterValue::UInt16(if kind == 0 { *x & *y } else if kind == 1 { *x | *y } else { *x ^ *y })),
        (RegisterValue::UInt32(x), RegisterValue::UInt32(y)) => Calculated::Value(RegisterValue::UInt32(if kind == 0 { *x & *y } else if kind == 1 { *x | *y } else { *x ^ *y })),
        (RegisterValue::UInt64(x), RegisterValue::UInt64(y)) => Calculated::Value(RegisterValue::UInt64(if kind == 0 { *x & *y } else if kind == 1 { *x | *y } else { *x ^ *y })),
        (RegisterValue::Boolean(x), RegisterValue::Boolean(y)) => Calculated::Value(RegisterValue::Boolean(if kind == 0 {
            *x && *y
        } else if kind == 1 {
            *x || *y
        } else {
            *x != *y
        })),
        _ => Calculated::Fault(Fault::BitwiseTypes),
    }
}

/// The bitwise `NOT` of a value: an integer with every bit flipped, a boolean negated. Any
/// other value is a fault.
pub open spec fn bit_not_spec(a: ValueView) -> CalcView {
    match a {
        ValueView::Int8(x) => CalcView::Value(ValueView::Int8(!x)),
        ValueView::Int16(x) => CalcView::Value(ValueView::Int16(!x)),
        ValueView::Int32(x) => CalcView::Value(ValueView::Int32(!x)),
        ValueView::Int64(x) => CalcView::Value(ValueView::Int64(!x)),
        ValueView::UInt8(x) => CalcView::Value(ValueView::UInt8(!x)),
        ValueView::UInt16(x) => CalcView::Value(ValueView::UInt16(!x)),
        ValueView::UInt32(x) => CalcView::Value(ValueView::UInt32(!x)),
        ValueView::UInt64(x) => CalcView::Value(ValueView::UInt64(!x)),
        ValueView::Boolean(x) => CalcView::Value(ValueView::Boolean(!x)),
        _ => CalcView::Fault(Fault::BitwiseTypes),
    }
}

/// The bitwise `NOT` of a value.
pub fn bit_not(a: &RegisterValue) -> (r: Calculated)
    ensures
        r@ == bit_not_spec(a@),
{
    match a {
        RegisterValue::Int8(x) => {
            let v: i8 = *x;
            let y: i8 = -1i8 - v;
            assert(y == !v) by (bit_vector)
                requires
                    y == -1i8 - v,
            ;
            Calculated::Value(RegisterValue::Int8(y))
        },
        RegisterValue::Int16(x) => {
            let v: i16 = *x;
            let y: i16 = -1i16 - v;
            assert(y == !v) by (bit_vector)
                requires
                    y == -1i16 - v,
            ;
            Calculated::Value(RegisterValue::Int16(y))
        },
        RegisterValue::Int32(x) => {
            let v: i32 = *x;
            let y: i32 = -1i32 - v;
            assert(y == !v) by (bit_vector)
                requires
                    y == -1i32 - v,
            ;
            Calculated::Value(RegisterValue::Int32(y))
        },
        RegisterValue::Int64(x) => {
            let v: i64 = *x;
            let y: i64 = -1i64 - v;
            assert(y == !v) by (bit_vector)
                requires
                    y == -1i64 - v,
            ;
            Calculated::Value(RegisterValue::Int64(y))
        },
        RegisterValue::UInt8(x) => {
            Calculated::Value(RegisterValue::UInt8(!*x))
        },
        RegisterValue::UInt16(x) => {
            Calculated::Value(RegisterValue::UInt16(!*x))
        },
        RegisterValue::UInt32(x) => {
            Calculated::Value(RegisterValue::UInt32(!*x))
        },
        RegisterValue::UInt64(x) => {
            Calculated::Value(RegisterValue::UInt64(!*x))
        },
        RegisterValue::Boolean(x) => {
            Calculated::Value(RegisterValue::Boolean(!*x))
        },
        _ => Calculated::Fault(Fault::BitwiseTypes),
    }
}

/// An integer shifted left (`left`) or right by `amount` bits, right shifts of signed
/// integers keeping the sign. An amount of at least the integer's width is a fault, and so
/// is any value but an integer.
pub open spec fn bit_shift_spec(left: bool, a: ValueView, amount: u32) -> CalcView {
    match a {
        ValueView::Int8(x) => if amount >= 8 {
            CalcView::Fault(Fault::ShiftOverflow)
        } else if left {
            CalcView::Value(ValueView::Int8(x << amount))
        } else {
            CalcView::Value(ValueView::Int8(x >> amount))
        },
        ValueView::Int16(x) => if amount >= 16 {
            CalcView::Fault(Fault::ShiftOverflow)
        } else if left {
            CalcView::Value(ValueView::Int16(x << amount))
        } else {
            CalcView::Value(ValueView::Int16(x >> amount))
        },
        ValueView::Int32(x) => if amount >= 32 {
            CalcView::Fault(Fault::ShiftOverflow)
        } else if left {
            CalcView::Value(ValueView::Int32(x << amount))
        } else {
            CalcView::Value(ValueView::Int32(x >> amount))
        },
        ValueView::Int64(x) => if amount >= 64 {
            CalcView::Fault(Fault::ShiftOverflow)
        } else if left {
            CalcView::Value(ValueView::Int64(x << amount))
        } else {
            CalcView::Value(ValueView::Int64(x >> amount))
        },
        ValueView::UInt8(x) => if amount >= 8 {
            CalcView::Fault(Fault::ShiftOverflow)
        } else if left {
            CalcView::Value(ValueView::UInt8(x << amount))
        } else {
            CalcView::Value(ValueView::UInt8(x >> amount))
        },
        ValueView::UInt16(x) => if amount >= 16 {
            CalcView::Fault(Fault::ShiftOverflow)
        } else if left {
            CalcView::Value(ValueView::UInt16(x << amount))
        } else {
            CalcView::Value(ValueView::UInt16(x >> amount))
        },
        ValueView::UInt32(x) => if amount >= 32 {
            CalcView::Fault(Fault::ShiftOverflow)
        } else if left {
            CalcView::Value(ValueView::UInt32(x << amount))
        } else {
            CalcView::Value(ValueView::UInt32(x >> amount))
        },
        ValueView::UInt64(x) => if amount >= 64 {
            CalcView::Fault(Fault::ShiftOverflow)
        } else if left {
            CalcView::Value(ValueView::UInt64(x << amount))
        } else {
            CalcView::Value(ValueView::UInt64(x >> amount))
        },
        _ => CalcView::Fault(Fault::BitwiseTypes),
    }
}

/// An integer shifted left or right.
pub fn bit_shift(left: bool, a: &RegisterValue, amount: u32) -> (r: Calculated)
    ensures
        r@ == bit_shift_spec(left, a@, amount),
{
    match a {
        RegisterValue::Int8(x) => if amount >= 8 {
            Calculated::Fault(Fault::ShiftOverflow)
        } else if left {
            Calculated::Value(RegisterValue::Int8(*x << amount))
        } else {
            Calculated::Value(RegisterValue::Int8(*x >> amount))
        },
        RegisterValue::Int16(x) => if amount >= 16 {
            Calculated::Fault(Fault::ShiftOverflow)
        } else if left {
            Calculated::Value(RegisterValue::Int16(*x << amount))
        } else {
            Calculated::Value(RegisterValue::Int16(*x >> amount))
        },
        RegisterValue::Int32(x) => if amount >= 32 {
            Calculated::Fault(Fault::ShiftOverflow)
        } else if left {
            Calculated::Value(RegisterValue::Int32(*x << amount))
        } else {
            Calculated::Value(RegisterValue::Int32(*x >> amount))
        },
        RegisterValue::Int64(x) => if amount >= 64 {
            Calculated::Fault(Fault::ShiftOverflow)
        } else if left {
            Calculated::Value(RegisterValue::Int64(*x << amount))
        } else {
            Calculated::Value(RegisterValue::Int64(*x >> amount))
        },
        RegisterValue::UInt8(x) => if amount >= 8 {
            Calculated::Fault(Fault::ShiftOverflow)
        } else if left {
            Calculated::Value(RegisterValue::UInt8(*x << amount))
        } else {
            Calculated::Value(RegisterValue::UInt8(*x >> amount))
        },
        RegisterValue::UInt16(x) => if amount >= 16 {
            Calculated::Fault(Fault::ShiftOverflow)
        } else if left {
            Calculated::Value(RegisterValue::UInt16(*x << amount))
        } else {
            Calculated::Value(RegisterValue::UInt16(*x >> amount))
        },
        RegisterValue::UInt32(x) => if amount >= 32 {
            Calculated::Fault(Fault::ShiftOverflow)
        } else if left {
            Calculated::Value(RegisterValue::UInt32(*x << amount))
        } else {
            Calculated::Value(RegisterValue::UInt32(*x >> amount))
        },
        RegisterValue::UInt64(x) => if amount >= 64 {
            Calculated::Fault(Fault::ShiftOverflow)
        } else if left {
            Calculated::Value(RegisterValue::UInt64(*x << amount))
        } else {
            Calculated::Value(RegisterValue::UInt64(*x >> amount))
        },
        _ => Calculated::Fault(Fault::BitwiseTypes),
    }
}

} // verus!
