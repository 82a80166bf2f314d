//! What the register operations mean, stated over the numbers, bits and orders that the
//! values hold rather than over the definitions that the operations are proved against.
use vstd::prelude::*;
use vstd::arithmetic::div_mod::{lemma_fundamental_div_mod, lemma_mod_bound};

use vstd::utf8::{encode_utf8, encode_utf8_decode_utf8};

use crate::machine::arith::{bit_binary_spec, bit_not_spec, bit_shift_spec, calc_spec, compare_spec, CalcView, CmpView, Fault};
use crate::machine::instruction::{calculation_byte, calculation_of_byte, comparison_byte, comparison_of_byte, CalculationMethod, ComparisonMethod};
use crate::machine::bytecode::ParseErrorView;
use crate::machine::bytecode::decode::{parse_at, Step};
use crate::machine::instruction::{BitwiseView, InstrView, InterruptKind};
use crate::machine::endian::{le_u16, le_u32, le_u64};
use crate::machine::step::{apply, bitwise_result, lookup, MachineView, OutcomeView};
use crate::machine::dispatch::{pattern_matches, precedence_of, PatternView};
use vstd::arithmetic::power::pow;
use crate::machine::instruction::MemoryMethod;
use crate::machine::memory::{byte_op, byte_steps, can_compute, compute_effect, compute_fails, disjoint, in_range, lemma_byte_steps_disjoint};
use crate::machine::register::{value_eq, encode_value, type_code, type_of, RegisterType, lemma_lex_irreflexive, lemma_lex_total, lemma_lex_transitive, lex_lt, ValueView};

verus! {

/// Whether a value is an integer.
pub open spec fn is_int(v: ValueView) -> bool {
    v is Int8 || v is Int16 || v is Int32 || v is Int64 || v is UInt8 || v is UInt16 || v is UInt32 || v is UInt64
}

/// The number that an integer value holds.
pub open spec fn int_value(v: ValueView) -> int {
    match v {
        ValueView::Int8(x) => x as int,
        ValueView::Int16(x) => x as int,
        ValueView::Int32(x) => x as int,
        ValueView::Int64(x) => x as int,
        ValueView::UInt8(x) => x as int,
        ValueView::UInt16(x) => x as int,
        ValueView::UInt32(x) => x as int,
        ValueView::UInt64(x) => x as int,
        _ => 0,
    }
}

/// The count of values of an integer's type: two to the power of its width.
pub open spec fn int_range(v: ValueView) -> int {
    match v {
        ValueView::Int8(_) | ValueView::UInt8(_) => 0x100,
        ValueView::Int16(_) | ValueView::UInt16(_) => 0x1_0000,
        ValueView::Int32(_) | ValueView::UInt32(_) => 0x1_0000_0000,
        ValueView::Int64(_) | ValueView::UInt64(_) => 0x1_0000_0000_0000_0000,
        _ => 0,
    }
}

/// Whether an integer's type is signed.
pub open spec fn int_signed(v: ValueView) -> bool {
    v is Int8 || v is Int16 || v is Int32 || v is Int64
}

/// Whether two values are integers of one type.
pub open spec fn same_int_type(a: ValueView, b: ValueView) -> bool {
    &&& is_int(a)
    &&& is_int(b)
    &&& int_range(a) == int_range(b)
    &&& int_signed(a) == int_signed(b)
}

/// The product of a count and a modulus.
pub open spec fn times(k: int, m: int) -> int {
    k * m
}

/// Whether `z` and `n` differ by a whole multiple of `m`.
pub open spec fn congruent(z: int, n: int, m: int) -> bool {
    exists|k: int| z == n + #[trigger] times(k, m)
}

/// Whether a calculation gives an integer of the operand's type that is congruent to `n`
/// modulo the count of values of that type: the exact result where it fits, wrapped round
/// where it does not.
pub open spec fn wraps_to(r: CalcView, a: ValueView, n: int) -> bool {
    &&& r matches CalcView::Value(c)
    &&& same_int_type(c, a)
    &&& congruent(int_value(c), n, int_range(a))
}

proof fn lemma_crop(n: int, m: int, z: int)
    requires
        m > 0,
        z == n % m || z == n % m - m,
    ensures
        congruent(z, n, m),
{
    lemma_fundamental_div_mod(n, m);
    if z == n % m {
        assert(z == n + times(-(n / m), m)) by (nonlinear_arith)
            requires
                n == m * (n / m) + n % m,
                z == n % m,
        ;
    } else {
        assert(z == n + times(-(n / m) - 1, m)) by (nonlinear_arith)
            requires
                n == m * (n / m) + n % m,
                z == n % m - m,
        ;
    }
}

/// Addition, subtraction and multiplication of two integers of one type give the sum, the
/// difference (the first operand less the second) and the product of their numbers, wrapped
/// round to the type.
pub proof fn lemma_wrapping_arithmetic(a: ValueView, b: ValueView)
    requires
        same_int_type(a, b),
    ensures
        wraps_to(calc_spec(CalculationMethod::ADD, a, b), a, int_value(a) + int_value(b)),
        wraps_to(calc_spec(CalculationMethod::SUBTRACT, a, b), a, int_value(a) - int_value(b)),
        wraps_to(calc_spec(CalculationMethod::MULTIPLY, a, b), a, int_value(a) * int_value(b)),
{
    let x = int_value(a);
    let y = int_value(b);
    let m = int_range(a);
    let add = calc_spec(CalculationMethod::ADD, a, b);
    let sub = calc_spec(CalculationMethod::SUBTRACT, a, b);
    let mul = calc_spec(CalculationMethod::MULTIPLY, a, b);
    let za = int_value(add->Value_0);
    let zs = int_value(sub->Value_0);
    let zm = int_value(mul->Value_0);
    assert(za == x + y || za == x + y - m || za == x + y + m);
    assert(zs == x - y || zs == x - y - m || zs == x - y + m);
    if za == x + y - m {
        assert(za == x + y + times(-1, m));
    } else if za == x + y + m {
        assert(za == x + y + times(1, m));
    } else {
        assert(za == x + y + times(0, m));
    }
    if zs == x - y - m {
        assert(zs == x - y + times(-1, m));
    } else if zs == x - y + m {
        assert(zs == x - y + times(1, m));
    } else {
        assert(zs == x - y + times(0, m));
    }
    if int_signed(a) {
        assert(zm == (x * y) % m || zm == (x * y) % m - m);
    } else {
        assert(zm == (x * y) % m);
    }
    lemma_crop(x * y, m, zm);
}

/// The magnitude of a number.
pub open spec fn magnitude(y: int) -> int {
    if y < 0 {
        -y
    } else {
        y
    }
}

/// Whether `q` and `r` are the quotient and remainder of `x` by `y` in truncating division:
/// `q * y + r` gives back `x`, and the remainder is smaller than the divisor and has the sign
/// of the dividend.
pub open spec fn truncates(x: int, y: int, q: int, r: int) -> bool {
    &&& q * y + r == x
    &&& (x >= 0 ==> 0 <= r < magnitude(y))
    &&& (x < 0 ==> -magnitude(y) < r <= 0)
}

/// The quotient of a division rounded toward zero, written as the standard library's
/// specification of `checked_div` on signed integers writes it.
spec fn toward_zero_div(x: int, d: int) -> int {
    if x == 0 {
        0
    } else if x > 0 && d > 0 {
        x / d
    } else if x < 0 && d < 0 {
        ((x * -1) / (d * -1))
    } else if x < 0 {
        ((x * -1) / d) * -1
    } else {
        (x / (d * -1)) * -1
    }
}

/// The remainder that goes with `toward_zero_div`, as the specification of `checked_rem`
/// writes it.
spec fn toward_zero_rem(x: int, d: int) -> int {
    if x == 0 {
        0
    } else if x > 0 && d > 0 {
        x % d
    } else if x < 0 && d < 0 {
        ((x * -1) % (d * -1)) * -1
    } else if x < 0 {
        ((x * -1) % d) * -1
    } else {
        x % (d * -1)
    }
}

proof fn lemma_toward_zero(x: int, d: int)
    requires
        d != 0,
    ensures
        truncates(x, d, toward_zero_div(x, d), toward_zero_rem(x, d)),
{
    let q = toward_zero_div(x, d);
    let r = toward_zero_rem(x, d);
    if x == 0 {
    } else if x > 0 && d > 0 {
        lemma_fundamental_div_mod(x, d);
        lemma_mod_bound(x, d);
        assert(q * d == d * (x / d)) by (nonlinear_arith)
            requires
                q == x / d,
        ;
    } else if x < 0 && d < 0 {
        let a = -x;
        let b = -d;
        lemma_fundamental_div_mod(a, b);
        lemma_mod_bound(a, b);
        assert(q == a / b && r == -(a % b));
        assert(q * d + r == x) by (nonlinear_arith)
            requires
                q == a / b,
                r == -(a % b),
                a == b * (a / b) + a % b,
                a == -x,
                b == -d,
        ;
    } else if x < 0 {
        let a = -x;
        lemma_fundamental_div_mod(a, d);
        lemma_mod_bound(a, d);
        assert(q == -(a / d) && r == -(a % d));
        assert(q * d + r == x) by (nonlinear_arith)
            requires
                q == -(a / d),
                r == -(a % d),
                a == d * (a / d) + a % d,
                a == -x,
        ;
    } else {
        let b = -d;
        lemma_fundamental_div_mod(x, b);
        lemma_mod_bound(x, b);
        assert(q == -(x / b) && r == x % b);
        assert(q * d + r == x) by (nonlinear_arith)
            requires
                q == -(x / b),
                r == x % b,
                x == b * (x / b) + x % b,
                b == -d,
        ;
    }
}

/// Division and remainder of two integers of one type: by zero both fault; otherwise they
/// give the quotient rounded toward zero and the remainder with the sign of the dividend, so
/// that the quotient times the divisor plus the remainder is the dividend. The one quotient
/// that does not fit, of the least signed value by -1, wraps round to that value, with
/// remainder 0.
pub proof fn lemma_division(a: ValueView, b: ValueView)
    requires
        same_int_type(a, b),
    ensures
        int_value(b) == 0 ==> calc_spec(CalculationMethod::DIVIDE, a, b) == CalcView::Fault(Fault::DivisionByZero)
            && calc_spec(CalculationMethod::MODULO, a, b) == CalcView::Fault(Fault::DivisionByZero),
        int_value(b) != 0 ==> ({
            let q = calc_spec(CalculationMethod::DIVIDE, a, b);
            let r = calc_spec(CalculationMethod::MODULO, a, b);
            &&& q matches CalcView::Value(qv) && same_int_type(qv, a)
            &&& r matches CalcView::Value(rv) && same_int_type(rv, a)
            &&& if int_signed(a) && int_value(a) == -(int_range(a) / 2) && int_value(b) == -1 {
                int_value(q->Value_0) == int_value(a) && int_value(r->Value_0) == 0
            } else {
                truncates(int_value(a), int_value(b), int_value(q->Value_0), int_value(r->Value_0))
            }
        }),
{
    let x = int_value(a);
    let y = int_value(b);
    if y != 0 {
        lemma_toward_zero(x, y);
        if !int_signed(a) {
            lemma_fundamental_div_mod(x, y);
            lemma_mod_bound(x, y);
            assert((x / y) * y == y * (x / y)) by (nonlinear_arith);
        }
    }
}

/// The comparisons of two integers of one type are those of their numbers.
pub proof fn lemma_integer_comparisons(a: ValueView, b: ValueView)
    requires
        same_int_type(a, b),
    ensures
        compare_spec(ComparisonMethod::EQ, a, b) == CmpView::Value(int_value(a) == int_value(b)),
        compare_spec(ComparisonMethod::NEQ, a, b) == CmpView::Value(int_value(a) != int_value(b)),
        compare_spec(ComparisonMethod::GT, a, b) == CmpView::Value(int_value(a) > int_value(b)),
        compare_spec(ComparisonMethod::GTE, a, b) == CmpView::Value(int_value(a) >= int_value(b)),
        compare_spec(ComparisonMethod::LT, a, b) == CmpView::Value(int_value(a) < int_value(b)),
        compare_spec(ComparisonMethod::LTE, a, b) == CmpView::Value(int_value(a) <= int_value(b)),
{
}

/// Booleans compare with `false` before `true`.
pub proof fn lemma_boolean_comparisons(p: bool, q: bool)
    ensures
        compare_spec(ComparisonMethod::EQ, ValueView::Boolean(p), ValueView::Boolean(q)) == CmpView::Value(p == q),
        compare_spec(ComparisonMethod::NEQ, ValueView::Boolean(p), ValueView::Boolean(q)) == CmpView::Value(p != q),
        compare_spec(ComparisonMethod::GT, ValueView::Boolean(p), ValueView::Boolean(q)) == CmpView::Value(p && !q),
        compare_spec(ComparisonMethod::GTE, ValueView::Boolean(p), ValueView::Boolean(q)) == CmpView::Value(p || !q),
        compare_spec(ComparisonMethod::LT, ValueView::Boolean(p), ValueView::Boolean(q)) == CmpView::Value(!p && q),
        compare_spec(ComparisonMethod::LTE, ValueView::Boolean(p), ValueView::Boolean(q)) == CmpView::Value(!p || q),
{
}

/// Whether two values can be ordered: integers of one type, two booleans or two strings.
pub open spec fn orderable(a: ValueView, b: ValueView) -> bool {
    same_int_type(a, b) || (a is Boolean && b is Boolean) || (a is Text && b is Text)
}

/// The ordering comparisons of orderable values hang together: `LTE` is the negation of
/// `GT` and `GTE` that of `LT`, swapping the operands turns `LT` into `GT` and `LTE` into
/// `GTE`, equal values are `LTE` and `GTE` of each other, `NEQ` is the negation of `EQ`, and a
/// value is `LTE` and `GTE` of itself and neither `LT` nor `GT` of itself.
pub proof fn lemma_comparisons_agree(a: ValueView, b: ValueView)
    requires
        orderable(a, b),
    ensures
        compare_spec(ComparisonMethod::GT, a, b) is Value,
        compare_spec(ComparisonMethod::LT, a, b) is Value,
        compare_spec(ComparisonMethod::EQ, a, b) is Value,
        compare_spec(ComparisonMethod::LTE, a, b) == CmpView::Value(!compare_spec(ComparisonMethod::GT, a, b)->Value_0),
        compare_spec(ComparisonMethod::GTE, a, b) == CmpView::Value(!compare_spec(ComparisonMethod::LT, a, b)->Value_0),
        compare_spec(ComparisonMethod::NEQ, a, b) == CmpView::Value(!compare_spec(ComparisonMethod::EQ, a, b)->Value_0),
        compare_spec(ComparisonMethod::LT, a, b) == compare_spec(ComparisonMethod::GT, b, a),
        compare_spec(ComparisonMethod::LTE, a, b) == compare_spec(ComparisonMethod::GTE, b, a),
        compare_spec(ComparisonMethod::EQ, a, b) == CmpView::Value(true) ==> compare_spec(ComparisonMethod::LTE, a, b)
            == CmpView::Value(true) && compare_spec(ComparisonMethod::GTE, a, b) == CmpView::Value(true),
        compare_spec(ComparisonMethod::LTE, a, a) == CmpView::Value(true),
        compare_spec(ComparisonMethod::GTE, a, a) == CmpView::Value(true),
        compare_spec(ComparisonMethod::LT, a, a) == CmpView::Value(false),
        compare_spec(ComparisonMethod::GT, a, a) == CmpView::Value(false),
{
    if a is Text && b is Text {
        let x = a->Text_0;
        let y = b->Text_0;
        lemma_lex_irreflexive(encode_utf8(x));
        lemma_lex_irreflexive(encode_utf8(y));
        if x != y {
            encode_utf8_decode_utf8(x);
            encode_utf8_decode_utf8(y);
            assert(encode_utf8(x) != encode_utf8(y));
            lemma_lex_total(encode_utf8(x), encode_utf8(y));
            if lex_lt(encode_utf8(x), encode_utf8(y)) && lex_lt(encode_utf8(y), encode_utf8(x)) {
                lemma_lex_transitive(encode_utf8(x), encode_utf8(y), encode_utf8(x));
            }
        }
    }
}

/// The comparison bytes of the bytecode: 0 asks whether two numbers are equal, 1 whether they
/// differ, 2 whether the first is greater, 3 greater or equal, 4 less, 5 less or equal.
pub proof fn lemma_comparison_bytes(byte: u8, a: ValueView, b: ValueView)
    requires
        byte <= 5,
        same_int_type(a, b),
    ensures
        compare_spec(comparison_of_byte(byte), a, b) == CmpView::Value(
            if byte == 0 {
                int_value(a) == int_value(b)
            } else if byte == 1 {
                int_value(a) != int_value(b)
            } else if byte == 2 {
                int_value(a) > int_value(b)
            } else if byte == 3 {
                int_value(a) >= int_value(b)
            } else if byte == 4 {
                int_value(a) < int_value(b)
            } else {
                int_value(a) <= int_value(b)
            },
        ),
        comparison_byte(comparison_of_byte(byte)) == byte,
{
    lemma_integer_comparisons(a, b);
}

/// Every comparison method is written as a byte that reads back as that method.
pub proof fn lemma_comparison_byte_roundtrip(m: ComparisonMethod)
    ensures
        comparison_byte(m) <= 5,
        comparison_of_byte(comparison_byte(m)) == m,
{
}

/// Whether bit `i` of a byte is set (bit 0 is the lowest).
pub open spec fn bit_set(v: u8, i: u32) -> bool {
    (v >> i) & 1u8 == 1u8
}

/// The bitwise operations on bytes, bit by bit: `AND` sets a bit where both operands have it,
/// `OR` where either has it, `XOR` where exactly one has it, `NOT` where the operand lacks it;
/// a left shift by `amount` moves bit `i` to bit `i + amount` and a right shift to bit
/// `i - amount`, bits shifted past the byte being lost and vacated bits clear.
pub proof fn lemma_byte_op_bits(x: u8, y: u8, amount: u32)
    ensures
        forall|i: u32| i < 8 ==> (#[trigger] bit_set(byte_op(0, x, y, amount), i) <==> bit_set(x, i) && bit_set(y, i)),
        forall|i: u32| i < 8 ==> (#[trigger] bit_set(byte_op(1, x, y, amount), i) <==> bit_set(x, i) || bit_set(y, i)),
        forall|i: u32| i < 8 ==> (#[trigger] bit_set(byte_op(2, x, y, amount), i) <==> bit_set(x, i) != bit_set(y, i)),
        forall|i: u32| i < 8 ==> (#[trigger] bit_set(byte_op(3, x, y, amount), i) <==> !bit_set(x, i)),
        amount < 8 ==> forall|i: u32|
            i < 8 ==> (#[trigger] bit_set(byte_op(4, x, y, amount), i) <==> i >= amount && bit_set(x, (i - amount) as u32)),
        amount < 8 ==> forall|i: u32|
            i < 8 ==> (#[trigger] bit_set(byte_op(5, x, y, amount), i) <==> i + amount < 8 && bit_set(x, (i + amount) as u32)),
{
    assert forall|i: u32| i < 8 implies (#[trigger] bit_set(x & y, i) <==> bit_set(x, i) && bit_set(y, i)) by {
        assert(((x & y) >> i) & 1u8 == 1u8 <==> (x >> i) & 1u8 == 1u8 && (y >> i) & 1u8 == 1u8) by (bit_vector)
            requires
                i < 8,
        ;
    }
    assert forall|i: u32| i < 8 implies (#[trigger] bit_set(x | y, i) <==> bit_set(x, i) || bit_set(y, i)) by {
        assert(((x | y) >> i) & 1u8 == 1u8 <==> (x >> i) & 1u8 == 1u8 || (y >> i) & 1u8 == 1u8) by (bit_vector)
            requires
                i < 8,
        ;
    }
    assert forall|i: u32| i < 8 implies (#[trigger] bit_set(x ^ y, i) <==> bit_set(x, i) != bit_set(y, i)) by {
        assert(((x ^ y) >> i) & 1u8 == 1u8 <==> ((x >> i) & 1u8 == 1u8) != ((y >> i) & 1u8 == 1u8)) by (bit_vector)
            requires
                i < 8,
        ;
    }
    assert forall|i: u32| i < 8 implies (#[trigger] bit_set(!x, i) <==> !bit_set(x, i)) by {
        assert(((!x) >> i) & 1u8 == 1u8 <==> !((x >> i) & 1u8 == 1u8)) by (bit_vector)
            requires
                i < 8,
        ;
    }
    if amount < 8 {
        assert forall|i: u32| i < 8 implies (#[trigger] bit_set(((x << amount) as u8), i) <==> i >= amount && bit_set(
            x,
            (i - amount) as u32,
        )) by {
            assert((((x << amount) as u8) >> i) & 1u8 == 1u8 <==> i >= amount && (x >> ((i - amount) as u32)) & 1u8
                == 1u8) by (bit_vector)
                requires
                    i < 8,
                    amount < 8,
            ;
        }
        assert forall|i: u32| i < 8 implies (#[trigger] bit_set(((x >> amount) as u8), i) <==> i + amount < 8 && bit_set(
            x,
            (i + amount) as u32,
        )) by {
            assert((((x >> amount) as u8) >> i) & 1u8 == 1u8 <==> i + amount < 8 && (x >> ((i + amount) as u32)) & 1u8
                == 1u8) by (bit_vector)
                requires
                    i < 8,
                    amount < 8,
            ;
        }
    }
}

/// Whether the output range of a bitwise memory operation lies apart from its input ranges.
pub open spec fn ranges_apart(m: MemoryMethod) -> bool {
    match m {
        MemoryMethod::AND { a, b, out, len } => disjoint(out as int, a as int, len as int) && disjoint(out as int, b as int, len as int),
        MemoryMethod::OR { a, b, out, len } => disjoint(out as int, a as int, len as int) && disjoint(out as int, b as int, len as int),
        MemoryMethod::XOR { a, b, out, len } => disjoint(out as int, a as int, len as int) && disjoint(out as int, b as int, len as int),
        MemoryMethod::NOT { a, out, len } => disjoint(out as int, a as int, len as int),
        MemoryMethod::LSH { a, out, len, .. } => disjoint(out as int, a as int, len as int),
        MemoryMethod::RSH { a, out, len, .. } => disjoint(out as int, a as int, len as int),
        _ => false,
    }
}

/// Whether a memory operation is one of the bitwise operations on byte ranges.
pub open spec fn is_bitwise(m: MemoryMethod) -> bool {
    m is AND || m is OR || m is XOR || m is NOT || m is LSH || m is RSH
}

/// The output range of a bitwise memory operation, as its start and length.
pub open spec fn output_range(m: MemoryMethod) -> (int, int) {
    match m {
        MemoryMethod::AND { out, len, .. } => (out as int, len as int),
        MemoryMethod::OR { out, len, .. } => (out as int, len as int),
        MemoryMethod::XOR { out, len, .. } => (out as int, len as int),
        MemoryMethod::NOT { out, len, .. } => (out as int, len as int),
        MemoryMethod::LSH { out, len, .. } => (out as int, len as int),
        MemoryMethod::RSH { out, len, .. } => (out as int, len as int),
        _ => (0, 0),
    }
}

proof fn lemma_range_bits(d: Seq<u8>, kind: int, a: int, b: int, out: int, amount: u32, n: nat)
    requires
        0 <= kind <= 5,
        in_range(a, n as int, d.len() as int),
        in_range(b, n as int, d.len() as int),
        in_range(out, n as int, d.len() as int),
        disjoint(out, a, n as int),
        disjoint(out, b, n as int),
    ensures
        byte_steps(d, kind, a, b, out, amount, n).len() == d.len(),
        forall|k: int|
            0 <= k < n ==> #[trigger] byte_steps(d, kind, a, b, out, amount, n)[out + k]
                == byte_op(kind, d[a + k], d[b + k], amount),
        forall|p: int|
            0 <= p < d.len() && !(out <= p < out + n) ==> #[trigger] byte_steps(
                d,
                kind,
                a,
                b,
                out,
                amount,
                n,
            )[p] == d[p],
{
    lemma_byte_steps_disjoint(d, kind, a, b, out, amount, n);
}

/// The bitwise operations on byte ranges, where the output range lies apart from the input
/// ranges: each output byte has, bit by bit, what the operation makes of the input bytes at
/// the same offset (`AND` both bits set, `OR` either, `XOR` exactly one, `NOT` the bit
/// flipped, the shifts the bit `amount` places lower or higher), and every byte outside the
/// output range stays as it was.
pub proof fn lemma_memory_bitwise(d: Seq<u8>, m: MemoryMethod)
    requires
        is_bitwise(m),
        can_compute(d.len() as int, m),
        ranges_apart(m),
    ensures
        compute_effect(d, m).len() == d.len(),
        forall|p: int|
            0 <= p < d.len() && !(output_range(m).0 <= p < output_range(m).0 + output_range(m).1) ==> #[trigger] compute_effect(d, m)[p] == d[p],
        m matches MemoryMethod::AND { a, b, out, len } ==> forall|k: int, i: u32|
            0 <= k < len && i < 8 ==> (#[trigger] bit_set(compute_effect(d, m)[out + k], i) <==> bit_set(d[a + k], i)
                && bit_set(d[b + k], i)),
        m matches MemoryMethod::OR { a, b, out, len } ==> forall|k: int, i: u32|
            0 <= k < len && i < 8 ==> (#[trigger] bit_set(compute_effect(d, m)[out + k], i) <==> bit_set(d[a + k], i)
                || bit_set(d[b + k], i)),
        m matches MemoryMethod::XOR { a, b, out, len } ==> forall|k: int, i: u32|
            0 <= k < len && i < 8 ==> (#[trigger] bit_set(compute_effect(d, m)[out + k], i) <==> bit_set(d[a + k], i)
                != bit_set(d[b + k], i)),
        m matches MemoryMethod::NOT { a, out, len } ==> forall|k: int, i: u32|
            0 <= k < len && i < 8 ==> (#[trigger] bit_set(compute_effect(d, m)[out + k], i) <==> !bit_set(d[a + k], i)),
        m matches MemoryMethod::LSH { a, out, amount, len } ==> forall|k: int, i: u32|
            0 <= k < len && i < 8 ==> (#[trigger] bit_set(compute_effect(d, m)[out + k], i) <==> i >= amount && bit_set(
                d[a + k],
                (i - amount) as u32,
            )),
        m matches MemoryMethod::RSH { a, out, amount, len } ==> forall|k: int, i: u32|
            0 <= k < len && i < 8 ==> (#[trigger] bit_set(compute_effect(d, m)[out + k], i) <==> i + amount < 8 && bit_set(
                d[a + k],
                (i + amount) as u32,
            )),
{
    let e = compute_effect(d, m);
    match m {
        MemoryMethod::AND { a, b, out, len } => {
            lemma_range_bits(d, 0, a as int, b as int, out as int, 0, len as nat);
            assert forall|k: int, i: u32| 0 <= k < len && i < 8 implies (#[trigger] bit_set(e[out + k], i) <==> bit_set(
                d[a + k],
                i,
            ) && bit_set(d[b + k], i)) by {
                lemma_byte_op_bits(d[a + k], d[b + k], 0);
            }
        },
        MemoryMethod::OR { a, b, out, len } => {
            lemma_range_bits(d, 1, a as int, b as int, out as int, 0, len as nat);
            assert forall|k: int, i: u32| 0 <= k < len && i < 8 implies (#[trigger] bit_set(e[out + k], i) <==> bit_set(
                d[a + k],
                i,
            ) || bit_set(d[b + k], i)) by {
                lemma_byte_op_bits(d[a + k], d[b + k], 0);
            }
        },
        MemoryMethod::XOR { a, b, out, len } => {
            lemma_range_bits(d, 2, a as int, b as int, out as int, 0, len as nat);
            assert forall|k: int, i: u32| 0 <= k < len && i < 8 implies (#[trigger] bit_set(e[out + k], i) <==> bit_set(
                d[a + k],
                i,
            ) != bit_set(d[b + k], i)) by {
                lemma_byte_op_bits(d[a + k], d[b + k], 0);
            }
        },
        MemoryMethod::NOT { a, out, len } => {
            lemma_range_bits(d, 3, a as int, a as int, out as int, 0, len as nat);
            assert forall|k: int, i: u32| 0 <= k < len && i < 8 implies (#[trigger] bit_set(e[out + k], i) <==> !bit_set(
                d[a + k],
                i,
            )) by {
                lemma_byte_op_bits(d[a + k], d[a + k], 0);
            }
        },
        MemoryMethod::LSH { a, out, amount, len } => {
            lemma_range_bits(d, 4, a as int, a as int, out as int, amount, len as nat);
            assert forall|k: int, i: u32| 0 <= k < len && i < 8 implies (#[trigger] bit_set(e[out + k], i) <==> i >= amount
                && bit_set(d[a + k], (i - amount) as u32)) by {
                lemma_byte_op_bits(d[a + k], d[a + k], amount);
            }
        },
        MemoryMethod::RSH { a, out, amount, len } => {
            lemma_range_bits(d, 5, a as int, a as int, out as int, amount, len as nat);
            assert forall|k: int, i: u32| 0 <= k < len && i < 8 implies (#[trigger] bit_set(e[out + k], i) <==> i + amount < 8
                && bit_set(d[a + k], (i + amount) as u32)) by {
                lemma_byte_op_bits(d[a + k], d[a + k], amount);
            }
        },
        _ => {},
    }
}

/// Whether two values are built with one variant, whatever they hold.
pub open spec fn same_variant(a: ValueView, b: ValueView) -> bool {
    match (a, b) {
        (ValueView::Empty, ValueView::Empty) => true,
        (ValueView::Int8(_), ValueView::Int8(_)) => true,
        (ValueView::Int16(_), ValueView::Int16(_)) => true,
        (ValueView::Int32(_), ValueView::Int32(_)) => true,
        (ValueView::Int64(_), ValueView::Int64(_)) => true,
        (ValueView::UInt8(_), ValueView::UInt8(_)) => true,
        (ValueView::UInt16(_), ValueView::UInt16(_)) => true,
        (ValueView::UInt32(_), ValueView::UInt32(_)) => true,
        (ValueView::UInt64(_), ValueView::UInt64(_)) => true,
        (ValueView::Float32(_), ValueView::Float32(_)) => true,
        (ValueView::Float64(_), ValueView::Float64(_)) => true,
        (ValueView::Text(_), ValueView::Text(_)) => true,
        (ValueView::Boolean(_), ValueView::Boolean(_)) => true,
        (ValueView::Dict(_), ValueView::Dict(_)) => true,
        (ValueView::List(_), ValueView::List(_)) => true,
        _ => false,
    }
}

/// Two values have one type exactly when they are built with one variant: no two variants
/// share a type.
pub proof fn lemma_type_is_variant(a: ValueView, b: ValueView)
    ensures
        type_of(a) == type_of(b) <==> same_variant(a, b),
{
}

/// The type of a value agrees with the tag that its bytes begin with: the type's code, as
/// `LOADTYPE` stores it, is the tag plus 99 (the tags run from 1 for `Empty` to 13 for
/// `Boolean`, the codes from 100). A dictionary has the type `Dict` and a list `Array`, the
/// two codes after `Boolean`'s.
pub proof fn lemma_type_matches_tag(v: ValueView)
    ensures
        !(v is Dict || v is List) ==> encode_value(v).len() > 0 && type_code(type_of(v)) == 99 + encode_value(v)[0],
        v is Dict ==> type_of(v) == RegisterType::Dict && type_code(type_of(v)) == 113,
        v is List ==> type_of(v) == RegisterType::Array && type_code(type_of(v)) == 114,
{
}

/// The calculation bytes of the bytecode: byte 0 adds, 1 subtracts the second operand from the
/// first and 2 multiplies, each wrapping round to the operands' type; bytes 3 and 5 divide and
/// take the remainder as `lemma_division` states; 4 raises to a power, 6 takes a square root
/// and 7 joins strings. Every method is written as a byte that reads back as that method.
pub proof fn lemma_calculation_bytes(byte: u8, a: ValueView, b: ValueView, m: CalculationMethod)
    requires
        byte <= 7,
    ensures
        same_int_type(a, b) && byte == 0 ==> wraps_to(calc_spec(calculation_of_byte(byte), a, b), a, int_value(a) + int_value(b)),
        same_int_type(a, b) && byte == 1 ==> wraps_to(calc_spec(calculation_of_byte(byte), a, b), a, int_value(a) - int_value(b)),
        same_int_type(a, b) && byte == 2 ==> wraps_to(calc_spec(calculation_of_byte(byte), a, b), a, int_value(a) * int_value(b)),
        byte == 3 <==> calculation_of_byte(byte) == CalculationMethod::DIVIDE,
        byte == 4 <==> calculation_of_byte(byte) == CalculationMethod::POWER,
        byte == 5 <==> calculation_of_byte(byte) == CalculationMethod::MODULO,
        byte == 6 <==> calculation_of_byte(byte) == CalculationMethod::SQRT,
        byte == 7 <==> calculation_of_byte(byte) == CalculationMethod::CONCAT,
        calculation_byte(m) <= 7,
        calculation_of_byte(calculation_byte(m)) == m,
{
    if same_int_type(a, b) {
        lemma_wrapping_arithmetic(a, b);
    }
}

/// Joining two strings gives the first followed by the second; `CONCAT` of anything else is a
/// fault.
pub proof fn lemma_concat(a: ValueView, b: ValueView)
    ensures
        (a is Text && b is Text) ==> ({
            let r = calc_spec(CalculationMethod::CONCAT, a, b);
            &&& r matches CalcView::Value(ValueView::Text(t))
            &&& t.len() == a->Text_0.len() + b->Text_0.len()
            &&& t.subrange(0, a->Text_0.len() as int) == a->Text_0
            &&& t.subrange(a->Text_0.len() as int, t.len() as int) == b->Text_0
        }),
        !(a is Text && b is Text) && !(a is Float32 && b is Float32) && !(a is Float64 && b is Float64) ==> calc_spec(
            CalculationMethod::CONCAT,
            a,
            b,
        ) == CalcView::Fault(Fault::IncompatibleTypes(CalculationMethod::CONCAT)),
{
    if a is Text && b is Text {
        let t = a->Text_0 + b->Text_0;
        assert(t.subrange(0, a->Text_0.len() as int) =~= a->Text_0);
        assert(t.subrange(a->Text_0.len() as int, t.len() as int) =~= b->Text_0);
    }
}

/// Powers of 64-bit integers: any number to the power 0 is 1, and where two successive
/// powers both fit, the higher one is the lower one times the base.
pub proof fn lemma_powers(x: i64, n: i64)
    requires
        0 <= n < 0xffff_ffff,
    ensures
        calc_spec(CalculationMethod::POWER, ValueView::Int64(x), ValueView::Int64(0)) == CalcView::Value(ValueView::Int64(1)),
        ({
            let lower = calc_spec(CalculationMethod::POWER, ValueView::Int64(x), ValueView::Int64(n));
            let higher = calc_spec(CalculationMethod::POWER, ValueView::Int64(x), ValueView::Int64((n + 1) as i64));
            lower is Value && higher is Value ==> int_value(higher->Value_0) == x * int_value(lower->Value_0)
        }),
{
    reveal(pow);
    assert((n + 1) as i64 as u32 == (n as u32) + 1);
    assert(pow(x as int, ((n as u32) + 1) as nat) == x * pow(x as int, (n as u32) as nat));
}

/// Dispatch precedence: a value pattern outranks a type pattern, which outranks the wildcard,
/// and the wildcard matches every argument.
pub proof fn lemma_precedence_order(v: ValueView, t: RegisterType, arg: ValueView)
    ensures
        precedence_of(PatternView::Value(v)) > precedence_of(PatternView::Type(t)),
        precedence_of(PatternView::Type(t)) > precedence_of(PatternView::Any),
        pattern_matches(PatternView::Any, arg),
        pattern_matches(PatternView::Type(t), arg) <==> type_of(arg) == t,
{
}

/// Whether bit `i` of an integer value is set (bit 0 is the lowest; signed values in two's
/// complement).
pub open spec fn int_bit(v: ValueView, i: u32) -> bool {
    match v {
        ValueView::Int8(x) => (x >> i) & 1i8 == 1i8,
        ValueView::Int16(x) => (x >> i) & 1i16 == 1i16,
        ValueView::Int32(x) => (x >> i) & 1i32 == 1i32,
        ValueView::Int64(x) => (x >> i) & 1i64 == 1i64,
        ValueView::UInt8(x) => (x >> i) & 1u8 == 1u8,
        ValueView::UInt16(x) => (x >> i) & 1u16 == 1u16,
        ValueView::UInt32(x) => (x >> i) & 1u32 == 1u32,
        ValueView::UInt64(x) => (x >> i) & 1u64 == 1u64,
        _ => false,
    }
}

/// The width in bits of an integer value's type.
pub open spec fn int_width(v: ValueView) -> u32 {
    match v {
        ValueView::Int8(_) => 8,
        ValueView::Int16(_) => 16,
        ValueView::Int32(_) => 32,
        ValueView::Int64(_) => 64,
        ValueView::UInt8(_) => 8,
        ValueView::UInt16(_) => 16,
        ValueView::UInt32(_) => 32,
        ValueView::UInt64(_) => 64,
        _ => 0,
    }
}

/// The bitwise operations on two integers of one type, bit by bit: `AND` (kind 0) sets a bit
/// where both operands have it, `OR` (1) where either has it, `XOR` (2) where exactly one has
/// it, and `NOT` where its operand lacks it; each gives an integer of the operands' type. On
/// booleans they are the logical operations.
pub proof fn lemma_register_bitwise(a: ValueView, b: ValueView)
    ensures
        same_int_type(a, b) ==> ({
            let and = bit_binary_spec(0, a, b);
            let or = bit_binary_spec(1, a, b);
            let xor = bit_binary_spec(2, a, b);
            let not = bit_not_spec(a);
            &&& and is Value && same_int_type(and->Value_0, a)
            &&& or is Value && same_int_type(or->Value_0, a)
            &&& xor is Value && same_int_type(xor->Value_0, a)
            &&& not is Value && same_int_type(not->Value_0, a)
            &&& forall|i: u32| i < int_width(a) ==> (#[trigger] int_bit(and->Value_0, i) <==> int_bit(a, i) && int_bit(b, i))
            &&& forall|i: u32| i < int_width(a) ==> (#[trigger] int_bit(or->Value_0, i) <==> int_bit(a, i) || int_bit(b, i))
            &&& forall|i: u32| i < int_width(a) ==> (#[trigger] int_bit(xor->Value_0, i) <==> int_bit(a, i) != int_bit(b, i))
            &&& forall|i: u32| i < int_width(a) ==> (#[trigger] int_bit(not->Value_0, i) <==> !int_bit(a, i))
        }),
        (a is Boolean && b is Boolean) ==> ({
            let p = a->Boolean_0;
            let q = b->Boolean_0;
            &&& bit_binary_spec(0, a, b) == CalcView::Value(ValueView::Boolean(p && q))
            &&& bit_binary_spec(1, a, b) == CalcView::Value(ValueView::Boolean(p || q))
            &&& bit_binary_spec(2, a, b) == CalcView::Value(ValueView::Boolean(p != q))
            &&& bit_not_spec(a) == CalcView::Value(ValueView::Boolean(!p))
        }),
{
    match (a, b) {
        (ValueView::Int8(x), ValueView::Int8(y)) => {
            assert forall|i: u32| i < 8 implies ({
                &&& ((x & y) >> i) & 1i8 == 1i8 <==> (x >> i) & 1i8 == 1i8 && (y >> i) & 1i8 == 1i8
                &&& ((x | y) >> i) & 1i8 == 1i8 <==> (x >> i) & 1i8 == 1i8 || (y >> i) & 1i8 == 1i8
                &&& ((x ^ y) >> i) & 1i8 == 1i8 <==> ((x >> i) & 1i8 == 1i8) != ((y >> i) & 1i8 == 1i8)
                &&& ((!x) >> i) & 1i8 == 1i8 <==> !((x >> i) & 1i8 == 1i8)
            }) by {
                assert({
                    &&& ((x & y) >> i) & 1i8 == 1i8 <==> (x >> i) & 1i8 == 1i8 && (y >> i) & 1i8 == 1i8
                    &&& ((x | y) >> i) & 1i8 == 1i8 <==> (x >> i) & 1i8 == 1i8 || (y >> i) & 1i8 == 1i8
                    &&& ((x ^ y) >> i) & 1i8 == 1i8 <==> ((x >> i) & 1i8 == 1i8) != ((y >> i) & 1i8 == 1i8)
                    &&& ((!x) >> i) & 1i8 == 1i8 <==> !((x >> i) & 1i8 == 1i8)
                }) by (bit_vector)
                    requires
                        i < 8,
                ;
            }
        },
        (ValueView::Int16(x), ValueView::Int16(y)) => {
            assert forall|i: u32| i < 16 implies ({
                &&& ((x & y) >> i) & 1i16 == 1i16 <==> (x >> i) & 1i16 == 1i16 && (y >> i) & 1i16 == 1i16
                &&& ((x | y) >> i) & 1i16 == 1i16 <==> (x >> i) & 1i16 == 1i16 || (y >> i) & 1i16 == 1i16
                &&& ((x ^ y) >> i) & 1i16 == 1i16 <==> ((x >> i) & 1i16 == 1i16) != ((y >> i) & 1i16 == 1i16)
                &&& ((!x) >> i) & 1i16 == 1i16 <==> !((x >> i) & 1i16 == 1i16)
            }) by {
                assert({
                    &&& ((x & y) >> i) & 1i16 == 1i16 <==> (x >> i) & 1i16 == 1i16 && (y >> i) & 1i16 == 1i16
                    &&& ((x | y) >> i) & 1i16 == 1i16 <==> (x >> i) & 1i16 == 1i16 || (y >> i) & 1i16 == 1i16
                    &&& ((x ^ y) >> i) & 1i16 == 1i16 <==> ((x >> i) & 1i16 == 1i16) != ((y >> i) & 1i16 == 1i16)
                    &&& ((!x) >> i) & 1i16 == 1i16 <==> !((x >> i) & 1i16 == 1i16)
                }) by (bit_vector)
                    requires
                        i < 16,
                ;
            }
        },
        (ValueView::Int32(x), ValueView::Int32(y)) => {
            assert forall|i: u32| i < 32 implies ({
                &&& ((x & y) >> i) & 1i32 == 1i32 <==> (x >> i) & 1i32 == 1i32 && (y >> i) & 1i32 == 1i32
                &&& ((x | y) >> i) & 1i32 == 1i32 <==> (x >> i) & 1i32 == 1i32 || (y >> i) & 1i32 == 1i32
                &&& ((x ^ y) >> i) & 1i32 == 1i32 <==> ((x >> i) & 1i32 == 1i32) != ((y >> i) & 1i32 == 1i32)
                &&& ((!x) >> i) & 1i32 == 1i32 <==> !((x >> i) & 1i32 == 1i32)
            }) by {
                assert({
                    &&& ((x & y) >> i) & 1i32 == 1i32 <==> (x >> i) & 1i32 == 1i32 && (y >> i) & 1i32 == 1i32
                    &&& ((x | y) >> i) & 1i32 == 1i32 <==> (x >> i) & 1i32 == 1i32 || (y >> i) & 1i32 == 1i32
                    &&& ((x ^ y) >> i) & 1i32 == 1i32 <==> ((x >> i) & 1i32 == 1i32) != ((y >> i) & 1i32 == 1i32)
                    &&& ((!x) >> i) & 1i32 == 1i32 <==> !((x >> i) & 1i32 == 1i32)
                }) by (bit_vector)
                    requires
                        i < 32,
                ;
            }
        },
        (ValueView::Int64(x), ValueView::Int64(y)) => {
            assert forall|i: u32| i < 64 implies ({
                &&& ((x & y) >> i) & 1i64 == 1i64 <==> (x >> i) & 1i64 == 1i64 && (y >> i) & 1i64 == 1i64
                &&& ((x | y) >> i) & 1i64 == 1i64 <==> (x >> i) & 1i64 == 1i64 || (y >> i) & 1i64 == 1i64
                &&& ((x ^ y) >> i) & 1i64 == 1i64 <==> ((x >> i) & 1i64 == 1i64) != ((y >> i) & 1i64 == 1i64)
                &&& ((!x) >> i) & 1i64 == 1i64 <==> !((x >> i) & 1i64 == 1i64)
            }) by {
                assert({
                    &&& ((x & y) >> i) & 1i64 == 1i64 <==> (x >> i) & 1i64 == 1i64 && (y >> i) & 1i64 == 1i64
                    &&& ((x | y) >> i) & 1i64 == 1i64 <==> (x >> i) & 1i64 == 1i64 || (y >> i) & 1i64 == 1i64
                    &&& ((x ^ y) >> i) & 1i64 == 1i64 <==> ((x >> i) & 1i64 == 1i64) != ((y >> i) & 1i64 == 1i64)
                    &&& ((!x) >> i) & 1i64 == 1i64 <==> !((x >> i) & 1i64 == 1i64)
                }) by (bit_vector)
                    requires
                        i < 64,
                ;
            }
        },
        (ValueView::UInt8(x), ValueView::UInt8(y)) => {
            assert forall|i: u32| i < 8 implies ({
                &&& ((x & y) >> i) & 1u8 == 1u8 <==> (x >> i) & 1u8 == 1u8 && (y >> i) & 1u8 == 1u8
                &&& ((x | y) >> i) & 1u8 == 1u8 <==> (x >> i) & 1u8 == 1u8 || (y >> i) & 1u8 == 1u8
                &&& ((x ^ y) >> i) & 1u8 == 1u8 <==> ((x >> i) & 1u8 == 1u8) != ((y >> i) & 1u8 == 1u8)
                &&& ((!x) >> i) & 1u8 == 1u8 <==> !((x >> i) & 1u8 == 1u8)
            }) by {
                assert({
                    &&& ((x & y) >> i) & 1u8 == 1u8 <==> (x >> i) & 1u8 == 1u8 && (y >> i) & 1u8 == 1u8
                    &&& ((x | y) >> i) & 1u8 == 1u8 <==> (x >> i) & 1u8 == 1u8 || (y >> i) & 1u8 == 1u8
                    &&& ((x ^ y) >> i) & 1u8 == 1u8 <==> ((x >> i) & 1u8 == 1u8) != ((y >> i) & 1u8 == 1u8)
                    &&& ((!x) >> i) & 1u8 == 1u8 <==> !((x >> i) & 1u8 == 1u8)
                }) by (bit_vector)
                    requires
                        i < 8,
                ;
            }
        },
        (ValueView::UInt16(x), ValueView::UInt16(y)) => {
            assert forall|i: u32| i < 16 implies ({
                &&& ((x & y) >> i) & 1u16 == 1u16 <==> (x >> i) & 1u16 == 1u16 && (y >> i) & 1u16 == 1u16
                &&& ((x | y) >> i) & 1u16 == 1u16 <==> (x >> i) & 1u16 == 1u16 || (y >> i) & 1u16 == 1u16
                &&& ((x ^ y) >> i) & 1u16 == 1u16 <==> ((x >> i) & 1u16 == 1u16) != ((y >> i) & 1u16 == 1u16)
                &&& ((!x) >> i) & 1u16 == 1u16 <==> !((x >> i) & 1u16 == 1u16)
            }) by {
                assert({
                    &&& ((x & y) >> i) & 1u16 == 1u16 <==> (x >> i) & 1u16 == 1u16 && (y >> i) & 1u16 == 1u16
                    &&& ((x | y) >> i) & 1u16 == 1u16 <==> (x >> i) & 1u16 == 1u16 || (y >> i) & 1u16 == 1u16
                    &&& ((x ^ y) >> i) & 1u16 == 1u16 <==> ((x >> i) & 1u16 == 1u16) != ((y >> i) & 1u16 == 1u16)
                    &&& ((!x) >> i) & 1u16 == 1u16 <==> !((x >> i) & 1u16 == 1u16)
                }) by (bit_vector)
                    requires
                        i < 16,
                ;
            }
        },
        (ValueView::UInt32(x), ValueView::UInt32(y)) => {
            assert forall|i: u32| i < 32 implies ({
                &&& ((x & y) >> i) & 1u32 == 1u32 <==> (x >> i) & 1u32 == 1u32 && (y >> i) & 1u32 == 1u32
                &&& ((x | y) >> i) & 1u32 == 1u32 <==> (x >> i) & 1u32 == 1u32 || (y >> i) & 1u32 == 1u32
                &&& ((x ^ y) >> i) & 1u32 == 1u32 <==> ((x >> i) & 1u32 == 1u32) != ((y >> i) & 1u32 == 1u32)
                &&& ((!x) >> i) & 1u32 == 1u32 <==> !((x >> i) & 1u32 == 1u32)
            }) by {
                assert({
                    &&& ((x & y) >> i) & 1u32 == 1u32 <==> (x >> i) & 1u32 == 1u32 && (y >> i) & 1u32 == 1u32
                    &&& ((x | y) >> i) & 1u32 == 1u32 <==> (x >> i) & 1u32 == 1u32 || (y >> i) & 1u32 == 1u32
                    &&& ((x ^ y) >> i) & 1u32 == 1u32 <==> ((x >> i) & 1u32 == 1u32) != ((y >> i) & 1u32 == 1u32)
                    &&& ((!x) >> i) & 1u32 == 1u32 <==> !((x >> i) & 1u32 == 1u32)
                }) by (bit_vector)
                    requires
                        i < 32,
                ;
            }
        },
        (ValueView::UInt64(x), ValueView::UInt64(y)) => {
            assert forall|i: u32| i < 64 implies ({
                &&& ((x & y) >> i) & 1u64 == 1u64 <==> (x >> i) & 1u64 == 1u64 && (y >> i) & 1u64 == 1u64
                &&& ((x | y) >> i) & 1u64 == 1u64 <==> (x >> i) & 1u64 == 1u64 || (y >> i) & 1u64 == 1u64
                &&& ((x ^ y) >> i) & 1u64 == 1u64 <==> ((x >> i) & 1u64 == 1u64) != ((y >> i) & 1u64 == 1u64)
                &&& ((!x) >> i) & 1u64 == 1u64 <==> !((x >> i) & 1u64 == 1u64)
            }) by {
                assert({
                    &&& ((x & y) >> i) & 1u64 == 1u64 <==> (x >> i) & 1u64 == 1u64 && (y >> i) & 1u64 == 1u64
                    &&& ((x | y) >> i) & 1u64 == 1u64 <==> (x >> i) & 1u64 == 1u64 || (y >> i) & 1u64 == 1u64
                    &&& ((x ^ y) >> i) & 1u64 == 1u64 <==> ((x >> i) & 1u64 == 1u64) != ((y >> i) & 1u64 == 1u64)
                    &&& ((!x) >> i) & 1u64 == 1u64 <==> !((x >> i) & 1u64 == 1u64)
                }) by (bit_vector)
                    requires
                        i < 64,
                ;
            }
        },
        _ => {},
    }
}

/// Shifts of an integer by `amount` bits: an amount of at least the type's width is a fault;
/// otherwise a left shift moves bit `i` up to bit `i + amount`, clearing the vacated bits and
/// losing those shifted out, and a right shift moves bit `i` down to `i - amount`, filling the
/// vacated top bits with the sign bit of a signed value and clearing them in an unsigned one.
pub proof fn lemma_register_shifts(a: ValueView, amount: u32)
    requires
        is_int(a),
    ensures
        amount >= int_width(a) ==> bit_shift_spec(true, a, amount) == CalcView::Fault(Fault::ShiftOverflow)
            && bit_shift_spec(false, a, amount) == CalcView::Fault(Fault::ShiftOverflow),
        amount < int_width(a) ==> ({
            let l = bit_shift_spec(true, a, amount);
            let r = bit_shift_spec(false, a, amount);
            &&& l is Value && same_int_type(l->Value_0, a)
            &&& r is Value && same_int_type(r->Value_0, a)
            &&& forall|i: u32|
                i < int_width(a) ==> (#[trigger] int_bit(l->Value_0, i) <==> i >= amount && int_bit(a, (i - amount) as u32))
            &&& forall|i: u32|
                i < int_width(a) ==> (#[trigger] int_bit(r->Value_0, i) <==> if i + amount < int_width(a) {
                    int_bit(a, (i + amount) as u32)
                } else {
                    int_signed(a) && int_bit(a, (int_width(a) - 1) as u32)
                })
        }),
{
    match a {
        ValueView::Int8(x) => if amount < 8 {
            assert forall|i: u32| i < 8 implies ({
                &&& ((x << amount) >> i) & 1i8 == 1i8 <==> i >= amount && (x >> ((i - amount) as u32)) & 1i8 == 1i8
                &&& ((x >> amount) >> i) & 1i8 == 1i8 <==> if i + amount < 8 {
                    (x >> ((i + amount) as u32)) & 1i8 == 1i8
                } else {
                    (x >> 7u32) & 1i8 == 1i8
                }
            }) by {
                assert({
                    &&& ((x << amount) >> i) & 1i8 == 1i8 <==> i >= amount && (x >> ((i - amount) as u32)) & 1i8 == 1i8
                    &&& ((x >> amount) >> i) & 1i8 == 1i8 <==> if i + amount < 8 {
                        (x >> ((i + amount) as u32)) & 1i8 == 1i8
                    } else {
                        (x >> 7u32) & 1i8 == 1i8
                    }
                }) by (bit_vector)
                    requires
                        i < 8,
                        amount < 8,
                ;
            }
        },
        ValueView::Int16(x) => if amount < 16 {
            assert forall|i: u32| i < 16 implies ({
                &&& ((x << amount) >> i) & 1i16 == 1i16 <==> i >= amount && (x >> ((i - amount) as u32)) & 1i16 == 1i16
                &&& ((x >> amount) >> i) & 1i16 == 1i16 <==> if i + amount < 16 {
                    (x >> ((i + amount) as u32)) & 1i16 == 1i16
                } else {
                    (x >> 15u32) & 1i16 == 1i16
                }
            }) by {
                assert({
                    &&& ((x << amount) >> i) & 1i16 == 1i16 <==> i >= amount && (x >> ((i - amount) as u32)) & 1i16 == 1i16
                    &&& ((x >> amount) >> i) & 1i16 == 1i16 <==> if i + amount < 16 {
                        (x >> ((i + amount) as u32)) & 1i16 == 1i16
                    } else {
                        (x >> 15u32) & 1i16 == 1i16
                    }
                }) by (bit_vector)
                    requires
                        i < 16,
                        amount < 16,
                ;
            }
        },
        ValueView::Int32(x) => if amount < 32 {
            assert forall|i: u32| i < 32 implies ({
                &&& ((x << amount) >> i) & 1i32 == 1i32 <==> i >= amount && (x >> ((i - amount) as u32)) & 1i32 == 1i32
                &&& ((x >> amount) >> i) & 1i32 == 1i32 <==> if i + amount < 32 {
                    (x >> ((i + amount) as u32)) & 1i32 == 1i32
                } else {
                    (x >> 31u32) & 1i32 == 1i32
                }
            }) by {
                assert({
                    &&& ((x << amount) >> i) & 1i32 == 1i32 <==> i >= amount && (x >> ((i - amount) as u32)) & 1i32 == 1i32
                    &&& ((x >> amount) >> i) & 1i32 == 1i32 <==> if i + amount < 32 {
                        (x >> ((i + amount) as u32)) & 1i32 == 1i32
                    } else {
                        (x >> 31u32) & 1i32 == 1i32
                    }
                }) by (bit_vector)
                    requires
                        i < 32,
                        amount < 32,
                ;
            }
        },
        ValueView::Int64(x) => if amount < 64 {
            assert forall|i: u32| i < 64 implies ({
                &&& ((x << amount) >> i) & 1i64 == 1i64 <==> i >= amount && (x >> ((i - amount) as u32)) & 1i64 == 1i64
                &&& ((x >> amount) >> i) & 1i64 == 1i64 <==> if i + amount < 64 {
                    (x >> ((i + amount) as u32)) & 1i64 == 1i64
                } else {
                    (x >> 63u32) & 1i64 == 1i64
                }
            }) by {
                assert({
                    &&& ((x << amount) >> i) & 1i64 == 1i64 <==> i >= amount && (x >> ((i - amount) as u32)) & 1i64 == 1i64
                    &&& ((x >> amount) >> i) & 1i64 == 1i64 <==> if i + amount < 64 {
                        (x >> ((i + amount) as u32)) & 1i64 == 1i64
                    } else {
                        (x >> 63u32) & 1i64 == 1i64
                    }
                }) by (bit_vector)
                    requires
                        i < 64,
                        amount < 64,
                ;
            }
        },
        ValueView::UInt8(x) => if amount < 8 {
            assert forall|i: u32| i < 8 implies ({
                &&& ((x << amount) >> i) & 1u8 == 1u8 <==> i >= amount && (x >> ((i - amount) as u32)) & 1u8 == 1u8
                &&& ((x >> amount) >> i) & 1u8 == 1u8 <==> if i + amount < 8 {
                    (x >> ((i + amount) as u32)) & 1u8 == 1u8
                } else {
                    false
                }
            }) by {
                assert({
                    &&& ((x << amount) >> i) & 1u8 == 1u8 <==> i >= amount && (x >> ((i - amount) as u32)) & 1u8 == 1u8
                    &&& ((x >> amount) >> i) & 1u8 == 1u8 <==> if i + amount < 8 {
                        (x >> ((i + amount) as u32)) & 1u8 == 1u8
                    } else {
                        false
                    }
                }) by (bit_vector)
                    requires
                        i < 8,
                        amount < 8,
                ;
            }
        },
        ValueView::UInt16(x) => if amount < 16 {
            assert forall|i: u32| i < 16 implies ({
                &&& ((x << amount) >> i) & 1u16 == 1u16 <==> i >= amount && (x >> ((i - amount) as u32)) & 1u16 == 1u16
                &&& ((x >> amount) >> i) & 1u16 == 1u16 <==> if i + amount < 16 {
                    (x >> ((i + amount) as u32)) & 1u16 == 1u16
                } else {
                    false
                }
            }) by {
                assert({
                    &&& ((x << amount) >> i) & 1u16 == 1u16 <==> i >= amount && (x >> ((i - amount) as u32)) & 1u16 == 1u16
                    &&& ((x >> amount) >> i) & 1u16 == 1u16 <==> if i + amount < 16 {
                        (x >> ((i + amount) as u32)) & 1u16 == 1u16
                    } else {
                        false
                    }
                }) by (bit_vector)
                    requires
                        i < 16,
                        amount < 16,
                ;
            }
        },
        ValueView::UInt32(x) => if amount < 32 {
            assert forall|i: u32| i < 32 implies ({
                &&& ((x << amount) >> i) & 1u32 == 1u32 <==> i >= amount && (x >> ((i - amount) as u32)) & 1u32 == 1u32
                &&& ((x >> amount) >> i) & 1u32 == 1u32 <==> if i + amount < 32 {
                    (x >> ((i + amount) as u32)) & 1u32 == 1u32
                } else {
                    false
                }
            }) by {
                assert({
                    &&& ((x << amount) >> i) & 1u32 == 1u32 <==> i >= amount && (x >> ((i - amount) as u32)) & 1u32 == 1u32
                    &&& ((x >> amount) >> i) & 1u32 == 1u32 <==> if i + amount < 32 {
                        (x >> ((i + amount) as u32)) & 1u32 == 1u32
                    } else {
                        false
                    }
                }) by (bit_vector)
                    requires
                        i < 32,
                        amount < 32,
                ;
            }
        },
        ValueView::UInt64(x) => if amount < 64 {
            assert forall|i: u32| i < 64 implies ({
                &&& ((x << amount) >> i) & 1u64 == 1u64 <==> i >= amount && (x >> ((i - amount) as u32)) & 1u64 == 1u64
                &&& ((x >> amount) >> i) & 1u64 == 1u64 <==> if i + amount < 64 {
                    (x >> ((i + amount) as u32)) & 1u64 == 1u64
                } else {
                    false
                }
            }) by {
                assert({
                    &&& ((x << amount) >> i) & 1u64 == 1u64 <==> i >= amount && (x >> ((i - amount) as u32)) & 1u64 == 1u64
                    &&& ((x >> amount) >> i) & 1u64 == 1u64 <==> if i + amount < 64 {
                        (x >> ((i + amount) as u32)) & 1u64 == 1u64
                    } else {
                        false
                    }
                }) by (bit_vector)
                    requires
                        i < 64,
                        amount < 64,
                ;
            }
        },
        _ => {},
    }
}

/// Growing, shrinking and writing the byte memory (amounts taken as `usize`): growing by `n`
/// appends `n` zero bytes;
/// shrinking by `n` fails exactly when the memory holds fewer than `n` bytes and otherwise
/// drops the last `n`; setting or unsetting a byte changes that byte alone, to the value or
/// to zero; writing a run of bytes puts them at the address and keeps every other byte.
pub proof fn lemma_memory_writes(d: Seq<u8>, m: MemoryMethod)
    requires
        can_compute(d.len() as int, m),
        !is_bitwise(m),
    ensures
        compute_fails(d, m) <==> (m matches MemoryMethod::SHRINK { amount } && (amount as usize) > d.len()),
        m matches MemoryMethod::GROW { amount } ==> ({
            let e = compute_effect(d, m);
            &&& e.len() == d.len() + (amount as usize)
            &&& forall|p: int| 0 <= p < d.len() ==> #[trigger] e[p] == d[p]
            &&& forall|p: int| d.len() <= p < e.len() ==> #[trigger] e[p] == 0
        }),
        m matches MemoryMethod::SHRINK { amount } ==> (amount as usize) <= d.len() ==> ({
            let e = compute_effect(d, m);
            &&& e.len() == d.len() - (amount as usize)
            &&& forall|p: int| 0 <= p < e.len() ==> #[trigger] e[p] == d[p]
        }),
        m matches MemoryMethod::SET { address, value } ==> ({
            let e = compute_effect(d, m);
            &&& e.len() == d.len()
            &&& e[address as int] == value
            &&& forall|p: int| 0 <= p < d.len() && p != address ==> #[trigger] e[p] == d[p]
        }),
        m matches MemoryMethod::UNSET { address } ==> ({
            let e = compute_effect(d, m);
            &&& e.len() == d.len()
            &&& e[address as int] == 0
            &&& forall|p: int| 0 <= p < d.len() && p != address ==> #[trigger] e[p] == d[p]
        }),
        m matches MemoryMethod::SET_RANGE { address, values } ==> ({
            let e = compute_effect(d, m);
            &&& e.len() == d.len()
            &&& forall|k: int| 0 <= k < values.len() ==> #[trigger] e[address + k] == values@[k]
            &&& forall|p: int| 0 <= p < d.len() && !(address <= p < address + values.len()) ==> #[trigger] e[p] == d[p]
        }),
{
    match m {
        MemoryMethod::SET_RANGE { address, values } => {
            let e = compute_effect(d, m);
            assert forall|k: int| 0 <= k < values.len() implies #[trigger] e[address + k] == values@[k] by {}
            assert forall|p: int| 0 <= p < d.len() && !(address <= p < address + values.len()) implies #[trigger] e[p]
                == d[p] by {
                if p >= address + values.len() {
                    assert(e[p] == d.subrange(address + values.len(), d.len() as int)[p - address - values.len()]);
                }
            }
        },
        _ => {},
    }
}

/// The number of an instruction in the instruction set, as the bytecode's opcode byte gives
/// it: `HALT` 0, `LOAD` 1, `MOVE` 2, `COPY` 3, `CALCULATE` 4, `COMPARE` 5, `BITWISE` 6, `JUMP` 7,
/// `JUMPC` 8, `INTERRUPT` 9, `CALL` 10, `RETURN` 11, `PUSH` 12, `APPEND` 13, `STOREL` 14,
/// `LOADL` 15, `DISPATCH` 16; the instructions that bytecode does not hold have none.
pub open spec fn instruction_number(ins: InstrView) -> Option<u8> {
    match ins {
        InstrView::Halt => Some(0),
        InstrView::Load { .. } => Some(1),
        InstrView::Move { .. } => Some(2),
        InstrView::Copy { .. } => Some(3),
        InstrView::Calculate { .. } => Some(4),
        InstrView::Compare { .. } => Some(5),
        InstrView::Bitwise { .. } => Some(6),
        InstrView::Jump { .. } => Some(7),
        InstrView::JumpC { .. } => Some(8),
        InstrView::Interrupt { .. } => Some(9),
        InstrView::Call { .. } => Some(10),
        InstrView::Return => Some(11),
        InstrView::Push { .. } => Some(12),
        InstrView::Append { .. } => Some(13),
        InstrView::StoreLocal { .. } => Some(14),
        InstrView::LoadLocal { .. } => Some(15),
        InstrView::Dispatch { .. } => Some(16),
        _ => None,
    }
}

/// Decoding reads the opcode byte by the instruction set: an instruction decoded at a
/// position is the one whose number the byte there gives; a byte from 17 up is an invalid
/// opcode, reported as 17; a `RETURN` byte is the whole instruction; and the method of a
/// decoded calculation or comparison is the one its method byte, right after the opcode,
/// names.
pub proof fn lemma_opcode_bytes(b: Seq<u8>, i: int)
    requires
        0 <= i < b.len(),
    ensures
        parse_at(b, i) matches Step::Done(ins, _) ==> instruction_number(ins) == Some(b[i]),
        b[i] >= 17 ==> parse_at(b, i) == Step::<InstrView>::Fail(ParseErrorView::InvalidOpcode(17), i + 1),
        b[i] == 11 ==> parse_at(b, i) == Step::Done(InstrView::Return, i + 1),
        parse_at(b, i) matches Step::Done(InstrView::Calculate { method, .. }, _) ==> i + 1 < b.len()
            && method == calculation_of_byte(b[i + 1]),
        parse_at(b, i) matches Step::Done(InstrView::Compare { method, .. }, _) ==> i + 1 < b.len()
            && method == comparison_of_byte(b[i + 1]) && b[i + 1] <= 5,
{
    reveal(parse_at);
}

/// Decoding the operation byte of `BITWISE` and `INTERRUPT`: after a `BITWISE` opcode byte 0
/// names `AND`, 1 `OR`, 2 `XOR`, 3 `NOT`, 4 a left and 5 a right shift; after an
/// `INTERRUPT` opcode byte 0 asks to print a register, 1 to read one and 2 to panic.
pub proof fn lemma_operation_bytes(b: Seq<u8>, i: int)
    requires
        0 <= i < b.len(),
    ensures
        parse_at(b, i) matches Step::Done(InstrView::Bitwise { method }, _) ==> i + 1 < b.len() && b[i + 1] <= 5
            && (b[i + 1] == 0 <==> method is AND) && (b[i + 1] == 1 <==> method is OR) && (b[i + 1] == 2 <==> method is XOR)
            && (b[i + 1] == 3 <==> method is NOT) && (b[i + 1] == 4 <==> method is LSH) && (b[i + 1] == 5 <==> method is RSH),
        parse_at(b, i) matches Step::Done(InstrView::Interrupt { kind, .. }, _) ==> i + 1 < b.len() && b[i + 1] <= 2
            && (b[i + 1] == 0 <==> kind is Print) && (b[i + 1] == 1 <==> kind is Read) && (b[i + 1] == 2 <==> kind is Panic),
{
    reveal(parse_at);
}

/// What a bitwise instruction computes from its operand registers: `AND`, `OR` and `XOR` the
/// bitwise conjunction, disjunction and exclusive or of the two operands (as
/// `lemma_register_bitwise` states them), `NOT` the complement, and the shifts the operand
/// shifted left or right (as `lemma_register_shifts` states them), each written to the
/// output register.
pub proof fn lemma_bitwise_instruction(m: BitwiseView, regs: Map<Seq<char>, ValueView>)
    ensures
        m matches BitwiseView::AND { a, b, out } ==> (lookup(regs, a) is Some && lookup(regs, b) is Some
            ==> bitwise_result(m, regs) == Some((out, bit_binary_spec(0, lookup(regs, a)->0, lookup(regs, b)->0)))),
        m matches BitwiseView::OR { a, b, out } ==> (lookup(regs, a) is Some && lookup(regs, b) is Some
            ==> bitwise_result(m, regs) == Some((out, bit_binary_spec(1, lookup(regs, a)->0, lookup(regs, b)->0)))),
        m matches BitwiseView::XOR { a, b, out } ==> (lookup(regs, a) is Some && lookup(regs, b) is Some
            ==> bitwise_result(m, regs) == Some((out, bit_binary_spec(2, lookup(regs, a)->0, lookup(regs, b)->0)))),
        m matches BitwiseView::NOT { a, out } ==> (lookup(regs, a) is Some ==> bitwise_result(m, regs) == Some(
            (out, bit_not_spec(lookup(regs, a)->0)),
        )),
        m matches BitwiseView::LSH { a, out, amount } ==> (lookup(regs, a) is Some ==> bitwise_result(m, regs) == Some(
            (out, bit_shift_spec(true, lookup(regs, a)->0, amount)),
        )),
        m matches BitwiseView::RSH { a, out, amount } ==> (lookup(regs, a) is Some ==> bitwise_result(m, regs) == Some(
            (out, bit_shift_spec(false, lookup(regs, a)->0, amount)),
        )),
{
}

/// What the register instructions do to the registers and the program counter.
/// `CALCULATE` writes to its destination what the calculation makes of the first and the
/// second operand register, in that order; `COMPARE` writes whether the comparison holds of
/// them, in that order; `COPY` writes the source's value to the destination and keeps the
/// source; `MOVE` does the same and empties the source; `LOAD` writes its value; `JUMP`
/// moves the program counter to its destination, and `JUMPC` does so exactly when its
/// condition register holds `false`, going on past it otherwise.
pub proof fn lemma_register_instructions(s: MachineView, ins: InstrView)
    ensures
        ins matches InstrView::Calculate { method, operand1, operand2, destination } ==> (lookup(s.registers, operand1) is Some
            && lookup(s.registers, operand2) is Some && calc_spec(method, lookup(s.registers, operand1)->0, lookup(s.registers, operand2)->0) is Value
            ==> apply(ins, s).1 == Ok::<OutcomeView, crate::types::error::ErrorView>(OutcomeView::Continue) && apply(ins, s).0.registers
            == s.registers.insert(destination, calc_spec(method, lookup(s.registers, operand1)->0, lookup(s.registers, operand2)->0)->Value_0)),
        ins matches InstrView::Compare { method, operand1, operand2, destination } ==> (lookup(s.registers, operand1) is Some
            && lookup(s.registers, operand2) is Some && compare_spec(method, lookup(s.registers, operand1)->0, lookup(s.registers, operand2)->0) is Value
            ==> apply(ins, s).1 == Ok::<OutcomeView, crate::types::error::ErrorView>(OutcomeView::Continue) && apply(ins, s).0.registers
            == s.registers.insert(destination, ValueView::Boolean(compare_spec(method, lookup(s.registers, operand1)->0, lookup(s.registers, operand2)->0)->Value_0))),
        ins matches InstrView::Copy { source, destination } ==> (lookup(s.registers, source) is Some ==> apply(ins, s).0.registers
            == s.registers.insert(destination, lookup(s.registers, source)->0)),
        ins matches InstrView::Move { source, destination } ==> (lookup(s.registers, source) is Some && source != destination
            ==> lookup(apply(ins, s).0.registers, destination) == lookup(s.registers, source)
            && lookup(apply(ins, s).0.registers, source) == Some(ValueView::Empty)),
        ins matches InstrView::Load { value, register } ==> apply(ins, s).0.registers == s.registers.insert(register, value),
        ins matches InstrView::Jump { destination } ==> apply(ins, s).0.index == destination,
        ins matches InstrView::JumpC { destination, conditional_address } ==> (apply(ins, s).0.index == if lookup(
            s.registers,
            conditional_address,
        ) == Some(ValueView::Boolean(false)) {
            destination as usize
        } else {
            s.index
        }),
{
}

/// Equality of floating-point values goes by IEEE-754: a NaN (all exponent bits set and a
/// fraction that is not zero) equals nothing, not even itself; positive and negative zero are
/// equal; any other two values are equal exactly when their bit patterns are. Values of
/// different types are never equal, and strings are equal exactly when they hold the same
/// characters.
pub proof fn lemma_value_equality(a: ValueView, b: ValueView)
    ensures
        a matches ValueView::Float32(x) ==> (b matches ValueView::Float32(y) ==> (value_eq(a, b) <==> {
            let nan_x = (x & 0x7f80_0000u32) == 0x7f80_0000u32 && (x & 0x007f_ffffu32) != 0;
            let nan_y = (y & 0x7f80_0000u32) == 0x7f80_0000u32 && (y & 0x007f_ffffu32) != 0;
            let zero_x = x == 0 || x == 0x8000_0000u32;
            let zero_y = y == 0 || y == 0x8000_0000u32;
            !nan_x && !nan_y && (x == y || (zero_x && zero_y))
        })),
        a matches ValueView::Float64(x) ==> (b matches ValueView::Float64(y) ==> (value_eq(a, b) <==> {
            let nan_x = (x & 0x7ff0_0000_0000_0000u64) == 0x7ff0_0000_0000_0000u64 && (x & 0x000f_ffff_ffff_ffffu64) != 0;
            let nan_y = (y & 0x7ff0_0000_0000_0000u64) == 0x7ff0_0000_0000_0000u64 && (y & 0x000f_ffff_ffff_ffffu64) != 0;
            let zero_x = x == 0 || x == 0x8000_0000_0000_0000u64;
            let zero_y = y == 0 || y == 0x8000_0000_0000_0000u64;
            !nan_x && !nan_y && (x == y || (zero_x && zero_y))
        })),
        !same_variant(a, b) ==> !value_eq(a, b),
        a matches ValueView::Text(x) ==> (b matches ValueView::Text(y) ==> (value_eq(a, b) <==> x == y)),
{
    if let ValueView::Float32(x) = a {
        assert((x & 0x7fff_ffffu32) == 0 <==> (x == 0 || x == 0x8000_0000u32)) by (bit_vector);
    }
    if let ValueView::Float32(y) = b {
        assert((y & 0x7fff_ffffu32) == 0 <==> (y == 0 || y == 0x8000_0000u32)) by (bit_vector);
    }
    if let ValueView::Float64(x) = a {
        assert((x & 0x7fff_ffff_ffff_ffffu64) == 0 <==> (x == 0 || x == 0x8000_0000_0000_0000u64)) by (bit_vector);
    }
    if let ValueView::Float64(y) = b {
        assert((y & 0x7fff_ffff_ffff_ffffu64) == 0 <==> (y == 0 || y == 0x8000_0000_0000_0000u64)) by (bit_vector);
    }
}

/// Whether `a` comes before `b` in dictionary order: `a` is a proper prefix of `b`, or at the
/// first position where they differ `a` has the smaller byte.
pub open spec fn dictionary_before(a: Seq<u8>, b: Seq<u8>) -> bool {
    ||| (a.len() < b.len() && a == b.subrange(0, a.len() as int))
    ||| exists|k: int|
        #![trigger a[k], b[k]]
        0 <= k < a.len() && k < b.len() && a.subrange(0, k) == b.subrange(0, k) && a[k] < b[k]
}

/// The order of strings is dictionary order on their UTF-8 bytes.
pub proof fn lemma_string_order(a: Seq<u8>, b: Seq<u8>)
    ensures
        lex_lt(a, b) <==> dictionary_before(a, b),
    decreases a.len(),
{
    if b.len() == 0 {
    } else if a.len() == 0 {
        assert(a =~= b.subrange(0, 0));
    } else if a[0] < b[0] {
        assert(a.subrange(0, 0) =~= b.subrange(0, 0));
    } else if a[0] > b[0] {
        if a.len() < b.len() && a == b.subrange(0, a.len() as int) {
            assert(a[0] == b.subrange(0, a.len() as int)[0]);
        }
        if exists|k: int|
            #![trigger a[k], b[k]]
            0 <= k < a.len() && k < b.len() && a.subrange(0, k) == b.subrange(0, k) && a[k] < b[k] {
            let k = choose|k: int|
                #![trigger a[k], b[k]]
                0 <= k < a.len() && k < b.len() && a.subrange(0, k) == b.subrange(0, k) && a[k] < b[k];
            if k > 0 {
                assert(a[0] == a.subrange(0, k)[0]);
                assert(b[0] == b.subrange(0, k)[0]);
            }
        }
    } else {
        let a1 = a.drop_first();
        let b1 = b.drop_first();
        lemma_string_order(a1, b1);
        if a.len() < b.len() && a == b.subrange(0, a.len() as int) {
            assert(a1 =~= b1.subrange(0, a1.len() as int));
        }
        if a1.len() < b1.len() && a1 == b1.subrange(0, a1.len() as int) {
            assert(a =~= b.subrange(0, a.len() as int)) by {
                assert forall|j: int| 0 <= j < a.len() implies a[j] == b.subrange(0, a.len() as int)[j] by {
                    if j > 0 {
                        assert(a[j] == a1[j - 1]);
                        assert(b[j] == b1[j - 1]);
                        assert(a1[j - 1] == b1.subrange(0, a1.len() as int)[j - 1]);
                    }
                }
            }
        }
        if exists|k: int|
            #![trigger a[k], b[k]]
            0 <= k < a.len() && k < b.len() && a.subrange(0, k) == b.subrange(0, k) && a[k] < b[k] {
            let k = choose|k: int|
                #![trigger a[k], b[k]]
                0 <= k < a.len() && k < b.len() && a.subrange(0, k) == b.subrange(0, k) && a[k] < b[k];
            assert(k > 0);
            assert(a1.subrange(0, k - 1) =~= a.subrange(0, k).drop_first());
            assert(b1.subrange(0, k - 1) =~= b.subrange(0, k).drop_first());
            assert(a1[k - 1] == a[k] && b1[k - 1] == b[k]);
        }
        if exists|k: int|
            #![trigger a1[k], b1[k]]
            0 <= k < a1.len() && k < b1.len() && a1.subrange(0, k) == b1.subrange(0, k) && a1[k] < b1[k] {
            let k = choose|k: int|
                #![trigger a1[k], b1[k]]
                0 <= k < a1.len() && k < b1.len() && a1.subrange(0, k) == b1.subrange(0, k) && a1[k] < b1[k];
            assert(a.subrange(0, k + 1) =~= seq![a[0]] + a1.subrange(0, k));
            assert(b.subrange(0, k + 1) =~= seq![b[0]] + b1.subrange(0, k));
            assert(a[k + 1] == a1[k] && b[k + 1] == b1[k]);
        }
    }
}

/// Strings compare in dictionary order of their UTF-8 bytes: one is less than another exactly
/// when its bytes come first, and greater exactly when the other's do.
pub proof fn lemma_string_comparisons(x: Seq<char>, y: Seq<char>)
    ensures
        compare_spec(ComparisonMethod::LT, ValueView::Text(x), ValueView::Text(y)) == CmpView::Value(
            dictionary_before(encode_utf8(x), encode_utf8(y)),
        ),
        compare_spec(ComparisonMethod::GT, ValueView::Text(x), ValueView::Text(y)) == CmpView::Value(
            dictionary_before(encode_utf8(y), encode_utf8(x)),
        ),
{
    lemma_string_order(encode_utf8(x), encode_utf8(y));
    lemma_string_order(encode_utf8(y), encode_utf8(x));
    lemma_comparisons_agree(ValueView::Text(x), ValueView::Text(y));
    if x == y {
        lemma_lex_irreflexive(encode_utf8(x));
    }
}

/// Numbers are read from bytecode least significant byte first: each byte counts 256 times
/// the one before it.
pub proof fn lemma_little_endian(s: Seq<u8>)
    ensures
        s.len() >= 2 ==> le_u16(s) == s[0] + 0x100 * s[1],
        s.len() >= 4 ==> le_u32(s) == s[0] + 0x100 * s[1] + 0x1_0000 * s[2] + 0x100_0000 * s[3],
        s.len() >= 8 ==> le_u64(s) == s[0] + 0x100 * s[1] + 0x1_0000 * s[2] + 0x100_0000 * s[3] + 0x1_0000_0000 * s[4]
            + 0x100_0000_0000 * s[5] + 0x1_0000_0000_0000 * s[6] + 0x100_0000_0000_0000 * s[7],
{
    if s.len() >= 2 {
        let (a, b) = (s[0], s[1]);
        assert((a as u16) | ((b as u16) << 8u16) == a + 0x100 * b) by (bit_vector);
    }
    if s.len() >= 4 {
        let (a, b, c, d) = (s[0], s[1], s[2], s[3]);
        assert((a as u32) | ((b as u32) << 8u32) | ((c as u32) << 16u32) | ((d as u32) << 24u32) == a + 0x100 * b
            + 0x1_0000 * c + 0x100_0000 * d) by (bit_vector);
    }
    if s.len() >= 8 {
        let (a, b, c, d, e, f, g, h) = (s[0], s[1], s[2], s[3], s[4], s[5], s[6], s[7]);
        assert((a as u64) | ((b as u64) << 8u64) | ((c as u64) << 16u64) | ((d as u64) << 24u64) | ((e as u64) << 32u64)
            | ((f as u64) << 40u64) | ((g as u64) << 48u64) | ((h as u64) << 56u64) == a + 0x100 * b + 0x1_0000 * c
            + 0x100_0000 * d + 0x1_0000_0000 * e + 0x100_0000_0000 * f + 0x1_0000_0000_0000 * g + 0x100_0000_0000_0000
            * h) by (bit_vector);
    }
}

} // verus!
