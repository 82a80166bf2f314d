//! Decoding the bytecode of an instruction gives the instruction back.
use vstd::prelude::*;
use vstd::utf8::{decode_utf8, encode_utf8, encode_utf8_decode_utf8, encode_utf8_valid_utf8, valid_utf8};

use crate::machine::bytecode::decode::{
    p_byte, p_bytes, p_raw, p_string, p_two_strings, p_three, p_u32, p_values, parse_at, Step,
};
use crate::machine::bytecode::encode::{
    bitwise_bytes, encode_instruction, name_field, operand_bytes, value_field, values_field,
};
use crate::machine::endian::{le_u32, lemma_u32_roundtrip, u32_bytes};
use crate::machine::instruction::{
    calculation_byte, calculation_of_byte, comparison_byte, comparison_of_byte, interrupt_kind_byte,
    interrupt_kind_of_byte, opcode_of, BitwiseView, CalculationMethod, ComparisonMethod, InstrView,
    InterruptKind,
};
use crate::machine::opcode::{byte_of_opcode, lemma_opcode_byte_roundtrip, opcode_of_byte, Opcode};
use crate::machine::register::{decode_value, encode_value, lemma_value_roundtrip, value_roundtrips, ValueView};

verus! {

/// A name whose UTF-8 length fits in its length byte.
pub open spec fn name_fits(s: Seq<char>) -> bool {
    encode_utf8(s).len() < 256
}

/// A value that reads back from its encoding and whose encoding fits in its length byte.
pub open spec fn value_fits(v: ValueView) -> bool {
    value_roundtrips(v) && encode_value(v).len() < 256
}

/// The instructions whose bytecode decodes to themselves: every real instruction but
/// `NOT` (decoded without operands), `CALL`, `STOREL`, `LOADL`, `LOADTYPE` and
/// `DISPATCH` (encoded without operands), with names and values that fit in their length
/// bytes, values that read back, and shift amounts below 256.
pub open spec fn transcodes(i: InstrView) -> bool {
    match i {
        InstrView::Halt => true,
        InstrView::Load { value, register } => name_fits(register) && value_fits(value),
        InstrView::Move { source, destination } => name_fits(source) && name_fits(destination),
        InstrView::Copy { source, destination } => name_fits(source) && name_fits(destination),
        InstrView::Push { value, destination } => name_fits(destination) && value_fits(value),
        InstrView::Append { value, destination } => name_fits(destination) && forall|k: int|
            0 <= k < value.len() ==> #[trigger] value_fits(value[k]),
        InstrView::Calculate { operand1, operand2, destination, .. } => name_fits(operand1) && name_fits(
            operand2,
        ) && name_fits(destination),
        InstrView::Compare { operand1, operand2, destination, .. } => name_fits(operand1) && name_fits(
            operand2,
        ) && name_fits(destination),
        InstrView::Bitwise { method } => match method {
            BitwiseView::AND { a, b, out } => name_fits(a) && name_fits(b) && name_fits(out),
            BitwiseView::OR { a, b, out } => name_fits(a) && name_fits(b) && name_fits(out),
            BitwiseView::XOR { a, b, out } => name_fits(a) && name_fits(b) && name_fits(out),
            BitwiseView::NOT { .. } => false,
            BitwiseView::LSH { a, out, amount } => name_fits(a) && name_fits(out) && amount < 256,
            BitwiseView::RSH { a, out, amount } => name_fits(a) && name_fits(out) && amount < 256,
        },
        InstrView::Jump { .. } => true,
        InstrView::JumpC { conditional_address, .. } => name_fits(conditional_address),
        InstrView::Interrupt { address, .. } => name_fits(address),
        InstrView::Return => true,
        _ => false,
    }
}

/// `b` holds `piece` at position `i`.
pub open spec fn holds_at(b: Seq<u8>, i: int, piece: Seq<u8>) -> bool {
    0 <= i && i + piece.len() <= b.len() && b.subrange(i, i + piece.len()) == piece
}

proof fn lemma_holds_split(b: Seq<u8>, i: int, x: Seq<u8>, y: Seq<u8>)
    requires
        holds_at(b, i, x + y),
    ensures
        holds_at(b, i, x),
        holds_at(b, i + x.len(), y),
{
    let whole = b.subrange(i, i + x.len() + y.len());
    assert(whole == x + y);
    assert forall|k: int| 0 <= k < x.len() implies #[trigger] b.subrange(i, i + x.len())[k] == x[k] by {
        assert(whole[k] == (x + y)[k]);
    }
    assert(b.subrange(i, i + x.len()) =~= x);
    assert forall|k: int| 0 <= k < y.len() implies #[trigger] b.subrange(i + x.len(), i + x.len() + y.len())[k]
        == y[k] by {
        assert(whole[x.len() + k] == (x + y)[x.len() + k]);
    }
    assert(b.subrange(i + x.len(), i + x.len() + y.len()) =~= y);
}

proof fn lemma_name_at(b: Seq<u8>, i: int, s: Seq<char>)
    requires
        holds_at(b, i, name_field(s)),
        name_fits(s),
    ensures
        p_raw(b, i) == Step::Done(encode_utf8(s), i + name_field(s).len()),
        p_string(b, i) == Step::Done(s, i + name_field(s).len()),
{
    let e = encode_utf8(s);
    lemma_holds_split(b, i, seq![e.len() as u8], e);
    assert(b[i] == name_field(s)[0]);
    encode_utf8_valid_utf8(s);
    encode_utf8_decode_utf8(s);
}

proof fn lemma_value_at(b: Seq<u8>, i: int, v: ValueView)
    requires
        holds_at(b, i, value_field(v)),
        value_fits(v),
    ensures
        p_raw(b, i) == Step::Done(encode_value(v), i + value_field(v).len()),
        decode_value(encode_value(v)) == Ok::<ValueView, crate::machine::register::ValueErrorView>(v),
{
    let e = encode_value(v);
    lemma_holds_split(b, i, seq![e.len() as u8], e);
    assert(b[i] == value_field(v)[0]);
    lemma_value_roundtrip(v);
}

/// The values field of a list that starts with `v`.
proof fn lemma_values_field_cons(v: ValueView, rest: Seq<ValueView>)
    ensures
        values_field(seq![v] + rest) == value_field(v) + values_field(rest),
    decreases rest.len(),
{
    if rest.len() == 0 {
        assert(seq![v] + rest =~= seq![v]);
        assert((seq![v]).drop_last() =~= Seq::<ValueView>::empty());
        assert(values_field(Seq::<ValueView>::empty()) == Seq::<u8>::empty());
        assert(values_field(seq![v]) == values_field(Seq::<ValueView>::empty()) + value_field(v));
        assert(values_field(seq![v]) =~= value_field(v));
        assert(value_field(v) + values_field(rest) =~= value_field(v));
    } else {
        let front = rest.drop_last();
        let whole = seq![v] + rest;
        lemma_values_field_cons(v, front);
        assert(whole.drop_last() =~= seq![v] + front);
        assert(whole.last() == rest.last());
        assert(values_field(whole) == values_field(whole.drop_last()) + value_field(whole.last()));
        assert(values_field(rest) == values_field(front) + value_field(rest.last()));
        assert(values_field(whole) =~= value_field(v) + values_field(rest));
    }
}

proof fn lemma_values_at(b: Seq<u8>, i: int, vs: Seq<ValueView>)
    requires
        holds_at(b, i, values_field(vs)),
        i + values_field(vs).len() == b.len(),
        forall|k: int| 0 <= k < vs.len() ==> #[trigger] value_fits(vs[k]),
    ensures
        p_values(b, i) == Step::Done(vs, b.len() as int),
    decreases vs.len(),
{
    if vs.len() == 0 {
        assert(i >= b.len());
        assert(vs =~= Seq::<ValueView>::empty());
    } else {
        let v = vs[0];
        let rest = vs.drop_first();
        assert(vs =~= seq![v] + rest);
        lemma_values_field_cons(v, rest);
        lemma_holds_split(b, i, value_field(v), values_field(rest));
        assert(value_fits(vs[0]));
        lemma_value_at(b, i, v);
        assert(value_field(v).len() >= 1);
        assert(i < b.len());
        assert forall|k: int| 0 <= k < rest.len() implies #[trigger] value_fits(rest[k]) by {
            assert(rest[k] == vs[k + 1]);
        }
        lemma_values_at(b, i + value_field(v).len(), rest);
        assert(seq![v] + rest =~= vs);
    }
}

proof fn lemma_u32_at(b: Seq<u8>, i: int, d: u32)
    requires
        holds_at(b, i, u32_bytes(d)),
    ensures
        p_u32(b, i) == Step::Done(d, i + 4),
{
    lemma_u32_roundtrip(d);
    assert(b.subrange(i, i + 4) =~= u32_bytes(d));
}

proof fn lemma_calc_byte(m: CalculationMethod)
    ensures
        calculation_byte(m) <= 7,
        calculation_of_byte(calculation_byte(m)) == m,
{
}

proof fn lemma_comparison_byte(m: ComparisonMethod)
    ensures
        comparison_byte(m) <= 5,
        comparison_of_byte(comparison_byte(m)) == m,
{
}

proof fn lemma_kind_byte(k: InterruptKind)
    ensures
        interrupt_kind_byte(k) <= 2,
        interrupt_kind_of_byte(interrupt_kind_byte(k)) == k,
{
}

proof fn lemma_three_names_at(b: Seq<u8>, i: int, x: Seq<char>, y: Seq<char>, z: Seq<char>)
    requires
        holds_at(b, i, name_field(x) + name_field(y) + name_field(z)),
        name_fits(x),
        name_fits(y),
        name_fits(z),
    ensures
        p_three(b, i) == Step::Done(
            (encode_utf8(x), encode_utf8(y), encode_utf8(z)),
            i + name_field(x).len() + name_field(y).len() + name_field(z).len(),
        ),
        p_two_strings(b, i) == Step::Done((x, y), i + name_field(x).len() + name_field(y).len()),
        p_string(b, i + name_field(x).len() + name_field(y).len()) == Step::Done(
            z,
            i + name_field(x).len() + name_field(y).len() + name_field(z).len(),
        ),
{
    lemma_holds_split(b, i, name_field(x) + name_field(y), name_field(z));
    lemma_holds_split(b, i, name_field(x), name_field(y));
    lemma_name_at(b, i, x);
    lemma_name_at(b, i + name_field(x).len(), y);
    lemma_name_at(b, i + name_field(x).len() + name_field(y).len(), z);
}

proof fn lemma_two_names_at(b: Seq<u8>, i: int, x: Seq<char>, y: Seq<char>)
    requires
        holds_at(b, i, name_field(x) + name_field(y)),
        name_fits(x),
        name_fits(y),
    ensures
        p_raw(b, i) == Step::Done(encode_utf8(x), i + name_field(x).len()),
        p_raw(b, i + name_field(x).len()) == Step::Done(
            encode_utf8(y),
            i + name_field(x).len() + name_field(y).len(),
        ),
        p_two_strings(b, i) == Step::Done((x, y), i + name_field(x).len() + name_field(y).len()),
{
    lemma_holds_split(b, i, name_field(x), name_field(y));
    lemma_name_at(b, i, x);
    lemma_name_at(b, i + name_field(x).len(), y);
}

proof fn lemma_utf8(s: Seq<char>)
    ensures
        valid_utf8(encode_utf8(s)),
        decode_utf8(encode_utf8(s)) == s,
{
    encode_utf8_valid_utf8(s);
    encode_utf8_decode_utf8(s);
}

proof fn lemma_parse_load(b: Seq<u8>, j: int, value: ValueView, register: Seq<char>)
    requires
        holds_at(b, j, name_field(register) + value_field(value)),
        name_fits(register),
        value_fits(value),
    ensures
        crate::machine::bytecode::decode::parse_load(b, j) == Step::Done(
            InstrView::Load { value, register },
            j + name_field(register).len() + value_field(value).len(),
        ),
{
    lemma_holds_split(b, j, name_field(register), value_field(value));
    lemma_name_at(b, j, register);
    let k = j + name_field(register).len();
    let e = encode_value(value);
    lemma_holds_split(b, k, seq![e.len() as u8], e);
    assert(b[k] == value_field(value)[0]);
    lemma_value_roundtrip(value);
}

proof fn lemma_parse_pair(b: Seq<u8>, j: int, source: Seq<char>, destination: Seq<char>, copy: bool)
    requires
        holds_at(b, j, name_field(source) + name_field(destination)),
        name_fits(source),
        name_fits(destination),
    ensures
        crate::machine::bytecode::decode::parse_pair(b, j, copy) == Step::Done(
            if copy {
                InstrView::Copy { source, destination }
            } else {
                InstrView::Move { source, destination }
            },
            j + name_field(source).len() + name_field(destination).len(),
        ),
{
    lemma_two_names_at(b, j, source, destination);
    lemma_utf8(source);
    lemma_utf8(destination);
}

proof fn lemma_parse_push(b: Seq<u8>, j: int, value: ValueView, destination: Seq<char>)
    requires
        holds_at(b, j, name_field(destination) + value_field(value)),
        name_fits(destination),
        value_fits(value),
    ensures
        crate::machine::bytecode::decode::parse_push(b, j) == Step::Done(
            InstrView::Push { value, destination },
            j + name_field(destination).len() + value_field(value).len(),
        ),
{
    lemma_holds_split(b, j, name_field(destination), value_field(value));
    lemma_name_at(b, j, destination);
    lemma_value_at(b, j + name_field(destination).len(), value);
    lemma_utf8(destination);
}

proof fn lemma_parse_append(b: Seq<u8>, j: int, value: Seq<ValueView>, destination: Seq<char>)
    requires
        holds_at(b, j, name_field(destination) + values_field(value)),
        j + name_field(destination).len() + values_field(value).len() == b.len(),
        name_fits(destination),
        forall|k: int| 0 <= k < value.len() ==> #[trigger] value_fits(value[k]),
    ensures
        crate::machine::bytecode::decode::parse_append(b, j) == Step::Done(
            InstrView::Append { value, destination },
            b.len() as int,
        ),
{
    lemma_holds_split(b, j, name_field(destination), values_field(value));
    lemma_name_at(b, j, destination);
    lemma_values_at(b, j + name_field(destination).len(), value);
    lemma_utf8(destination);
}

proof fn lemma_parse_calculate(
    b: Seq<u8>,
    j: int,
    method: CalculationMethod,
    operand1: Seq<char>,
    operand2: Seq<char>,
    destination: Seq<char>,
)
    requires
        holds_at(
            b,
            j,
            seq![calculation_byte(method)] + (name_field(operand1) + name_field(operand2) + name_field(
                destination,
            )),
        ),
        name_fits(operand1),
        name_fits(operand2),
        name_fits(destination),
    ensures
        crate::machine::bytecode::decode::parse_calculate(b, j) == Step::Done(
            InstrView::Calculate { method, operand1, operand2, destination },
            j + 1 + name_field(operand1).len() + name_field(operand2).len() + name_field(destination).len(),
        ),
{
    let names = name_field(operand1) + name_field(operand2) + name_field(destination);
    lemma_holds_split(b, j, seq![calculation_byte(method)], names);
    assert(b[j] == (seq![calculation_byte(method)] + names)[0]);
    lemma_three_names_at(b, j + 1, operand1, operand2, destination);
    lemma_calc_byte(method);
    lemma_utf8(operand1);
    lemma_utf8(operand2);
    lemma_utf8(destination);
}

proof fn lemma_parse_compare(
    b: Seq<u8>,
    j: int,
    method: ComparisonMethod,
    operand1: Seq<char>,
    operand2: Seq<char>,
    destination: Seq<char>,
)
    requires
        holds_at(
            b,
            j,
            seq![comparison_byte(method)] + (name_field(operand1) + name_field(operand2) + name_field(
                destination,
            )),
        ),
        name_fits(operand1),
        name_fits(operand2),
        name_fits(destination),
    ensures
        crate::machine::bytecode::decode::parse_compare(b, j) == Step::Done(
            InstrView::Compare { method, operand1, operand2, destination },
            j + 1 + name_field(operand1).len() + name_field(operand2).len() + name_field(destination).len(),
        ),
{
    let names = name_field(operand1) + name_field(operand2) + name_field(destination);
    lemma_holds_split(b, j, seq![comparison_byte(method)], names);
    assert(b[j] == (seq![comparison_byte(method)] + names)[0]);
    lemma_three_names_at(b, j + 1, operand1, operand2, destination);
    lemma_comparison_byte(method);
    lemma_utf8(operand1);
    lemma_utf8(operand2);
    lemma_utf8(destination);
}

/// Whether a bitwise operation's bytecode decodes to itself.
pub open spec fn bitwise_transcodes(m: BitwiseView) -> bool {
    match m {
        BitwiseView::AND { a, b, out } => name_fits(a) && name_fits(b) && name_fits(out),
        BitwiseView::OR { a, b, out } => name_fits(a) && name_fits(b) && name_fits(out),
        BitwiseView::XOR { a, b, out } => name_fits(a) && name_fits(b) && name_fits(out),
        BitwiseView::NOT { .. } => false,
        BitwiseView::LSH { a, out, amount } => name_fits(a) && name_fits(out) && amount < 256,
        BitwiseView::RSH { a, out, amount } => name_fits(a) && name_fits(out) && amount < 256,
    }
}

proof fn lemma_parse_bitwise(b: Seq<u8>, j: int, method: BitwiseView)
    requires
        holds_at(b, j, bitwise_bytes(method)),
        bitwise_transcodes(method),
    ensures
        crate::machine::bytecode::decode::parse_bitwise(b, j) == Step::Done(
            InstrView::Bitwise { method },
            j + bitwise_bytes(method).len(),
        ),
{
    match method {
        BitwiseView::AND { a, b: bb, out } => {
            let names = name_field(a) + name_field(bb) + name_field(out);
            lemma_holds_split(b, j, seq![0u8], names);
            assert(b[j] == (seq![0u8] + names)[0]);
            lemma_three_names_at(b, j + 1, a, bb, out);
        },
        BitwiseView::OR { a, b: bb, out } => {
            let names = name_field(a) + name_field(bb) + name_field(out);
            lemma_holds_split(b, j, seq![1u8], names);
            assert(b[j] == (seq![1u8] + names)[0]);
            lemma_three_names_at(b, j + 1, a, bb, out);
        },
        BitwiseView::XOR { a, b: bb, out } => {
            let names = name_field(a) + name_field(bb) + name_field(out);
            lemma_holds_split(b, j, seq![2u8], names);
            assert(b[j] == (seq![2u8] + names)[0]);
            lemma_three_names_at(b, j + 1, a, bb, out);
        },
        BitwiseView::LSH { a, out, amount } => {
            let rest = name_field(a) + name_field(out) + seq![amount as u8];
            lemma_holds_split(b, j, seq![4u8], rest);
            assert(b[j] == (seq![4u8] + rest)[0]);
            lemma_holds_split(b, j + 1, name_field(a) + name_field(out), seq![amount as u8]);
            lemma_two_names_at(b, j + 1, a, out);
            let k = j + 1 + name_field(a).len() + name_field(out).len();
            assert(b[k] == (seq![amount as u8])[0]);
        },
        BitwiseView::RSH { a, out, amount } => {
            let rest = name_field(a) + name_field(out) + seq![amount as u8];
            lemma_holds_split(b, j, seq![5u8], rest);
            assert(b[j] == (seq![5u8] + rest)[0]);
            lemma_holds_split(b, j + 1, name_field(a) + name_field(out), seq![amount as u8]);
            lemma_two_names_at(b, j + 1, a, out);
            let k = j + 1 + name_field(a).len() + name_field(out).len();
            assert(b[k] == (seq![amount as u8])[0]);
        },
        BitwiseView::NOT { .. } => {},
    }
}

proof fn lemma_parse_jumpc(b: Seq<u8>, j: int, destination: u32, conditional_address: Seq<char>)
    requires
        holds_at(b, j, u32_bytes(destination) + name_field(conditional_address)),
        name_fits(conditional_address),
    ensures
        crate::machine::bytecode::decode::parse_jumpc(b, j) == Step::Done(
            InstrView::JumpC { destination, conditional_address },
            j + 4 + name_field(conditional_address).len(),
        ),
{
    lemma_holds_split(b, j, u32_bytes(destination), name_field(conditional_address));
    lemma_u32_at(b, j, destination);
    lemma_name_at(b, j + 4, conditional_address);
}

proof fn lemma_parse_interrupt(b: Seq<u8>, j: int, address: Seq<char>, kind: InterruptKind)
    requires
        holds_at(b, j, seq![interrupt_kind_byte(kind)] + name_field(address)),
        name_fits(address),
    ensures
        crate::machine::bytecode::decode::parse_interrupt(b, j) == Step::Done(
            InstrView::Interrupt { address, kind },
            j + 1 + name_field(address).len(),
        ),
{
    lemma_holds_split(b, j, seq![interrupt_kind_byte(kind)], name_field(address));
    assert(b[j] == (seq![interrupt_kind_byte(kind)] + name_field(address))[0]);
    lemma_name_at(b, j + 1, address);
    lemma_kind_byte(kind);
}

proof fn lemma_opcode_at(b: Seq<u8>, i: int, op: Opcode, ops: Seq<u8>)
    requires
        holds_at(b, i, seq![byte_of_opcode(op)] + ops),
        op != Opcode::Illegal,
        op != Opcode::LoadType,
    ensures
        0 <= i < b.len(),
        opcode_of_byte(b[i]) == op,
        holds_at(b, i + 1, ops),
{
    lemma_holds_split(b, i, seq![byte_of_opcode(op)], ops);
    assert(b[i] == (seq![byte_of_opcode(op)] + ops)[0]);
    lemma_opcode_byte_roundtrip(op);
}

proof fn lemma_halt_at(b: Seq<u8>, i: int)
    requires
        holds_at(b, i, encode_instruction(InstrView::Halt)),
        
    ensures
        parse_at(b, i) == Step::Done(InstrView::Halt, i + encode_instruction(InstrView::Halt).len()),
{
    let ins = InstrView::Halt;
    reveal(parse_at);
    lemma_opcode_at(b, i, opcode_of(ins), operand_bytes(ins));
    assert(b.subrange(i + 1, i + 8) =~= operand_bytes(ins));
}

proof fn lemma_load_at(b: Seq<u8>, i: int, value: ValueView, register: Seq<char>)
    requires
        holds_at(b, i, encode_instruction(InstrView::Load { value, register })),
        name_fits(register), value_fits(value),
    ensures
        parse_at(b, i) == Step::Done(InstrView::Load { value, register }, i + encode_instruction(InstrView::Load { value, register }).len()),
{
    let ins = InstrView::Load { value, register };
    reveal(parse_at);
    lemma_opcode_at(b, i, opcode_of(ins), operand_bytes(ins));
    lemma_parse_load(b, i + 1, value, register);
}

proof fn lemma_move_at(b: Seq<u8>, i: int, source: Seq<char>, destination: Seq<char>)
    requires
        holds_at(b, i, encode_instruction(InstrView::Move { source, destination })),
        name_fits(source), name_fits(destination),
    ensures
        parse_at(b, i) == Step::Done(InstrView::Move { source, destination }, i + encode_instruction(InstrView::Move { source, destination }).len()),
{
    let ins = InstrView::Move { source, destination };
    reveal(parse_at);
    lemma_opcode_at(b, i, opcode_of(ins), operand_bytes(ins));
    lemma_parse_pair(b, i + 1, source, destination, false);
}

proof fn lemma_copy_at(b: Seq<u8>, i: int, source: Seq<char>, destination: Seq<char>)
    requires
        holds_at(b, i, encode_instruction(InstrView::Copy { source, destination })),
        name_fits(source), name_fits(destination),
    ensures
        parse_at(b, i) == Step::Done(InstrView::Copy { source, destination }, i + encode_instruction(InstrView::Copy { source, destination }).len()),
{
    let ins = InstrView::Copy { source, destination };
    reveal(parse_at);
    lemma_opcode_at(b, i, opcode_of(ins), operand_bytes(ins));
    lemma_parse_pair(b, i + 1, source, destination, true);
}

proof fn lemma_push_at(b: Seq<u8>, i: int, value: ValueView, destination: Seq<char>)
    requires
        holds_at(b, i, encode_instruction(InstrView::Push { value, destination })),
        name_fits(destination), value_fits(value),
    ensures
        parse_at(b, i) == Step::Done(InstrView::Push { value, destination }, i + encode_instruction(InstrView::Push { value, destination }).len()),
{
    let ins = InstrView::Push { value, destination };
    reveal(parse_at);
    lemma_opcode_at(b, i, opcode_of(ins), operand_bytes(ins));
    lemma_parse_push(b, i + 1, value, destination);
}

proof fn lemma_append_at(b: Seq<u8>, i: int, value: Seq<ValueView>, destination: Seq<char>)
    requires
        holds_at(b, i, encode_instruction(InstrView::Append { value, destination })),
        name_fits(destination), forall|k: int| 0 <= k < value.len() ==> #[trigger] value_fits(value[k]), i + encode_instruction(InstrView::Append { value, destination }).len() == b.len(),
    ensures
        parse_at(b, i) == Step::Done(InstrView::Append { value, destination }, i + encode_instruction(InstrView::Append { value, destination }).len()),
{
    let ins = InstrView::Append { value, destination };
    reveal(parse_at);
    lemma_opcode_at(b, i, opcode_of(ins), operand_bytes(ins));
    lemma_parse_append(b, i + 1, value, destination);
}

proof fn lemma_calculate_at(b: Seq<u8>, i: int, method: CalculationMethod, operand1: Seq<char>, operand2: Seq<char>, destination: Seq<char>)
    requires
        holds_at(b, i, encode_instruction(InstrView::Calculate { method, operand1, operand2, destination })),
        name_fits(operand1), name_fits(operand2), name_fits(destination),
    ensures
        parse_at(b, i) == Step::Done(InstrView::Calculate { method, operand1, operand2, destination }, i + encode_instruction(InstrView::Calculate { method, operand1, operand2, destination }).len()),
{
    let ins = InstrView::Calculate { method, operand1, operand2, destination };
    reveal(parse_at);
    lemma_opcode_at(b, i, opcode_of(ins), operand_bytes(ins));
    assert(operand_bytes(ins) =~= seq![calculation_byte(method)] + (name_field(operand1) + name_field(operand2) + name_field(destination)));
    lemma_parse_calculate(b, i + 1, method, operand1, operand2, destination);
}

proof fn lemma_compare_at(b: Seq<u8>, i: int, method: ComparisonMethod, operand1: Seq<char>, operand2: Seq<char>, destination: Seq<char>)
    requires
        holds_at(b, i, encode_instruction(InstrView::Compare { method, operand1, operand2, destination })),
        name_fits(operand1), name_fits(operand2), name_fits(destination),
    ensures
        parse_at(b, i) == Step::Done(InstrView::Compare { method, operand1, operand2, destination }, i + encode_instruction(InstrView::Compare { method, operand1, operand2, destination }).len()),
{
    let ins = InstrView::Compare { method, operand1, operand2, destination };
    reveal(parse_at);
    lemma_opcode_at(b, i, opcode_of(ins), operand_bytes(ins));
    assert(operand_bytes(ins) =~= seq![comparison_byte(method)] + (name_field(operand1) + name_field(operand2) + name_field(destination)));
    lemma_parse_compare(b, i + 1, method, operand1, operand2, destination);
}

proof fn lemma_bitwise_at(b: Seq<u8>, i: int, method: BitwiseView)
    requires
        holds_at(b, i, encode_instruction(InstrView::Bitwise { method })),
        bitwise_transcodes(method),
    ensures
        parse_at(b, i) == Step::Done(InstrView::Bitwise { method }, i + encode_instruction(InstrView::Bitwise { method }).len()),
{
    let ins = InstrView::Bitwise { method };
    reveal(parse_at);
    lemma_opcode_at(b, i, opcode_of(ins), operand_bytes(ins));
    lemma_parse_bitwise(b, i + 1, method);
}

proof fn lemma_jump_at(b: Seq<u8>, i: int, destination: u32)
    requires
        holds_at(b, i, encode_instruction(InstrView::Jump { destination })),
        
    ensures
        parse_at(b, i) == Step::Done(InstrView::Jump { destination }, i + encode_instruction(InstrView::Jump { destination }).len()),
{
    let ins = InstrView::Jump { destination };
    reveal(parse_at);
    lemma_opcode_at(b, i, opcode_of(ins), operand_bytes(ins));
    lemma_u32_at(b, i + 1, destination);
}

proof fn lemma_jumpc_at(b: Seq<u8>, i: int, destination: u32, conditional_address: Seq<char>)
    requires
        holds_at(b, i, encode_instruction(InstrView::JumpC { destination, conditional_address })),
        name_fits(conditional_address),
    ensures
        parse_at(b, i) == Step::Done(InstrView::JumpC { destination, conditional_address }, i + encode_instruction(InstrView::JumpC { destination, conditional_address }).len()),
{
    let ins = InstrView::JumpC { destination, conditional_address };
    reveal(parse_at);
    lemma_opcode_at(b, i, opcode_of(ins), operand_bytes(ins));
    lemma_parse_jumpc(b, i + 1, destination, conditional_address);
}

proof fn lemma_interrupt_at(b: Seq<u8>, i: int, address: Seq<char>, kind: InterruptKind)
    requires
        holds_at(b, i, encode_instruction(InstrView::Interrupt { address, kind })),
        name_fits(address),
    ensures
        parse_at(b, i) == Step::Done(InstrView::Interrupt { address, kind }, i + encode_instruction(InstrView::Interrupt { address, kind }).len()),
{
    let ins = InstrView::Interrupt { address, kind };
    reveal(parse_at);
    lemma_opcode_at(b, i, opcode_of(ins), operand_bytes(ins));
    lemma_parse_interrupt(b, i + 1, address, kind);
}

proof fn lemma_return_at(b: Seq<u8>, i: int)
    requires
        holds_at(b, i, encode_instruction(InstrView::Return)),
        
    ensures
        parse_at(b, i) == Step::Done(InstrView::Return, i + encode_instruction(InstrView::Return).len()),
{
    let ins = InstrView::Return;
    reveal(parse_at);
    lemma_opcode_at(b, i, opcode_of(ins), operand_bytes(ins));
    
}

/// Decoding the bytecode of an instruction, wherever it stands in a longer bytecode, gives
/// the instruction back and the position right after its bytecode. An `APPEND` reads
/// values up to the end of the bytecode, so for it the bytecode must end there.
pub proof fn theorem_decode_encode(b: Seq<u8>, i: int, ins: InstrView)
    requires
        transcodes(ins),
        holds_at(b, i, encode_instruction(ins)),
        ins is Append ==> i + encode_instruction(ins).len() == b.len(),
    ensures
        parse_at(b, i) == Step::Done(ins, i + encode_instruction(ins).len()),
{
    match ins {
        InstrView::Halt => lemma_halt_at(b, i),
        InstrView::Load { value, register } => lemma_load_at(b, i, value, register),
        InstrView::Move { source, destination } => lemma_move_at(b, i, source, destination),
        InstrView::Copy { source, destination } => lemma_copy_at(b, i, source, destination),
        InstrView::Push { value, destination } => lemma_push_at(b, i, value, destination),
        InstrView::Append { value, destination } => lemma_append_at(b, i, value, destination),
        InstrView::Calculate { method, operand1, operand2, destination } => lemma_calculate_at(
            b,
            i,
            method,
            operand1,
            operand2,
            destination,
        ),
        InstrView::Compare { method, operand1, operand2, destination } => lemma_compare_at(
            b,
            i,
            method,
            operand1,
            operand2,
            destination,
        ),
        InstrView::Bitwise { method } => lemma_bitwise_at(b, i, method),
        InstrView::Jump { destination } => lemma_jump_at(b, i, destination),
        InstrView::JumpC { destination, conditional_address } => lemma_jumpc_at(
            b,
            i,
            destination,
            conditional_address,
        ),
        InstrView::Interrupt { address, kind } => lemma_interrupt_at(b, i, address, kind),
        InstrView::Return => lemma_return_at(b, i),
        _ => {},
    }
}

} // verus!
