//! Encoding of instructions as Strontium bytecode.
use vstd::prelude::*;
use vstd::utf8::encode_utf8;

use crate::machine::endian::{u32_bytes, u32_to_le};
use crate::machine::instruction::{
    bitwise_byte, calculation_byte, comparison_byte, interrupt_kind_byte, is_pseudo, opcode_of,
    values_view, BitwiseMethod, BitwiseView, InstrView, Instruction,
};
use crate::machine::opcode::byte_of_opcode;
use crate::machine::register::{encode_value, RegisterValue, ValueView};
use crate::machine::utf8::string_bytes;

verus! {

/// A name as bytecode stores it: its UTF-8 byte length (cut to one byte), then its bytes.
pub open spec fn name_field(s: Seq<char>) -> Seq<u8> {
    seq![encode_utf8(s).len() as u8] + encode_utf8(s)
}

/// A value as an instruction stores it: the length of its encoding (cut to one byte),
/// then the encoding.
pub open spec fn value_field(v: ValueView) -> Seq<u8> {
    seq![encode_value(v).len() as u8] + encode_value(v)
}

/// A list of values, each stored as a value field.
pub open spec fn values_field(vs: Seq<ValueView>) -> Seq<u8>
    decreases vs.len(),
{
    if vs.len() == 0 {
        Seq::empty()
    } else {
        values_field(vs.drop_last()) + value_field(vs.last())
    }
}

/// The bytes of a bitwise operation: its method byte, then its register names; a shift
/// amount is stored as one byte (cut to its low eight bits).
pub open spec fn bitwise_bytes(m: BitwiseView) -> Seq<u8> {
    seq![bitwise_byte(m)] + match m {
        BitwiseView::AND { a, b, out } => name_field(a) + name_field(b) + name_field(out),
        BitwiseView::OR { a, b, out } => name_field(a) + name_field(b) + name_field(out),
        BitwiseView::XOR { a, b, out } => name_field(a) + name_field(b) + name_field(out),
        BitwiseView::NOT { a, out } => name_field(a) + name_field(out),
        BitwiseView::LSH { a, out, amount } => name_field(a) + name_field(out) + seq![amount as u8],
        BitwiseView::RSH { a, out, amount } => name_field(a) + name_field(out) + seq![amount as u8],
    }
}

/// The operands of an instruction as bytecode stores them. `CALL`, `RETURN`, `STOREL`,
/// `LOADL`, `LOADTYPE` and `DISPATCH` are written without operands.
pub open spec fn operand_bytes(i: InstrView) -> Seq<u8> {
    match i {
        InstrView::Halt => seq![0u8, 0u8, 0u8, 0u8, 0u8, 0u8, 0u8],
        InstrView::Load { value, register } => name_field(register) + value_field(value),
        InstrView::Move { source, destination } => name_field(source) + name_field(destination),
        InstrView::Copy { source, destination } => name_field(source) + name_field(destination),
        InstrView::Push { value, destination } => name_field(destination) + value_field(value),
        InstrView::Append { value, destination } => name_field(destination) + values_field(value),
        InstrView::Calculate { method, operand1, operand2, destination } => seq![calculation_byte(method)]
            + name_field(operand1) + name_field(operand2) + name_field(destination),
        InstrView::Compare { method, operand1, operand2, destination } => seq![comparison_byte(method)]
            + name_field(operand1) + name_field(operand2) + name_field(destination),
        InstrView::Bitwise { method } => bitwise_bytes(method),
        InstrView::Jump { destination } => u32_bytes(destination),
        InstrView::JumpC { destination, conditional_address } => u32_bytes(destination) + name_field(
            conditional_address,
        ),
        InstrView::Interrupt { address, kind } => seq![interrupt_kind_byte(kind)] + name_field(address),
        _ => Seq::empty(),
    }
}

/// The bytecode of a real instruction: its opcode byte, then its operands.
pub open spec fn encode_instruction(i: InstrView) -> Seq<u8> {
    seq![byte_of_opcode(opcode_of(i))] + operand_bytes(i)
}

/// Append a name field.
fn push_name(bytes: &mut Vec<u8>, s: &String)
    ensures
        final(bytes)@ == old(bytes)@ + name_field(s@),
{
    let mut b = string_bytes(s);
    bytes.push(b.len() as u8);
    bytes.append(&mut b);
}

/// Append a value field.
fn push_value(bytes: &mut Vec<u8>, v: &RegisterValue)
    ensures
        final(bytes)@ == old(bytes)@ + value_field(v@),
{
    let mut b = v.to_bytes();
    bytes.push(b.len() as u8);
    bytes.append(&mut b);
}

impl BitwiseMethod {
    /// The bytecode of this bitwise operation.
    pub fn to_bytes(&self) -> (r: Vec<u8>)
        ensures
            r@ == bitwise_bytes(self@),
    {
        let mut bytes: Vec<u8> = Vec::new();
        bytes.push(self.get_method_byte());
        match self {
            BitwiseMethod::AND { a, b, out }
            | BitwiseMethod::OR { a, b, out }
            | BitwiseMethod::XOR { a, b, out } => {
                push_name(&mut bytes, a);
                push_name(&mut bytes, b);
                push_name(&mut bytes, out);
            },
            BitwiseMethod::LSH { a, out, amount } | BitwiseMethod::RSH { a, out, amount } => {
                push_name(&mut bytes, a);
                push_name(&mut bytes, out);
                bytes.push(*amount as u8);
            },
            BitwiseMethod::NOT { a, out } => {
                push_name(&mut bytes, a);
                push_name(&mut bytes, out);
            },
        }
        assert(bytes@ =~= bitwise_bytes(self@));
        bytes
    }
}

impl Instruction {
    /// The bytecode of this instruction; pseudo-instructions have none and are left out.
    pub fn to_bytes(&self) -> (r: Vec<u8>)
        requires
            !is_pseudo(self@),
        ensures
            r@ == encode_instruction(self@),
    {
        let mut bytes: Vec<u8> = Vec::new();
        let opcode = self.get_opcode();
        bytes.push(opcode.to_byte());
        let ghost start = bytes@;
        match self {
            Instruction::Halt => {
                let mut z = vec![0u8, 0u8, 0u8, 0u8, 0u8, 0u8, 0u8];
                bytes.append(&mut z);
            },
            Instruction::Load { value, register } => {
                push_name(&mut bytes, register);
                push_value(&mut bytes, value);
            },
            Instruction::Move { source, destination } | Instruction::Copy { source, destination } => {
                push_name(&mut bytes, source);
                push_name(&mut bytes, destination);
            },
            Instruction::Push { value, destination } => {
                push_name(&mut bytes, destination);
                push_value(&mut bytes, value);
            },
            Instruction::Append { value, destination } => {
                push_name(&mut bytes, destination);
                let ghost before = bytes@;
                let mut k: usize = 0;
                while k < value.len()
                    invariant
                        k <= value.len(),
                        bytes@ == before + values_field(values_view(value@).take(k as int)),
                    decreases value.len() - k,
                {
                    push_value(&mut bytes, &value[k]);
                    proof {
                        let vs = values_view(value@);
                        assert(vs.take(k + 1).drop_last() =~= vs.take(k as int));
                    }
                    k = k + 1;
                }
                assert(values_view(value@).take(value.len() as int) =~= values_view(value@));
            },
            Instruction::Calculate { method, operand1, operand2, destination } => {
                bytes.push(method.to_byte());
                push_name(&mut bytes, operand1);
                push_name(&mut bytes, operand2);
                push_name(&mut bytes, destination);
            },
            Instruction::Compare { method, operand1, operand2, destination } => {
                bytes.push(method.to_byte());
                push_name(&mut bytes, operand1);
                push_name(&mut bytes, operand2);
                push_name(&mut bytes, destination);
            },
            Instruction::Bitwise { method } => {
                let mut m = method.to_bytes();
                bytes.append(&mut m);
            },
            Instruction::Jump { destination } => {
                let mut d = u32_to_le(*destination);
                bytes.append(&mut d);
            },
            Instruction::JumpC { destination, conditional_address } => {
                let mut d = u32_to_le(*destination);
                bytes.append(&mut d);
                push_name(&mut bytes, conditional_address);
            },
            Instruction::Interrupt { interrupt } => {
                bytes.push(interrupt.kind.to_byte());
                push_name(&mut bytes, &interrupt.address);
            },
            _ => {},
        }
        assert(bytes@ =~= encode_instruction(self@));
        bytes
    }
}

} // verus!
