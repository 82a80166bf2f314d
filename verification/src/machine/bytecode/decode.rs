//! Decoding of Strontium bytecode into instructions.
use vstd::prelude::*;
use vstd::slice::slice_to_vec;
use vstd::utf8::{decode_utf8, valid_utf8};

use crate::machine::bytecode::{BytecodeError, ParseErrorView};
use crate::machine::endian::{le_u32, read_u32_le};
use crate::machine::instruction::{
    calculation_of_byte, comparison_of_byte, interrupt_kind_of_byte, values_view, BitwiseMethod, BitwiseView,
    CalculationMethod, ComparisonMethod, InstrView, Instruction, Interrupt, InterruptKind,
};
use crate::machine::opcode::{opcode_index, opcode_of_byte, Opcode};
use crate::machine::register::{decode_result_view, decode_value, RegisterValue, ValueView};
use crate::machine::utf8::string_from_utf8;

verus! {

/// The outcome of decoding one piece of bytecode at a position: the piece and the position
/// after it; or an error and the position at which the parser stopped; or a malformed input
/// on which the parser gives up without an error (decoding panics there).
pub enum Step<T> {
    Done(T, int),
    Fail(ParseErrorView, int),
    Abort,
}

/// One byte; reading past the end gives up.
pub open spec fn p_byte(b: Seq<u8>, i: int) -> Step<u8> {
    if 0 <= i < b.len() {
        Step::Done(b[i], i + 1)
    } else {
        Step::Abort
    }
}

/// `n` bytes, or an end-of-bytecode error at `i`.
pub open spec fn p_bytes(b: Seq<u8>, i: int, n: int) -> Step<Seq<u8>> {
    if i + n > b.len() {
        Step::Fail(ParseErrorView::UnexpectedEof(i as u32), i)
    } else {
        Step::Done(b.subrange(i, i + n), i + n)
    }
}

/// A length byte followed by that many bytes.
pub open spec fn p_raw(b: Seq<u8>, i: int) -> Step<Seq<u8>> {
    match p_byte(b, i) {
        Step::Done(n, j) => p_bytes(b, j, n as int),
        Step::Fail(e, j) => Step::Fail(e, j),
        Step::Abort => Step::Abort,
    }
}

/// A length-prefixed UTF-8 string; invalid UTF-8 is an error.
pub open spec fn p_string(b: Seq<u8>, i: int) -> Step<Seq<char>> {
    match p_raw(b, i) {
        Step::Done(s, j) => if valid_utf8(s) {
            Step::Done(decode_utf8(s), j)
        } else {
            Step::Fail(ParseErrorView::Utf8Error, j)
        },
        Step::Fail(e, j) => Step::Fail(e, j),
        Step::Abort => Step::Abort,
    }
}

/// A little-endian `u32`.
pub open spec fn p_u32(b: Seq<u8>, i: int) -> Step<u32> {
    match p_bytes(b, i, 4) {
        Step::Done(s, j) => Step::Done(le_u32(s), j),
        Step::Fail(e, j) => Step::Fail(e, j),
        Step::Abort => Step::Abort,
    }
}

/// The values of an `APPEND`: length-prefixed values up to the end of the bytecode. A value
/// that does not decode gives up.
pub open spec fn p_values(b: Seq<u8>, i: int) -> Step<Seq<ValueView>>
    decreases b.len() - i,
{
    if i < 0 || i >= b.len() {
        Step::Done(Seq::empty(), i)
    } else {
        match p_raw(b, i) {
            Step::Done(vb, j) => match decode_value(vb) {
                Ok(v) => match p_values(b, j) {
                    Step::Done(rest, k) => Step::Done(seq![v] + rest, k),
                    Step::Fail(e, k) => Step::Fail(e, k),
                    Step::Abort => Step::Abort,
                },
                Err(_) => Step::Abort,
            },
            Step::Fail(e, j) => Step::Fail(e, j),
            Step::Abort => Step::Abort,
        }
    }
}

/// The seven zero bytes that follow the `HALT` opcode.
pub open spec fn halt_padding() -> Seq<u8> {
    seq![0u8, 0u8, 0u8, 0u8, 0u8, 0u8, 0u8]
}

pub open spec fn parse_halt(b: Seq<u8>, i: int) -> Step<InstrView> {
    if i + 7 > b.len() {
        Step::Fail(ParseErrorView::UnexpectedEof(i as u32), i)
    } else if b.subrange(i, i + 7) == halt_padding() {
        Step::Done(InstrView::Halt, i + 7)
    } else {
        Step::Fail(ParseErrorView::UnexpectedBytes { expected: halt_padding(), actual: b.subrange(i, i + 7) }, i)
    }
}

pub open spec fn parse_load(b: Seq<u8>, i: int) -> Step<InstrView> {
    match p_string(b, i) {
        Step::Done(register, i2) => match p_byte(b, i2) {
            Step::Done(n, i3) => match p_bytes(b, i3, n as int) {
                Step::Done(vb, i4) => match decode_value(vb) {
                    Ok(value) => Step::Done(InstrView::Load { value, register }, i4),
                    Err(_) => Step::Abort,
                },
                Step::Fail(e, j) => Step::Fail(e, j),
                Step::Abort => Step::Abort,
            },
            _ => Step::Abort,
        },
        Step::Fail(e, j) => Step::Fail(e, j),
        Step::Abort => Step::Abort,
    }
}

/// `MOVE` and `COPY`: two length-prefixed names; invalid UTF-8 gives up.
pub open spec fn parse_pair(b: Seq<u8>, i: int, copy: bool) -> Step<InstrView> {
    match p_raw(b, i) {
        Step::Done(src, i2) => match p_raw(b, i2) {
            Step::Done(dst, i3) => if valid_utf8(src) && valid_utf8(dst) {
                if copy {
                    Step::Done(InstrView::Copy { source: decode_utf8(src), destination: decode_utf8(dst) }, i3)
                } else {
                    Step::Done(InstrView::Move { source: decode_utf8(src), destination: decode_utf8(dst) }, i3)
                }
            } else {
                Step::Abort
            },
            Step::Fail(e, j) => Step::Fail(e, j),
            Step::Abort => Step::Abort,
        },
        Step::Fail(e, j) => Step::Fail(e, j),
        Step::Abort => Step::Abort,
    }
}

pub open spec fn parse_push(b: Seq<u8>, i: int) -> Step<InstrView> {
    match p_raw(b, i) {
        Step::Done(dst, i2) => match p_raw(b, i2) {
            Step::Done(vb, i3) => match decode_value(vb) {
                Ok(value) => if valid_utf8(dst) {
                    Step::Done(InstrView::Push { value, destination: decode_utf8(dst) }, i3)
                } else {
                    Step::Abort
                },
                Err(_) => Step::Abort,
            },
            Step::Fail(e, j) => Step::Fail(e, j),
            Step::Abort => Step::Abort,
        },
        Step::Fail(e, j) => Step::Fail(e, j),
        Step::Abort => Step::Abort,
    }
}

pub open spec fn parse_append(b: Seq<u8>, i: int) -> Step<InstrView> {
    match p_raw(b, i) {
        Step::Done(dst, i2) => match p_values(b, i2) {
            Step::Done(values, k) => if valid_utf8(dst) {
                Step::Done(InstrView::Append { value: values, destination: decode_utf8(dst) }, k)
            } else {
                Step::Abort
            },
            Step::Fail(e, j) => Step::Fail(e, j),
            Step::Abort => Step::Abort,
        },
        Step::Fail(e, j) => Step::Fail(e, j),
        Step::Abort => Step::Abort,
    }
}

pub open spec fn parse_interrupt(b: Seq<u8>, i: int) -> Step<InstrView> {
    match p_byte(b, i) {
        Step::Done(k, i2) => match p_string(b, i2) {
            Step::Done(address, i3) => if k <= 2 {
                Step::Done(InstrView::Interrupt { address, kind: interrupt_kind_of_byte(k) }, i3)
            } else {
                Step::Abort
            },
            Step::Fail(e, j) => Step::Fail(e, j),
            Step::Abort => Step::Abort,
        },
        _ => Step::Abort,
    }
}

/// The three raw operands of a calculation or comparison, after its method byte.
pub open spec fn p_three(b: Seq<u8>, i: int) -> Step<(Seq<u8>, Seq<u8>, Seq<u8>)> {
    match p_raw(b, i) {
        Step::Done(o1, i2) => match p_raw(b, i2) {
            Step::Done(o2, i3) => match p_raw(b, i3) {
                Step::Done(d, i4) => Step::Done((o1, o2, d), i4),
                Step::Fail(e, j) => Step::Fail(e, j),
                Step::Abort => Step::Abort,
            },
            Step::Fail(e, j) => Step::Fail(e, j),
            Step::Abort => Step::Abort,
        },
        Step::Fail(e, j) => Step::Fail(e, j),
        Step::Abort => Step::Abort,
    }
}

pub open spec fn parse_calculate(b: Seq<u8>, i: int) -> Step<InstrView> {
    match p_byte(b, i) {
        Step::Done(m, i2) => match p_three(b, i2) {
            Step::Done(ops, i3) => if m <= 7 && valid_utf8(ops.0) && valid_utf8(ops.1) && valid_utf8(ops.2) {
                Step::Done(
                    InstrView::Calculate {
                        method: calculation_of_byte(m),
                        operand1: decode_utf8(ops.0),
                        operand2: decode_utf8(ops.1),
                        destination: decode_utf8(ops.2),
                    },
                    i3,
                )
            } else {
                Step::Abort
            },
            Step::Fail(e, j) => Step::Fail(e, j),
            Step::Abort => Step::Abort,
        },
        _ => Step::Abort,
    }
}

pub open spec fn parse_compare(b: Seq<u8>, i: int) -> Step<InstrView> {
    match p_byte(b, i) {
        Step::Done(m, i2) => match p_three(b, i2) {
            Step::Done(ops, i3) => if m <= 5 && valid_utf8(ops.0) && valid_utf8(ops.1) && valid_utf8(ops.2) {
                Step::Done(
                    InstrView::Compare {
                        method: comparison_of_byte(m),
                        operand1: decode_utf8(ops.0),
                        operand2: decode_utf8(ops.1),
                        destination: decode_utf8(ops.2),
                    },
                    i3,
                )
            } else {
                Step::Abort
            },
            Step::Fail(e, j) => Step::Fail(e, j),
            Step::Abort => Step::Abort,
        },
        _ => Step::Abort,
    }
}

/// Two strings, one after the other.
pub open spec fn p_two_strings(b: Seq<u8>, i: int) -> Step<(Seq<char>, Seq<char>)> {
    match p_string(b, i) {
        Step::Done(s1, i2) => match p_string(b, i2) {
            Step::Done(s2, i3) => Step::Done((s1, s2), i3),
            Step::Fail(e, j) => Step::Fail(e, j),
            Step::Abort => Step::Abort,
        },
        Step::Fail(e, j) => Step::Fail(e, j),
        Step::Abort => Step::Abort,
    }
}

/// A `BITWISE` operation. `NOT` is decoded with empty register names and without reading
/// its operands; a shift amount is read as one byte.
pub open spec fn parse_bitwise(b: Seq<u8>, i: int) -> Step<InstrView> {
    match p_byte(b, i) {
        Step::Done(m, i2) => if m <= 2 {
            match p_two_strings(b, i2) {
                Step::Done(ab, i3) => match p_string(b, i3) {
                    Step::Done(out, i4) => Step::Done(
                        InstrView::Bitwise {
                            method: if m == 0 {
                                BitwiseView::AND { a: ab.0, b: ab.1, out }
                            } else if m == 1 {
                                BitwiseView::OR { a: ab.0, b: ab.1, out }
                            } else {
                                BitwiseView::XOR { a: ab.0, b: ab.1, out }
                            },
                        },
                        i4,
                    ),
                    Step::Fail(e, j) => Step::Fail(e, j),
                    Step::Abort => Step::Abort,
                },
                Step::Fail(e, j) => Step::Fail(e, j),
                Step::Abort => Step::Abort,
            }
        } else if m == 3 {
            Step::Done(InstrView::Bitwise { method: BitwiseView::NOT { a: Seq::empty(), out: Seq::empty() } }, i2)
        } else if m == 4 || m == 5 {
            match p_two_strings(b, i2) {
                Step::Done(ao, i3) => match p_byte(b, i3) {
                    Step::Done(amount, i4) => Step::Done(
                        InstrView::Bitwise {
                            method: if m == 4 {
                                BitwiseView::LSH { a: ao.0, out: ao.1, amount: amount as u32 }
                            } else {
                                BitwiseView::RSH { a: ao.0, out: ao.1, amount: amount as u32 }
                            },
                        },
                        i4,
                    ),
                    _ => Step::Abort,
                },
                Step::Fail(e, j) => Step::Fail(e, j),
                Step::Abort => Step::Abort,
            }
        } else {
            Step::Fail(ParseErrorView::InvalidOpcode(m), i2)
        },
        _ => Step::Abort,
    }
}

pub open spec fn parse_jump(b: Seq<u8>, i: int) -> Step<InstrView> {
    match p_u32(b, i) {
        Step::Done(d, j) => Step::Done(InstrView::Jump { destination: d }, j),
        Step::Fail(e, j) => Step::Fail(e, j),
        Step::Abort => Step::Abort,
    }
}

pub open spec fn parse_jumpc(b: Seq<u8>, i: int) -> Step<InstrView> {
    match p_u32(b, i) {
        Step::Done(d, i2) => match p_string(b, i2) {
            Step::Done(c, j) => Step::Done(InstrView::JumpC { destination: d, conditional_address: c }, j),
            Step::Fail(e, j) => Step::Fail(e, j),
            Step::Abort => Step::Abort,
        },
        Step::Fail(e, j) => Step::Fail(e, j),
        Step::Abort => Step::Abort,
    }
}

pub open spec fn parse_call(b: Seq<u8>, i: int) -> Step<InstrView> {
    match p_u32(b, i) {
        Step::Done(d, j) => Step::Done(InstrView::Call { address: d as usize }, j),
        Step::Fail(e, j) => Step::Fail(e, j),
        Step::Abort => Step::Abort,
    }
}

/// `STOREL` and `LOADL`: a local variable name and a register name.
pub open spec fn parse_local(b: Seq<u8>, i: int, store: bool) -> Step<InstrView> {
    match p_two_strings(b, i) {
        Step::Done(nr, j) => if store {
            Step::Done(InstrView::StoreLocal { name: nr.0, register: nr.1 }, j)
        } else {
            Step::Done(InstrView::LoadLocal { name: nr.0, register: nr.1 }, j)
        },
        Step::Fail(e, j) => Step::Fail(e, j),
        Step::Abort => Step::Abort,
    }
}

pub open spec fn parse_dispatch(b: Seq<u8>, i: int) -> Step<InstrView> {
    match p_string(b, i) {
        Step::Done(name, j) => Step::Done(InstrView::Dispatch { method_name: name }, j),
        Step::Fail(e, j) => Step::Fail(e, j),
        Step::Abort => Step::Abort,
    }
}

/// The instruction that starts at position `i` of the bytecode `b`.
#[verifier::opaque]
pub open spec fn parse_at(b: Seq<u8>, i: int) -> Step<InstrView> {
    if i >= b.len() {
        Step::Fail(ParseErrorView::UnexpectedEof(i as u32), i)
    } else {
        let op = opcode_of_byte(b[i]);
        let j = i + 1;
        match op {
            Opcode::Halt => parse_halt(b, j),
            Opcode::Load => parse_load(b, j),
            Opcode::Move => parse_pair(b, j, false),
            Opcode::Copy => parse_pair(b, j, true),
            Opcode::Push => parse_push(b, j),
            Opcode::Append => parse_append(b, j),
            Opcode::Interrupt => parse_interrupt(b, j),
            Opcode::Calculate => parse_calculate(b, j),
            Opcode::Compare => parse_compare(b, j),
            Opcode::Bitwise => parse_bitwise(b, j),
            Opcode::Jump => parse_jump(b, j),
            Opcode::JumpC => parse_jumpc(b, j),
            Opcode::Call => parse_call(b, j),
            Opcode::Return => Step::Done(InstrView::Return, j),
            Opcode::StoreLocal => parse_local(b, j, true),
            Opcode::LoadLocal => parse_local(b, j, false),
            Opcode::Dispatch => parse_dispatch(b, j),
            _ => Step::Fail(ParseErrorView::InvalidOpcode(opcode_index(op)), j),
        }
    }
}

/// Why decoding stopped without an instruction.
pub enum Stop {
    /// The bytecode is malformed; the error that the parser reports.
    Error(BytecodeError),
    /// The bytecode is malformed in a way on which decoding gives up without an error.
    GaveUp,
}

/// Whether an exec result and the parser's position agree with a decoding step, where a
/// step that gives up is reported as such (the position is then left open).
pub open spec fn agrees_total<A: View>(s: Step<A::V>, r: Result<A, Stop>, index: int) -> bool {
    match s {
        Step::Done(v, j) => r matches Ok(x) && x@ == v && index == j,
        Step::Fail(e, j) => r matches Err(Stop::Error(x)) && x@ == e && index == j,
        Step::Abort => r matches Err(Stop::GaveUp),
    }
}

/// Whether an exec result and the parser's position agree with a decoding step.
pub open spec fn agrees<A: View>(s: Step<A::V>, r: Result<A, BytecodeError>, index: int) -> bool {
    match s {
        Step::Done(v, j) => r matches Ok(x) && x@ == v && index == j,
        Step::Fail(e, j) => r matches Err(x) && x@ == e && index == j,
        Step::Abort => false,
    }
}


/// A decoder that reads instructions from bytecode, one at a time.
pub struct BytecodeParser {
    /// The program bytecode.
    pub bytecode: Vec<u8>,
    /// The current position in the bytecode.
    pub index: usize,
    /// Whether to print debug output.
    pub debug: bool,
}

/// The UTF-8 text of an operand; decoding gives up on one that is not UTF-8.
fn text_of(bytes: Vec<u8>) -> (r: Result<String, Stop>)
    ensures
        valid_utf8(bytes@) ==> (r matches Ok(s) && s@ == decode_utf8(bytes@)),
        !valid_utf8(bytes@) ==> r matches Err(Stop::GaveUp),
{
    match string_from_utf8(bytes) {
        Ok(s) => Ok(s),
        Err(_) => Err(Stop::GaveUp),
    }
}

/// The register value of an operand; decoding gives up on one that is not a value.
fn value_of(bytes: Vec<u8>) -> (r: Result<RegisterValue, Stop>)
    ensures
        decode_value(bytes@) matches Ok(v) ==> (r matches Ok(x) && x@ == v),
        decode_value(bytes@) is Err ==> r matches Err(Stop::GaveUp),
{
    match RegisterValue::from_bytes(bytes) {
        Ok(v) => Ok(v),
        Err(_) => Err(Stop::GaveUp),
    }
}

impl BytecodeParser {
    /// Whether `other` reads the same bytecode with the same settings.
    pub open spec fn same_input(&self, other: &BytecodeParser) -> bool {
        &&& self.bytecode == other.bytecode
        &&& self.debug == other.debug
    }

    /// The bytecode that this parser reads.
    pub open spec fn bytes(&self) -> Seq<u8> {
        self.bytecode@
    }

    /// A parser at the start of `bytecode`.
    pub fn new(bytecode: Vec<u8>, debug: bool) -> (p: BytecodeParser)
        ensures
            p.bytecode@ == bytecode@,
            p.index == 0,
            p.debug == debug,
    {
        BytecodeParser { bytecode, index: 0, debug }
    }

    /// Replace the bytecode and start again at its beginning.
    pub fn set_bytecode(&mut self, bytecode: Vec<u8>)
        ensures
            final(self).bytecode@ == bytecode@,
            final(self).index == 0,
            final(self).debug == old(self).debug,
    {
        self.bytecode = bytecode;
        self.index = 0;
    }

    /// Whether the parser has reached the end of the bytecode.
    pub fn eof(&self) -> (r: bool)
        ensures
            r == (self.index >= self.bytecode.len()),
    {
        self.index >= self.bytecode.len()
    }

    /// The byte at the current position.
    fn peek(&self) -> (b: u8)
        requires
            self.index < self.bytecode.len(),
        ensures
            b == self.bytecode@[self.index as int],
    {
        self.bytecode[self.index]
    }

    /// Advance the parser by one byte if possible.
    fn advance(&mut self) -> (r: Result<(), Stop>)
        ensures
            final(self).same_input(old(self)),
            old(self).index < old(self).bytecode.len() ==> r is Ok && final(self).index == old(self).index + 1,
            old(self).index >= old(self).bytecode.len() ==> (r matches Err(Stop::Error(e)) && e@ == ParseErrorView::UnexpectedEof(
                old(self).index as u32,
            ) && final(self).index == old(self).index),
    {
        if !self.eof() {
            self.index = self.index + 1;
            Ok(())
        } else {
            Err(Stop::Error(BytecodeError::UnexpectedEof(self.index as u32)))
        }
    }

    /// Consume a number of bytes starting from the current position.
    fn consume_n_bytes(&mut self, n: usize) -> (r: Result<Vec<u8>, Stop>)
        requires
            old(self).index <= old(self).bytecode.len(),
        ensures
            final(self).same_input(old(self)),
            agrees_total(p_bytes(old(self).bytes(), old(self).index as int, n as int), r, final(self).index as int),
    {
        if n > self.bytecode.len() - self.index {
            Err(Stop::Error(BytecodeError::UnexpectedEof(self.index as u32)))
        } else {
            let start = self.index;
            let end = start + n;
            self.index = end;
            let v = slice_to_vec(vstd::slice::slice_subrange(self.bytecode.as_slice(), start, end));
            Ok(v)
        }
    }

    /// Consume the byte at the current position.
    fn consume_byte(&mut self) -> (b: u8)
        requires
            old(self).index < old(self).bytecode.len(),
        ensures
            final(self).same_input(old(self)),
            b == old(self).bytes()[old(self).index as int],
            final(self).index == old(self).index + 1,
    {
        let byte = self.peek();
        self.index = self.index + 1;
        byte
    }

    /// Consume a length byte and that many bytes.
    fn consume_field(&mut self) -> (r: Result<Vec<u8>, Stop>)
        requires
            old(self).index <= old(self).bytecode.len(),
        ensures
            final(self).same_input(old(self)),
            final(self).index <= final(self).bytecode.len(),
            agrees_total(p_raw(old(self).bytes(), old(self).index as int), r, final(self).index as int),
    {
        if self.eof() {
            return Err(Stop::GaveUp);
        }
        let len = self.consume_byte();
        self.consume_n_bytes(len as usize)
    }

    /// Consume a little-endian `u32`.
    fn consume_u32(&mut self) -> (r: Result<u32, Stop>)
        requires
            old(self).index <= old(self).bytecode.len(),
        ensures
            final(self).same_input(old(self)),
            agrees_total(p_u32(old(self).bytes(), old(self).index as int), r, final(self).index as int),
    {
        let bytes = self.consume_n_bytes(4)?;
        Ok(read_u32_le(bytes.as_slice()))
    }

    /// Consume a length-prefixed UTF-8 string.
    fn consume_string(&mut self) -> (r: Result<String, Stop>)
        requires
            old(self).index <= old(self).bytecode.len(),
        ensures
            final(self).same_input(old(self)),
            agrees_total(p_string(old(self).bytes(), old(self).index as int), r, final(self).index as int),
    {
        let bytes = self.consume_field()?;
        match string_from_utf8(bytes) {
            Ok(string) => Ok(string),
            Err(e) => Err(Stop::Error(BytecodeError::Utf8Error(e))),
        }
    }
}


impl BytecodeParser {
    /// Expect an exact sequence of bytes at the current position and move past it; bytes
    /// that end too early or differ are an error, and the position stays.
    fn expect_bytes(&mut self, expected: Vec<u8>) -> (r: Result<(), Stop>)
        requires
            old(self).index <= old(self).bytecode.len(),
        ensures
            final(self).same_input(old(self)),
            old(self).index + expected@.len() > old(self).bytecode.len() ==> (r matches Err(Stop::Error(e)) && e@
                == ParseErrorView::UnexpectedEof(old(self).index as u32) && final(self).index == old(self).index),
            old(self).index + expected@.len() <= old(self).bytecode.len() ==> {
                let actual = old(self).bytes().subrange(
                    old(self).index as int,
                    old(self).index + expected@.len(),
                );
                &&& actual == expected@ ==> r is Ok && final(self).index == old(self).index + expected@.len()
                &&& actual != expected@ ==> (r matches Err(Stop::Error(e)) && e@ == ParseErrorView::UnexpectedBytes {
                    expected: expected@,
                    actual,
                } && final(self).index == old(self).index)
            },
    {
        let n = expected.len();
        if n > self.bytecode.len() - self.index {
            return Err(Stop::Error(BytecodeError::UnexpectedEof(self.index as u32)));
        }
        let start = self.index;
        let actual = slice_to_vec(vstd::slice::slice_subrange(self.bytecode.as_slice(), start, start + n));
        let mut same = true;
        let mut k: usize = 0;
        while k < n
            invariant
                k <= n,
                n == expected@.len(),
                actual@.len() == n,
                same <==> (forall|m: int| 0 <= m < k ==> actual@[m] == expected@[m]),
            decreases n - k,
        {
            if actual[k] != expected[k] {
                same = false;
            }
            k = k + 1;
        }
        if same {
            assert(actual@ =~= expected@);
            self.index = start + n;
            Ok(())
        } else {
            assert(actual@ != expected@);
            Err(Stop::Error(BytecodeError::UnexpectedBytes { expected, actual }))
        }
    }

    /// Expect the seven zero bytes of a `HALT`.
    fn read_halt(&mut self) -> (r: Result<Instruction, Stop>)
        requires
            old(self).index <= old(self).bytecode.len(),
        ensures
            final(self).same_input(old(self)),
            agrees_total(parse_halt(old(self).bytes(), old(self).index as int), r, final(self).index as int),
    {
        let expected: Vec<u8> = vec![0u8, 0u8, 0u8, 0u8, 0u8, 0u8, 0u8];
        assert(expected@ =~= halt_padding());
        self.expect_bytes(expected)?;
        Ok(Instruction::Halt)
    }

    fn read_load(&mut self) -> (r: Result<Instruction, Stop>)
        requires
            old(self).index <= old(self).bytecode.len(),
        ensures
            final(self).same_input(old(self)),
            agrees_total(parse_load(old(self).bytes(), old(self).index as int), r, final(self).index as int),
    {
        let register = self.consume_string()?;
        if self.eof() {
            return Err(Stop::GaveUp);
        }
        let value_len = self.consume_byte();
        let consumed = self.consume_n_bytes(value_len as usize)?;
        let value = value_of(consumed)?;
        Ok(Instruction::Load { value, register })
    }

    fn read_pair(&mut self, copy: bool) -> (r: Result<Instruction, Stop>)
        requires
            old(self).index <= old(self).bytecode.len(),
        ensures
            final(self).same_input(old(self)),
            agrees_total(parse_pair(old(self).bytes(), old(self).index as int, copy), r, final(self).index as int),
    {
        let source = self.consume_field()?;
        let destination = self.consume_field()?;
        let source = text_of(source)?;
        let destination = text_of(destination)?;
        if copy {
            Ok(Instruction::Copy { source, destination })
        } else {
            Ok(Instruction::Move { source, destination })
        }
    }

    fn read_push(&mut self) -> (r: Result<Instruction, Stop>)
        requires
            old(self).index <= old(self).bytecode.len(),
        ensures
            final(self).same_input(old(self)),
            agrees_total(parse_push(old(self).bytes(), old(self).index as int), r, final(self).index as int),
    {
        let destination = self.consume_field()?;
        let value = self.consume_field()?;
        let value = value_of(value)?;
        let destination = text_of(destination)?;
        Ok(Instruction::Push { destination, value })
    }

    fn read_append(&mut self) -> (r: Result<Instruction, Stop>)
        requires
            old(self).index <= old(self).bytecode.len(),
        ensures
            final(self).same_input(old(self)),
            agrees_total(parse_append(old(self).bytes(), old(self).index as int), r, final(self).index as int),
    {
        let ghost b = self.bytes();
        let destination = self.consume_field()?;
        let ghost i2 = self.index as int;
        let mut values: Vec<RegisterValue> = Vec::new();
        while !self.eof()
            invariant
                self.bytes() == b,
                self.same_input(old(self)),
                old(self).bytes() == b,
                self.index <= b.len(),
                p_values(b, i2) == prepend_values(values_view(values@), p_values(b, self.index as int)),
                p_raw(b, old(self).index as int) == Step::Done(destination@, i2),
            decreases b.len() - self.index,
        {
            let ghost i = self.index as int;
            let consumed = self.consume_field()?;
            let ghost j = self.index as int;
            let value = value_of(consumed)?;
            let ghost old_values = values@;
            values.push(value);
            proof {
                assert(values_view(values@) =~= values_view(old_values).push(value@));
                let vv = values_view(old_values);
                match p_values(b, j) {
                    Step::Done(rest, k) => {
                        assert(vv + (seq![value@] + rest) =~= vv.push(value@) + rest);
                    },
                    _ => {},
                }
            }
        }
        proof {
            assert(values_view(values@) + Seq::<ValueView>::empty() =~= values_view(values@));
        }
        let destination = text_of(destination)?;
        Ok(Instruction::Append { destination, value: values })
    }

    fn read_interrupt(&mut self) -> (r: Result<Instruction, Stop>)
        requires
            old(self).index <= old(self).bytecode.len(),
        ensures
            final(self).same_input(old(self)),
            agrees_total(parse_interrupt(old(self).bytes(), old(self).index as int), r, final(self).index as int),
    {
        if self.eof() {
            return Err(Stop::GaveUp);
        }
        let interrupt = self.consume_byte();
        let address = self.consume_string();
        let address = address?;
        if interrupt > 2 {
            return Err(Stop::GaveUp);
        }
        let kind = InterruptKind::from_byte(interrupt);
        Ok(Instruction::Interrupt { interrupt: Interrupt { address, kind } })
    }

    /// Consume the three raw operands of a calculation or comparison.
    fn consume_three(&mut self) -> (r: Result<(Vec<u8>, Vec<u8>, Vec<u8>), Stop>)
        requires
            old(self).index <= old(self).bytecode.len(),
        ensures
            final(self).same_input(old(self)),
            match p_three(old(self).bytes(), old(self).index as int) {
                Step::Done(ops, j) => r matches Ok(x) && x.0@ == ops.0 && x.1@ == ops.1 && x.2@ == ops.2
                    && final(self).index == j,
                Step::Fail(e, j) => r matches Err(Stop::Error(x)) && x@ == e && final(self).index == j,
                Step::Abort => r matches Err(Stop::GaveUp),
            },
    {
        let operand1 = self.consume_field()?;
        let operand2 = self.consume_field()?;
        let destination = self.consume_field()?;
        Ok((operand1, operand2, destination))
    }

    fn read_calculate(&mut self) -> (r: Result<Instruction, Stop>)
        requires
            old(self).index <= old(self).bytecode.len(),
        ensures
            final(self).same_input(old(self)),
            agrees_total(parse_calculate(old(self).bytes(), old(self).index as int), r, final(self).index as int),
    {
        if self.eof() {
            return Err(Stop::GaveUp);
        }
        let method = self.consume_byte();
        let (operand1, operand2, destination) = self.consume_three()?;
        if method > 7 {
            return Err(Stop::GaveUp);
        }
        Ok(Instruction::Calculate {
            method: CalculationMethod::from_byte(method),
            operand1: text_of(operand1)?,
            operand2: text_of(operand2)?,
            destination: text_of(destination)?,
        })
    }

    fn read_compare(&mut self) -> (r: Result<Instruction, Stop>)
        requires
            old(self).index <= old(self).bytecode.len(),
        ensures
            final(self).same_input(old(self)),
            agrees_total(parse_compare(old(self).bytes(), old(self).index as int), r, final(self).index as int),
    {
        if self.eof() {
            return Err(Stop::GaveUp);
        }
        let method = self.consume_byte();
        let (operand1, operand2, destination) = self.consume_three()?;
        if method > 5 {
            return Err(Stop::GaveUp);
        }
        Ok(Instruction::Compare {
            method: ComparisonMethod::from_byte(method),
            operand1: text_of(operand1)?,
            operand2: text_of(operand2)?,
            destination: text_of(destination)?,
        })
    }

    fn read_bitwise(&mut self) -> (r: Result<Instruction, Stop>)
        requires
            old(self).index <= old(self).bytecode.len(),
        ensures
            final(self).same_input(old(self)),
            agrees_total(parse_bitwise(old(self).bytes(), old(self).index as int), r, final(self).index as int),
    {
        if self.eof() {
            return Err(Stop::GaveUp);
        }
        let method_byte = self.consume_byte();
        let method = if method_byte <= 2 {
            let a = self.consume_string()?;
            let b = self.consume_string()?;
            let out = self.consume_string()?;
            if method_byte == 0 {
                BitwiseMethod::AND { a, b, out }
            } else if method_byte == 1 {
                BitwiseMethod::OR { a, b, out }
            } else {
                BitwiseMethod::XOR { a, b, out }
            }
        } else if method_byte == 3 {
            BitwiseMethod::NOT { a: String::new(), out: String::new() }
        } else if method_byte == 4 || method_byte == 5 {
            let a = self.consume_string()?;
            let out = self.consume_string()?;
            if self.eof() {
                return Err(Stop::GaveUp);
            }
            let amount = self.consume_byte();
            if method_byte == 4 {
                BitwiseMethod::LSH { a, out, amount: amount as u32 }
            } else {
                BitwiseMethod::RSH { a, out, amount: amount as u32 }
            }
        } else {
            return Err(Stop::Error(BytecodeError::InvalidOpcode(method_byte)));
        };
        Ok(Instruction::Bitwise { method })
    }

    fn read_jump(&mut self) -> (r: Result<Instruction, Stop>)
        requires
            old(self).index <= old(self).bytecode.len(),
        ensures
            final(self).same_input(old(self)),
            agrees_total(parse_jump(old(self).bytes(), old(self).index as int), r, final(self).index as int),
    {
        let destination = self.consume_u32()?;
        Ok(Instruction::Jump { destination })
    }

    fn read_jumpc(&mut self) -> (r: Result<Instruction, Stop>)
        requires
            old(self).index <= old(self).bytecode.len(),
        ensures
            final(self).same_input(old(self)),
            agrees_total(parse_jumpc(old(self).bytes(), old(self).index as int), r, final(self).index as int),
    {
        let destination = self.consume_u32()?;
        let conditional_address = self.consume_string()?;
        Ok(Instruction::JumpC { destination, conditional_address })
    }

    fn read_call(&mut self) -> (r: Result<Instruction, Stop>)
        requires
            old(self).index <= old(self).bytecode.len(),
        ensures
            final(self).same_input(old(self)),
            agrees_total(parse_call(old(self).bytes(), old(self).index as int), r, final(self).index as int),
    {
        let address = self.consume_u32()? as usize;
        Ok(Instruction::Call { address })
    }

    fn read_local(&mut self, store: bool) -> (r: Result<Instruction, Stop>)
        requires
            old(self).index <= old(self).bytecode.len(),
        ensures
            final(self).same_input(old(self)),
            agrees_total(parse_local(old(self).bytes(), old(self).index as int, store), r, final(self).index as int),
    {
        let name = self.consume_string()?;
        let register = self.consume_string()?;
        if store {
            Ok(Instruction::StoreLocal { name, register })
        } else {
            Ok(Instruction::LoadLocal { name, register })
        }
    }

    fn read_dispatch(&mut self) -> (r: Result<Instruction, Stop>)
        requires
            old(self).index <= old(self).bytecode.len(),
        ensures
            final(self).same_input(old(self)),
            agrees_total(parse_dispatch(old(self).bytes(), old(self).index as int), r, final(self).index as int),
    {
        let method_name = self.consume_string()?;
        Ok(Instruction::Dispatch { method_name })
    }

    /// Decode the instruction at the current position and move past it, reporting bytecode
    /// on which decoding gives up (a read past the end where a length byte is due, an
    /// operand that is not UTF-8 or not a value, an unknown interrupt or method byte).
    ///
    /// On an error the position is where decoding stopped.
    pub fn next_instruction(&mut self) -> (r: Result<Instruction, Stop>)
        ensures
            final(self).same_input(old(self)),
            agrees_total(parse_at(old(self).bytes(), old(self).index as int), r, final(self).index as int),
    {
        reveal(parse_at);
        if self.eof() {
            return Err(Stop::Error(BytecodeError::UnexpectedEof(self.index as u32)));
        }
        let opcode = Opcode::from_byte(self.bytecode[self.index]);
        self.index = self.index + 1;
        match opcode {
            Opcode::Halt => self.read_halt(),
            Opcode::Load => self.read_load(),
            Opcode::Move => self.read_pair(false),
            Opcode::Copy => self.read_pair(true),
            Opcode::Push => self.read_push(),
            Opcode::Append => self.read_append(),
            Opcode::Interrupt => self.read_interrupt(),
            Opcode::Calculate => self.read_calculate(),
            Opcode::Compare => self.read_compare(),
            Opcode::Bitwise => self.read_bitwise(),
            Opcode::Jump => self.read_jump(),
            Opcode::JumpC => self.read_jumpc(),
            Opcode::Call => self.read_call(),
            Opcode::Return => Ok(Instruction::Return),
            Opcode::StoreLocal => self.read_local(true),
            Opcode::LoadLocal => self.read_local(false),
            Opcode::Dispatch => self.read_dispatch(),
            _ => Err(Stop::Error(BytecodeError::InvalidOpcode(opcode.index()))),
        }
    }

    /// Decode the instruction at the current position and move past it.
    ///
    /// On an error the position is where decoding stopped. Bytecode on which decoding gives
    /// up without an error is left out.
    pub fn parse_instruction(&mut self) -> (r: Result<Instruction, BytecodeError>)
        requires
            !(parse_at(old(self).bytes(), old(self).index as int) is Abort),
        ensures
            final(self).same_input(old(self)),
            agrees(parse_at(old(self).bytes(), old(self).index as int), r, final(self).index as int),
    {
        match self.next_instruction() {
            Ok(instruction) => Ok(instruction),
            Err(Stop::Error(e)) => Err(e),
            Err(Stop::GaveUp) => Err(BytecodeError::UnexpectedEof(self.index as u32)),
        }
    }
}

/// Put decoded values in front of the values decoded after them.
pub open spec fn prepend_values(vs: Seq<ValueView>, s: Step<Seq<ValueView>>) -> Step<Seq<ValueView>> {
    match s {
        Step::Done(rest, k) => Step::Done(vs + rest, k),
        Step::Fail(e, k) => Step::Fail(e, k),
        Step::Abort => Step::Abort,
    }
}

/// The bytes of the `UInt8` values among `s`, in order; other values are skipped.
pub open spec fn kept_bytes(s: Seq<ValueView>) -> Seq<u8>
    decreases s.len(),
{
    if s.len() == 0 {
        Seq::empty()
    } else {
        kept_bytes(s.drop_last()) + match s.last() {
            ValueView::UInt8(b) => seq![b],
            _ => Seq::empty(),
        }
    }
}

impl BytecodeParser {
    /// The byte of a `UInt8` value; other values are left out.
    pub fn value_to_byte(&self, value: RegisterValue) -> (b: u8)
        requires
            value is UInt8,
        ensures
            b == value->UInt8_0,
    {
        match value {
            RegisterValue::UInt8(byte) => byte,
            _ => 0,
        }
    }

    /// The bytes of the `UInt8` values, in order; other values are skipped.
    pub fn values_to_bytes(&self, values: Vec<RegisterValue>) -> (r: Vec<u8>)
        ensures
            r@ == kept_bytes(values_view(values@)),
    {
        let mut out: Vec<u8> = Vec::new();
        let mut i: usize = 0;
        while i < values.len()
            invariant
                i <= values.len(),
                out@ == kept_bytes(values_view(values@).take(i as int)),
            decreases values.len() - i,
        {
            proof {
                assert(values_view(values@).take(i + 1).drop_last() =~= values_view(values@).take(i as int));
            }
            if let RegisterValue::UInt8(byte) = &values[i] {
                out.push(*byte);
            }
            proof {
                assert(out@ =~= kept_bytes(values_view(values@).take(i + 1)));
            }
            i = i + 1;
        }
        assert(values_view(values@).take(values.len() as int) =~= values_view(values@));
        out
    }
}

} // verus!
