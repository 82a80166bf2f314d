//! The virtual machine that executes Strontium bytecode.
pub mod arith;
pub mod bytecode;
pub mod cancel;
pub mod dispatch;
pub mod endian;
pub mod instruction;
pub mod laws;
pub mod memory;
pub mod opcode;
pub mod register;
pub mod step;
pub mod utf8;

use vstd::prelude::*;

use crate::machine::arith::Fault;
use crate::machine::bytecode::decode::{parse_at, BytecodeParser, Step, Stop};
use crate::machine::bytecode::encode::encode_instruction;
use crate::machine::dispatch::{dispatch_result, entry_view, with_variant, DispatchEntry, DispatchPattern, MultimethodTable};
use crate::machine::endian::{le_u16, le_u32, le_u64, read_i16_le, read_i32_le, read_i64_le, read_u16_le, read_u32_le, read_u64_le};
use crate::machine::instruction::executors::{
    BitwiseExecutor, CalculateExecutor, CallExecutor, CompareExecutor, CopyExecutor, DispatchExecutor, Executor, HaltExecutor,
    InterruptExecutor, JumpCExecutor, JumpExecutor, LoadExecutor, LoadLocalExecutor, LoadTypeExecutor, MoveExecutor,
    ReturnExecutor, StoreLocalExecutor,
};
use crate::machine::instruction::{is_pseudo, CalculationMethod, ComparisonMethod, Instruction};
use crate::machine::opcode::Opcode;
use crate::machine::register::{RegisterValue, Registers, ValueView};
use crate::machine::step::{
    advanced, all_bytes, bc_values, byte_values, bytes_of, consume_view, as_expected, step, Consumed, FrameView, MachineView,
    OutcomeView,
};
use crate::machine::utf8::string_from_utf8;
use vstd::utf8::{decode_utf8, valid_utf8};
use crate::types::error::StrontiumError;

verus! {

/// A frame of the call stack.
pub struct StackFrame {
    /// Where execution goes on after the call returns.
    pub return_address: usize,
    /// The local variables of the call.
    pub local_variables: Registers,
    /// The caller's numbered registers, restored when returning from this frame.
    pub saved_registers: Registers,
}

impl View for StackFrame {
    type V = FrameView;

    open spec fn view(&self) -> FrameView {
        FrameView { return_address: self.return_address, locals: self.local_variables@, saved: self.saved_registers@ }
    }
}

/// The views of the frames of a call stack.
pub open spec fn frames_view(s: Seq<StackFrame>) -> Seq<FrameView> {
    s.map_values(|f: StackFrame| f@)
}

/// What an execution step asks of the embedder, or how it ends.
#[derive(Debug, PartialEq)]
pub enum Outcome {
    /// The instruction ran; execution goes on.
    Continue,
    /// A `HALT` stopped execution.
    Halt,
    /// A `PRINT` interrupt: the embedder prints the value of the register (`nothing` for an
    /// empty one), or reports that the register does not exist.
    Print { address: String, value: Option<RegisterValue> },
    /// A `PANIC` interrupt: the embedder ends execution with a `MethodNotFound` error that
    /// shows the message register (or its name) and the `arg` register.
    Panic { address: String, message: Option<RegisterValue>, arg: Option<RegisterValue> },
    /// A calculation on two floating-point values, which the embedder performs and writes to
    /// the destination register.
    FloatCalculation { method: CalculationMethod, left: RegisterValue, right: RegisterValue, destination: String },
    /// A comparison of two floating-point values, whose result the embedder writes to the
    /// destination register as a boolean.
    FloatComparison { method: ComparisonMethod, left: RegisterValue, right: RegisterValue, destination: String },
    /// The machine stops: the embedder panics.
    Fault(Fault),
}

/// An optional value, taken by its view.
pub open spec fn option_view(v: Option<RegisterValue>) -> Option<ValueView> {
    match v {
        Some(x) => Some(x@),
        None => None,
    }
}

impl View for Outcome {
    type V = OutcomeView;

    open spec fn view(&self) -> OutcomeView {
        match self {
            Outcome::Continue => OutcomeView::Continue,
            Outcome::Halt => OutcomeView::Halt,
            Outcome::Print { address, value } => OutcomeView::Print { address: address@, value: option_view(*value) },
            Outcome::Panic { address, message, arg } => OutcomeView::Panic {
                address: address@,
                message: option_view(*message),
                arg: option_view(*arg),
            },
            Outcome::FloatCalculation { method, left, right, destination } => OutcomeView::FloatCalculation {
                method: *method,
                left: left@,
                right: right@,
                destination: destination@,
            },
            Outcome::FloatComparison { method, left, right, destination } => OutcomeView::FloatComparison {
                method: *method,
                left: left@,
                right: right@,
                destination: destination@,
            },
            Outcome::Fault(f) => OutcomeView::Fault(*f),
        }
    }
}

/// A step's result, taken by its view.
pub open spec fn result_view(r: Result<Outcome, StrontiumError>) -> Result<OutcomeView, crate::types::error::ErrorView> {
    match r {
        Ok(o) => Ok(o@),
        Err(e) => Err(e@),
    }
}

/// The Strontium virtual machine.
pub struct Strontium {
    /// Holds general-purpose registers for storing different types of values.
    pub registers: Registers,
    /// Kept for embedders; execution does not use it.
    pub ip: usize,
    /// Decodes the program; its position is the program counter.
    pub bytecode_parser: BytecodeParser,
    /// Whether execution goes on; a `HALT` clears it.
    pub should_continue: bool,
    /// Maps method names to dispatch entries for runtime multimethod dispatch.
    pub multimethod_table: MultimethodTable,
    /// The frames of the method calls in progress, innermost last.
    pub call_stack: Vec<StackFrame>,
    /// Whether to print debug output during execution.
    pub debug: bool,
}

/// The result of reading bytes from the bytecode register.
enum Fetched {
    Bytes(Vec<u8>),
    Eof,
    Malformed,
}

impl Strontium {
    /// The state of the machine.
    pub open spec fn view(&self) -> MachineView {
        MachineView {
            registers: self.registers@,
            bytecode: self.bytecode_parser.bytecode@,
            index: self.bytecode_parser.index,
            frames: frames_view(self.call_stack@),
            table: self.multimethod_table@,
            running: self.should_continue,
            ip: self.ip,
            debug: self.debug,
            decoder_debug: self.bytecode_parser.debug,
        }
    }

    /// A new machine: the registers of a fresh machine, no bytecode, an empty call stack and
    /// dispatch table, ready to run.
    pub fn new(debug: bool) -> (m: Strontium)
        ensures
            m@ == (MachineView {
                registers: crate::machine::register::initial_registers(),
                bytecode: Seq::empty(),
                index: 0,
                frames: Seq::empty(),
                table: Map::empty(),
                running: true,
                ip: 0,
                debug,
                decoder_debug: debug,
            }),
    {
        let m = Strontium {
            registers: Registers::new(),
            ip: 0,
            bytecode_parser: BytecodeParser::new(Vec::new(), debug),
            should_continue: true,
            multimethod_table: MultimethodTable::new(),
            call_stack: Vec::new(),
            debug,
        };
        assert(frames_view(m.call_stack@) =~= Seq::<FrameView>::empty());
        assert(m.bytecode_parser.bytecode@ =~= Seq::<u8>::empty());
        m
    }

    /// Register a method variant in the dispatch table, after the variants of higher or equal
    /// precedence.
    pub fn register_method(&mut self, name: String, pattern: DispatchPattern, address: usize)
        ensures
            final(self)@ == (MachineView { table: with_variant(old(self)@.table, name@, (pattern@, address)), ..old(self)@ }),
    {
        let entry = DispatchEntry { pattern, address };
        assert(entry_view(entry) == (pattern@, address));
        self.multimethod_table.register(name, entry);
    }

    /// The bytecode address of the first variant of a method that matches the argument, or
    /// `None` if none matches.
    pub fn dispatch(&self, name: &str, arg: &RegisterValue) -> (r: Option<usize>)
        ensures
            r == dispatch_result(self@.table, name@, arg@),
    {
        self.multimethod_table.dispatch(name, arg)
    }

    /// Reset the machine for a new execution: empty the bytecode register and the decoder,
    /// clear the call stack and let execution go on.
    pub fn reset(&mut self)
        ensures
            final(self)@ == (MachineView {
                registers: old(self)@.registers.insert("bc"@, ValueView::List(Seq::empty())),
                bytecode: Seq::empty(),
                index: 0,
                frames: Seq::empty(),
                running: true,
                ..old(self)@
            }),
    {
        let bc = RegisterValue::Array(Vec::new());
        assert(bc@->List_0 =~= Seq::<ValueView>::empty());
        self.registers.set("bc", bc);
        self.bytecode_parser.set_bytecode(Vec::new());
        self.should_continue = true;
        self.call_stack.clear();
        assert(frames_view(self.call_stack@) =~= Seq::<FrameView>::empty());
        assert(self.bytecode_parser.bytecode@ =~= Seq::<u8>::empty());
    }

    /// Abort the running program, keeping loaded methods and registers.
    pub fn abort_execution(&mut self)
        ensures
            final(self)@ == (MachineView { frames: Seq::empty(), running: false, ..old(self)@ }),
    {
        self.should_continue = false;
        self.call_stack.clear();
        assert(frames_view(self.call_stack@) =~= Seq::<FrameView>::empty());
    }

    /// Stop the running program because the embedder asked for it: the program is
    /// aborted as by `abort_execution`, and the run reports `Interrupted`.
    pub fn interrupt(&mut self) -> (e: StrontiumError)
        ensures
            e is Interrupted,
            final(self)@ == (MachineView { frames: Seq::empty(), running: false, ..old(self)@ }),
    {
        self.abort_execution();
        StrontiumError::Interrupted
    }

    /// Let execution go on, as a run of the machine does before its first step.
    pub fn begin_run(&mut self)
        ensures
            final(self)@ == (MachineView { running: true, ..old(self)@ }),
    {
        self.should_continue = true;
    }

    /// Read `size` bytes of the bytecode register at position `ip`.
    fn fetch(&mut self, ip: usize, size: usize) -> (r: Fetched)
        ensures
            match consume_view(old(self)@.registers, ip as int, size as int) {
                Consumed::Bytes(b) => r matches Fetched::Bytes(v) && v@ == b && final(self)@ == (MachineView {
                    registers: advanced(old(self)@.registers, ip as int, size as int),
                    ..old(self)@
                }),
                Consumed::Eof => r is Eof && final(self)@ == old(self)@,
                Consumed::Malformed => r is Malformed && final(self)@ == old(self)@,
            },
    {
        let fetched = match self.registers.get("bc") {
            Some(RegisterValue::Array(values)) => {
                let ghost bc = values@.map_values(|v: RegisterValue| v@);
                assert(bc =~= bc_values(self@.registers)->0);
                if size > values.len() || ip > values.len() - size {
                    Fetched::Eof
                } else {
                    let mut bytes: Vec<u8> = Vec::new();
                    let mut k: usize = 0;
                    let mut ok = true;
                    while k < size
                        invariant
                            k <= size,
                            ip + size <= values.len(),
                            bc == values@.map_values(|v: RegisterValue| v@),
                            ok ==> bytes@.len() == k,
                            ok ==> all_bytes(bc.subrange(ip as int, ip + k)),
                            ok ==> bytes@ == bytes_of(bc.subrange(ip as int, ip + k)),
                            !ok ==> !all_bytes(bc.subrange(ip as int, ip + size)),
                        decreases size - k,
                    {
                        if ok {
                            match &values[ip + k] {
                                RegisterValue::UInt8(b) => {
                                    bytes.push(*b);
                                    proof {
                                        assert(bc[ip + k] == ValueView::UInt8(*b));
                                        assert(bytes@ =~= bytes_of(bc.subrange(ip as int, ip + k + 1)));
                                        assert(all_bytes(bc.subrange(ip as int, ip + k + 1))) by {
                                            assert forall|i: int| 0 <= i < k + 1 implies #[trigger] bc.subrange(
                                                ip as int,
                                                ip + k + 1,
                                            )[i] is UInt8 by {
                                                if i < k {
                                                    assert(bc.subrange(ip as int, ip + k + 1)[i] == bc.subrange(ip as int, ip + k)[i]);
                                                }
                                            }
                                        }
                                    }
                                },
                                _ => {
                                    proof {
                                        assert(!(bc.subrange(ip as int, ip + size)[k as int] is UInt8));
                                    }
                                    ok = false;
                                },
                            }
                        }
                        k = k + 1;
                    }
                    if ok {
                        Fetched::Bytes(bytes)
                    } else {
                        Fetched::Malformed
                    }
                }
            },
            _ => Fetched::Malformed,
        };
        if let Fetched::Bytes(_) = fetched {
            self.registers.set("ip", RegisterValue::UInt64((ip + size) as u64));
        }
        fetched
    }
}

/// The state after a read of `size` bytes at the program counter.
pub open spec fn after_read(s: MachineView, size: int) -> MachineView {
    MachineView { registers: advanced(s.registers, s.index as int, size), ..s }
}

/// Whether a read of `size` bytes at the program counter does not fail on a missing or
/// malformed bytecode register (on which the machine panics).
pub open spec fn readable(s: MachineView, size: int) -> bool {
    !(consume_view(s.registers, s.index as int, size) is Malformed)
}

impl Strontium {
    /// Read `size` bytes of the bytecode register at the program counter, moving the `ip`
    /// register past them. The program counter itself stays. A read that would go past the
    /// last byte of the bytecode is an end-of-bytecode error.
    pub fn consume_bytes(&mut self, size: usize) -> (r: Result<Vec<u8>, StrontiumError>)
        requires
            readable(old(self)@, size as int),
        ensures
            match consume_view(old(self)@.registers, old(self)@.index as int, size as int) {
                Consumed::Bytes(b) => r matches Ok(v) && v@ == b && final(self)@ == after_read(old(self)@, size as int),
                _ => r matches Err(StrontiumError::UnexpectedEof) && final(self)@ == old(self)@,
            },
    {
        match self.fetch(self.bytecode_parser.index, size) {
            Fetched::Bytes(b) => Ok(b),
            _ => Err(StrontiumError::UnexpectedEof),
        }
    }

    /// Read an unsigned 64-bit integer at the program counter, little-endian as all Strontium
    /// bytecode.
    pub fn consume_u64(&mut self) -> (r: Result<u64, StrontiumError>)
        requires
            readable(old(self)@, 8),
        ensures
            match consume_view(old(self)@.registers, old(self)@.index as int, 8) {
                Consumed::Bytes(b) => r == Ok::<u64, StrontiumError>(le_u64(b)) && final(self)@ == after_read(old(self)@, 8),
                _ => r matches Err(StrontiumError::UnexpectedEof) && final(self)@ == old(self)@,
            },
    {
        let bytes = self.consume_bytes(8)?;
        Ok(read_u64_le(bytes.as_slice()))
    }

    /// Read an unsigned 32-bit integer at the program counter.
    pub fn consume_u32(&mut self) -> (r: Result<u32, StrontiumError>)
        requires
            readable(old(self)@, 4),
        ensures
            match consume_view(old(self)@.registers, old(self)@.index as int, 4) {
                Consumed::Bytes(b) => r == Ok::<u32, StrontiumError>(le_u32(b)) && final(self)@ == after_read(old(self)@, 4),
                _ => r matches Err(StrontiumError::UnexpectedEof) && final(self)@ == old(self)@,
            },
    {
        let bytes = self.consume_bytes(4)?;
        Ok(read_u32_le(bytes.as_slice()))
    }

    /// Read an unsigned 16-bit integer at the program counter.
    pub fn consume_u16(&mut self) -> (r: Result<u16, StrontiumError>)
        requires
            readable(old(self)@, 2),
        ensures
            match consume_view(old(self)@.registers, old(self)@.index as int, 2) {
                Consumed::Bytes(b) => r == Ok::<u16, StrontiumError>(le_u16(b)) && final(self)@ == after_read(old(self)@, 2),
                _ => r matches Err(StrontiumError::UnexpectedEof) && final(self)@ == old(self)@,
            },
    {
        let bytes = self.consume_bytes(2)?;
        Ok(read_u16_le(bytes.as_slice()))
    }

    /// Read a byte at the program counter.
    pub fn consume_u8(&mut self) -> (r: Result<u8, StrontiumError>)
        requires
            readable(old(self)@, 1),
        ensures
            match consume_view(old(self)@.registers, old(self)@.index as int, 1) {
                Consumed::Bytes(b) => r == Ok::<u8, StrontiumError>(b[0]) && final(self)@ == after_read(old(self)@, 1),
                _ => r matches Err(StrontiumError::UnexpectedEof) && final(self)@ == old(self)@,
            },
    {
        let bytes = self.consume_bytes(1)?;
        Ok(bytes[0])
    }

    /// Read a signed 64-bit integer at the program counter.
    pub fn consume_i64(&mut self) -> (r: Result<i64, StrontiumError>)
        requires
            readable(old(self)@, 8),
        ensures
            match consume_view(old(self)@.registers, old(self)@.index as int, 8) {
                Consumed::Bytes(b) => r == Ok::<i64, StrontiumError>(le_u64(b) as i64) && final(self)@ == after_read(old(self)@, 8),
                _ => r matches Err(StrontiumError::UnexpectedEof) && final(self)@ == old(self)@,
            },
    {
        let bytes = self.consume_bytes(8)?;
        Ok(read_i64_le(bytes.as_slice()))
    }

    /// Read a signed 32-bit integer at the program counter.
    pub fn consume_i32(&mut self) -> (r: Result<i32, StrontiumError>)
        requires
            readable(old(self)@, 4),
        ensures
            match consume_view(old(self)@.registers, old(self)@.index as int, 4) {
                Consumed::Bytes(b) => r == Ok::<i32, StrontiumError>(le_u32(b) as i32) && final(self)@ == after_read(old(self)@, 4),
                _ => r matches Err(StrontiumError::UnexpectedEof) && final(self)@ == old(self)@,
            },
    {
        let bytes = self.consume_bytes(4)?;
        Ok(read_i32_le(bytes.as_slice()))
    }

    /// Read a signed 16-bit integer at the program counter.
    pub fn consume_i16(&mut self) -> (r: Result<i16, StrontiumError>)
        requires
            readable(old(self)@, 2),
        ensures
            match consume_view(old(self)@.registers, old(self)@.index as int, 2) {
                Consumed::Bytes(b) => r == Ok::<i16, StrontiumError>(le_u16(b) as i16) && final(self)@ == after_read(old(self)@, 2),
                _ => r matches Err(StrontiumError::UnexpectedEof) && final(self)@ == old(self)@,
            },
    {
        let bytes = self.consume_bytes(2)?;
        Ok(read_i16_le(bytes.as_slice()))
    }

    /// Read a signed byte at the program counter.
    pub fn consume_i8(&mut self) -> (r: Result<i8, StrontiumError>)
        requires
            readable(old(self)@, 1),
        ensures
            match consume_view(old(self)@.registers, old(self)@.index as int, 1) {
                Consumed::Bytes(b) => r == Ok::<i8, StrontiumError>(b[0] as i8) && final(self)@ == after_read(old(self)@, 1),
                _ => r matches Err(StrontiumError::UnexpectedEof) && final(self)@ == old(self)@,
            },
    {
        let bytes = self.consume_bytes(1)?;
        Ok(bytes[0] as i8)
    }

    /// Read a byte at the program counter as a boolean: `true` exactly when it is 1.
    pub fn consume_bool(&mut self) -> (r: Result<bool, StrontiumError>)
        requires
            readable(old(self)@, 1),
        ensures
            match consume_view(old(self)@.registers, old(self)@.index as int, 1) {
                Consumed::Bytes(b) => r == Ok::<bool, StrontiumError>(b[0] == 1) && final(self)@ == after_read(old(self)@, 1),
                _ => r matches Err(StrontiumError::UnexpectedEof) && final(self)@ == old(self)@,
            },
    {
        let bytes = self.consume_bytes(1)?;
        Ok(bytes[0] == 1)
    }

    /// Read a byte at the program counter.
    pub fn consume_byte(&mut self) -> (r: Result<u8, StrontiumError>)
        requires
            readable(old(self)@, 1),
        ensures
            match consume_view(old(self)@.registers, old(self)@.index as int, 1) {
                Consumed::Bytes(b) => r == Ok::<u8, StrontiumError>(b[0]) && final(self)@ == after_read(old(self)@, 1),
                _ => r matches Err(StrontiumError::UnexpectedEof) && final(self)@ == old(self)@,
            },
    {
        self.consume_u8()
    }

    /// Read a string at the program counter: a little-endian `u32` length, then that many
    /// bytes of UTF-8 right after it. The `ip` register moves past the text; the program
    /// counter stays.
    pub fn consume_string(&mut self) -> (r: Result<String, StrontiumError>)
        requires
            readable(old(self)@, 4),
            consume_view(old(self)@.registers, old(self)@.index as int, 4) matches Consumed::Bytes(lb) ==> !(consume_view(
                after_read(old(self)@, 4).registers,
                old(self)@.index + 4,
                le_u32(lb) as int,
            ) is Malformed),
        ensures
            match consume_view(old(self)@.registers, old(self)@.index as int, 4) {
                Consumed::Bytes(lb) => {
                    let s1 = after_read(old(self)@, 4);
                    let start = old(self)@.index + 4;
                    match consume_view(s1.registers, start, le_u32(lb) as int) {
                        Consumed::Bytes(sb) => final(self)@ == (MachineView {
                            registers: advanced(s1.registers, start, le_u32(lb) as int),
                            ..s1
                        }) && if valid_utf8(sb) {
                            r matches Ok(x) && x@ == decode_utf8(sb)
                        } else {
                            r matches Err(StrontiumError::InvalidUtf8String)
                        },
                        _ => r matches Err(StrontiumError::UnexpectedEof) && final(self)@ == s1,
                    }
                },
                _ => r matches Err(StrontiumError::UnexpectedEof) && final(self)@ == old(self)@,
            },
    {
        let length = self.consume_u32()?;
        let bc_len = self.bc_len();
        let start = self.bytecode_parser.index + 4;
        let bytes = match self.fetch(start, length as usize) {
            Fetched::Bytes(b) => b,
            _ => return Err(StrontiumError::UnexpectedEof),
        };
        match string_from_utf8(bytes) {
            Ok(string) => Ok(string),
            Err(_) => Err(StrontiumError::InvalidUtf8String),
        }
    }
}

impl Strontium {
    /// The number of values in the bytecode register.
    fn bc_len(&self) -> (r: usize)
        requires
            bc_values(self@.registers) is Some,
        ensures
            r == bc_values(self@.registers)->0.len(),
    {
        match self.registers.get("bc") {
            Some(RegisterValue::Array(values)) => values.len(),
            _ => 0,
        }
    }

    /// A copy of the values in the bytecode register.
    fn bc(&self) -> (r: Vec<RegisterValue>)
        requires
            bc_values(self@.registers) is Some,
        ensures
            r@.map_values(|v: RegisterValue| v@) == bc_values(self@.registers)->0,
    {
        match self.registers.get("bc") {
            Some(RegisterValue::Array(values)) => {
                let mut out: Vec<RegisterValue> = Vec::new();
                let mut i: usize = 0;
                while i < values.len()
                    invariant
                        i <= values.len(),
                        out@.len() == i,
                        forall|j: int| 0 <= j < i ==> #[trigger] out@[j]@ == values@[j]@,
                    decreases values.len() - i,
                {
                    out.push(values[i].duplicate());
                    i = i + 1;
                }
                assert(out@.map_values(|v: RegisterValue| v@) =~= values@.map_values(|v: RegisterValue| v@));
                out
            },
            _ => Vec::new(),
        }
    }

    /// Whether the program counter is at (or past) the end of the bytecode register.
    pub fn eof(&self) -> (r: bool)
        requires
            bc_values(self@.registers) is Some,
        ensures
            r == (self@.index >= bc_values(self@.registers)->0.len()),
    {
        match self.registers.get("bc") {
            Some(RegisterValue::Array(values)) => {
                assert(values@.len() == bc_values(self@.registers)->0.len());
                self.bytecode_parser.index >= values.len()
            },
            _ => false,
        }
    }

    /// Whether a run of the machine takes another step: execution goes on and the program
    /// counter is not at the end of the bytecode register.
    pub fn should_step(&self) -> (r: bool)
        requires
            self@.running ==> bc_values(self@.registers) is Some,
        ensures
            r == (self@.running && !(self@.index >= bc_values(self@.registers)->0.len())),
    {
        self.should_continue && !self.eof()
    }

    /// Append bytes to the bytecode register, as `UInt8` values. The decoder is left as it is.
    pub fn push_bytecode(&mut self, bytes: Vec<u8>)
        requires
            bc_values(old(self)@.registers) is Some,
        ensures
            final(self)@ == (MachineView {
                registers: old(self)@.registers.insert(
                    "bc"@,
                    ValueView::List(bc_values(old(self)@.registers)->0 + byte_values(bytes@)),
                ),
                ..old(self)@
            }),
    {
        let mut bytecode = self.bc();
        let ghost start = bytecode@.map_values(|v: RegisterValue| v@);
        let mut i: usize = 0;
        while i < bytes.len()
            invariant
                i <= bytes.len(),
                bytecode@.map_values(|v: RegisterValue| v@) == start + byte_values(bytes@.take(i as int)),
            decreases bytes.len() - i,
        {
            let ghost before = bytecode@;
            bytecode.push(RegisterValue::UInt8(bytes[i]));
            proof {
                assert(bytecode@.map_values(|v: RegisterValue| v@) =~= before.map_values(|v: RegisterValue| v@).push(
                    ValueView::UInt8(bytes@[i as int]),
                ));
                assert(byte_values(bytes@.take(i + 1)) =~= byte_values(bytes@.take(i as int)).push(ValueView::UInt8(bytes@[i as int])));
                assert(bytecode@.map_values(|v: RegisterValue| v@) =~= start + byte_values(bytes@.take(i + 1)));
            }
            i = i + 1;
        }
        assert(bytes@.take(bytes@.len() as int) =~= bytes@);
        let value = RegisterValue::Array(bytecode);
        assert(value@->List_0 =~= bytecode@.map_values(|v: RegisterValue| v@));
        self.registers.set("bc", value);
    }

    /// Append the bytecode of an instruction to the bytecode register and hand the whole
    /// bytecode to the decoder, which starts again at its beginning.
    pub fn push_instruction(&mut self, instruction: Instruction)
        requires
            !is_pseudo(instruction@),
            bc_values(old(self)@.registers) is Some,
            all_bytes(bc_values(old(self)@.registers)->0),
        ensures
            final(self)@ == (MachineView {
                registers: old(self)@.registers.insert(
                    "bc"@,
                    ValueView::List(bc_values(old(self)@.registers)->0 + byte_values(encode_instruction(instruction@))),
                ),
                bytecode: bytes_of(bc_values(old(self)@.registers)->0) + encode_instruction(instruction@),
                index: 0,
                ..old(self)@
            }),
    {
        let mut bytecode = self.bc();
        let ghost start = bytecode@.map_values(|v: RegisterValue| v@);
        let decoded = instruction.to_bytes();
        let mut raw: Vec<u8> = Vec::new();
        let mut i: usize = 0;
        while i < bytecode.len()
            invariant
                i <= bytecode.len(),
                bytecode@.map_values(|v: RegisterValue| v@) == start,
                all_bytes(start),
                raw@ == bytes_of(start.take(i as int)),
            decreases bytecode.len() - i,
        {
            match &bytecode[i] {
                RegisterValue::UInt8(b) => raw.push(*b),
                _ => {
                    assert(!(start[i as int] is UInt8));
                },
            }
            proof {
                assert(start[i as int] is UInt8);
                assert(raw@ =~= bytes_of(start.take(i + 1)));
            }
            i = i + 1;
        }
        assert(start.take(start.len() as int) =~= start);
        let ghost prefix = raw@;
        let mut k: usize = 0;
        while k < decoded.len()
            invariant
                k <= decoded.len(),
                bytecode@.map_values(|v: RegisterValue| v@) == start + byte_values(decoded@.take(k as int)),
                raw@ == prefix + decoded@.take(k as int),
            decreases decoded.len() - k,
        {
            let ghost before = bytecode@;
            bytecode.push(RegisterValue::UInt8(decoded[k]));
            raw.push(decoded[k]);
            proof {
                assert(bytecode@.map_values(|v: RegisterValue| v@) =~= before.map_values(|v: RegisterValue| v@).push(
                    ValueView::UInt8(decoded@[k as int]),
                ));
                assert(byte_values(decoded@.take(k + 1)) =~= byte_values(decoded@.take(k as int)).push(ValueView::UInt8(decoded@[k as int])));
                assert(bytecode@.map_values(|v: RegisterValue| v@) =~= start + byte_values(decoded@.take(k + 1)));
                assert(raw@ =~= prefix + decoded@.take(k + 1));
            }
            k = k + 1;
        }
        assert(decoded@.take(decoded@.len() as int) =~= decoded@);
        let value = RegisterValue::Array(bytecode);
        assert(value@->List_0 =~= bytecode@.map_values(|v: RegisterValue| v@));
        self.registers.set("bc", value);
        self.bytecode_parser.set_bytecode(raw);
    }

    /// Decode the instruction at the program counter and move past it.
    pub fn parse_instruction(&mut self) -> (r: Result<Instruction, StrontiumError>)
        requires
            !(parse_at(old(self)@.bytecode, old(self)@.index as int) is Abort),
        ensures
            match parse_at(old(self)@.bytecode, old(self)@.index as int) {
                Step::Done(ins, j) => r matches Ok(x) && x@ == ins && final(self)@ == (MachineView { index: j as usize, ..old(self)@ }),
                Step::Fail(e, j) => r matches Err(StrontiumError::BytecodeError(x)) && x@ == e && final(self)@ == (MachineView {
                    index: j as usize,
                    ..old(self)@
                }),
                Step::Abort => false,
            },
    {
        match self.bytecode_parser.parse_instruction() {
            Ok(instruction) => Ok(instruction),
            Err(e) => Err(StrontiumError::BytecodeError(e)),
        }
    }
}

impl Strontium {
    /// Decode the instruction at the program counter for an executor: the instruction; or
    /// the result with which the executor ends, a decoding error or, on bytecode on which
    /// decoding gives up, a fault.
    pub(crate) fn decode(&mut self) -> (r: Result<Instruction, Result<Outcome, StrontiumError>>)
        ensures
            match parse_at(old(self)@.bytecode, old(self)@.index as int) {
                Step::Done(ins, j) => r matches Ok(x) && x@ == ins && final(self)@ == (MachineView { index: j as usize, ..old(self)@ }),
                Step::Fail(e, j) => r matches Err(Err(StrontiumError::BytecodeError(x))) && x@ == e && final(self)@ == (MachineView {
                    index: j as usize,
                    ..old(self)@
                }),
                Step::Abort => r matches Err(Ok(Outcome::Fault(Fault::Undecodable))),
            },
            final(self)@ == (MachineView { index: final(self)@.index, ..old(self)@ }),
    {
        match self.bytecode_parser.next_instruction() {
            Ok(instruction) => Ok(instruction),
            Err(Stop::Error(e)) => Err(Err(StrontiumError::BytecodeError(e))),
            Err(Stop::GaveUp) => Err(Ok(Outcome::Fault(Fault::Undecodable))),
        }
    }
}

impl Strontium {
    /// Execute a single instruction: read the opcode byte at the program counter and run the
    /// opcode's executor. The result says what the embedder has to do next; execution goes
    /// on after it unless it is a halt (an error or a panic leave that as it was).
    pub fn execute(&mut self) -> (r: Result<Outcome, StrontiumError>)
        ensures
            result_view(r) == step(old(self)@).1,
            as_expected(final(self)@, step(old(self)@).0, step(old(self)@).1),
    {
        let byte = match self.fetch(self.bytecode_parser.index, 1) {
            Fetched::Bytes(bytes) => bytes[0],
            Fetched::Eof => return Err(StrontiumError::UnexpectedEof),
            Fetched::Malformed => return Ok(Outcome::Fault(Fault::MalformedBytecode)),
        };
        let opcode = Opcode::from_byte(byte);
        let r = match opcode {
            Opcode::Halt => HaltExecutor.execute(self),
            Opcode::Load => LoadExecutor.execute(self),
            Opcode::Move => MoveExecutor.execute(self),
            Opcode::Copy => CopyExecutor.execute(self),
            Opcode::Calculate => CalculateExecutor.execute(self),
            Opcode::Compare => CompareExecutor.execute(self),
            Opcode::Bitwise => BitwiseExecutor.execute(self),
            Opcode::Call => CallExecutor.execute(self),
            Opcode::Interrupt => InterruptExecutor.execute(self),
            Opcode::Return => ReturnExecutor.execute(self),
            Opcode::StoreLocal => StoreLocalExecutor.execute(self),
            Opcode::LoadLocal => LoadLocalExecutor.execute(self),
            Opcode::Jump => JumpExecutor.execute(self),
            Opcode::JumpC => JumpCExecutor.execute(self),
            Opcode::Dispatch => DispatchExecutor.execute(self),
            Opcode::LoadType => LoadTypeExecutor.execute(self),
            _ => Err(StrontiumError::IllegalOpcode(opcode.index())),
        };
        match &r {
            Ok(Outcome::Halt) => self.should_continue = false,
            Ok(Outcome::Continue) => self.should_continue = true,
            Ok(Outcome::Print { .. }) => self.should_continue = true,
            Ok(Outcome::FloatCalculation { .. }) => self.should_continue = true,
            Ok(Outcome::FloatComparison { .. }) => self.should_continue = true,
            _ => {},
        }
        r
    }
}

} // verus!
