//! The meaning of one execution step of the machine, stated over its mathematical state.
use vstd::prelude::*;

use crate::machine::arith::{bit_binary_spec, bit_not_spec, bit_shift_spec, calc_spec, compare_spec, CalcView, CmpView, Fault};
use crate::machine::bytecode::decode::{parse_at, Step};
use crate::machine::bytecode::encode::encode_instruction;
use crate::machine::bytecode::roundtrip::{holds_at, theorem_decode_encode, transcodes};
use crate::machine::dispatch::{dispatch_result, lemma_dispatch_earliest_of_highest, pattern_matches, precedence_of, with_variants, PatternView};
use crate::machine::instruction::{BitwiseView, CalculationMethod, ComparisonMethod, InstrView, InterruptKind};
use crate::machine::instruction::opcode_of;
use crate::machine::opcode::{lemma_opcode_byte_roundtrip, opcode_index, opcode_of_byte, Opcode};
use crate::machine::register::{is_numbered, numbered_part, type_code, type_of, ValueView};
use crate::types::error::ErrorView;

verus! {

/// A stack frame: where a call returns to, its local variables and the caller's numbered
/// registers, which the return restores.
#[verifier::ext_equal]
pub struct FrameView {
    pub return_address: usize,
    pub locals: Map<Seq<char>, ValueView>,
    pub saved: Map<Seq<char>, ValueView>,
}

/// The state of the machine.
#[verifier::ext_equal]
pub struct MachineView {
    /// The registers, by name.
    pub registers: Map<Seq<char>, ValueView>,
    /// The bytecode that the decoder reads.
    pub bytecode: Seq<u8>,
    /// The position of the decoder, which is the program counter.
    pub index: usize,
    /// The call stack, innermost frame last.
    pub frames: Seq<FrameView>,
    /// The multimethod dispatch table.
    pub table: Map<Seq<char>, Seq<(PatternView, usize)>>,
    /// Whether execution goes on.
    pub running: bool,
    /// The `ip` field of the machine, which execution leaves alone.
    pub ip: usize,
    /// Whether the machine prints debug output.
    pub debug: bool,
    /// Whether the decoder prints debug output.
    pub decoder_debug: bool,
}

/// What a step asks of the embedder, or how it ends.
pub enum OutcomeView {
    /// The instruction ran; execution goes on.
    Continue,
    /// A `HALT` stopped execution.
    Halt,
    /// A `PRINT` interrupt: the register's name and its value, if it exists.
    Print { address: Seq<char>, value: Option<ValueView> },
    /// A `PANIC` interrupt: the message register's name and value, and the `arg` register.
    Panic { address: Seq<char>, message: Option<ValueView>, arg: Option<ValueView> },
    /// A calculation on two floating-point values.
    FloatCalculation { method: CalculationMethod, left: ValueView, right: ValueView, destination: Seq<char> },
    /// A comparison of two floating-point values.
    FloatComparison { method: ComparisonMethod, left: ValueView, right: ValueView, destination: Seq<char> },
    /// The machine stops on a fault.
    Fault(Fault),
}

/// The result of a step.
pub type StepResult = Result<OutcomeView, ErrorView>;

/// The values in the bytecode register `bc`, if it holds an array.
pub open spec fn bc_values(regs: Map<Seq<char>, ValueView>) -> Option<Seq<ValueView>> {
    if regs.dom().contains("bc"@) && regs["bc"@] is List {
        Some(regs["bc"@]->List_0)
    } else {
        None
    }
}

/// Whether every value is a `UInt8`.
pub open spec fn all_bytes(s: Seq<ValueView>) -> bool {
    forall|i: int| 0 <= i < s.len() ==> #[trigger] s[i] is UInt8
}

/// The bytes of a sequence of `UInt8` values.
pub open spec fn bytes_of(s: Seq<ValueView>) -> Seq<u8> {
    s.map_values(|v: ValueView| v->UInt8_0)
}

/// The values of a sequence of bytes.
pub open spec fn byte_values(b: Seq<u8>) -> Seq<ValueView> {
    b.map_values(|x: u8| ValueView::UInt8(x))
}

/// What reading `size` bytes of the bytecode register at position `ip` gives.
pub enum Consumed {
    /// The bytes; the `ip` register moves past them.
    Bytes(Seq<u8>),
    /// The read would go past the last byte: an end-of-bytecode error.
    Eof,
    /// The bytecode register is missing or not an array, or the bytes read are not all
    /// `UInt8` values.
    Malformed,
}

pub open spec fn consume_view(regs: Map<Seq<char>, ValueView>, ip: int, size: int) -> Consumed {
    match bc_values(regs) {
        None => Consumed::Malformed,
        Some(bc) => if ip + size > bc.len() {
            Consumed::Eof
        } else if all_bytes(bc.subrange(ip, ip + size)) {
            Consumed::Bytes(bytes_of(bc.subrange(ip, ip + size)))
        } else {
            Consumed::Malformed
        },
    }
}

/// The registers after a read of `size` bytes at `ip`: the `ip` register holds the position
/// after them.
pub open spec fn advanced(regs: Map<Seq<char>, ValueView>, ip: int, size: int) -> Map<Seq<char>, ValueView> {
    regs.insert("ip"@, ValueView::UInt64((ip + size) as u64))
}

/// The value of a register, if it exists.
pub open spec fn lookup(regs: Map<Seq<char>, ValueView>, name: Seq<char>) -> Option<ValueView> {
    if regs.dom().contains(name) {
        Some(regs[name])
    } else {
        None
    }
}

/// The frame that a call pushes: it returns to `ret`, has no local variables yet, and
/// saves the caller's numbered registers.
pub open spec fn call_frame(regs: Map<Seq<char>, ValueView>, ret: usize) -> FrameView {
    FrameView { return_address: ret, locals: Map::empty(), saved: numbered_part(regs) }
}

/// Whether a decoded instruction is the one that an opcode's executor acts on. Each
/// executor decodes the instruction at the program counter and does nothing with one of
/// another kind.
pub open spec fn executes(op: Opcode, ins: InstrView) -> bool {
    match op {
        Opcode::Load => ins is Load,
        Opcode::Move => ins is Move,
        Opcode::Copy => ins is Copy,
        Opcode::Calculate => ins is Calculate,
        Opcode::Compare => ins is Compare,
        Opcode::Bitwise => ins is Bitwise,
        Opcode::Call => ins is Call,
        Opcode::Interrupt => ins is Interrupt,
        Opcode::Return => ins is Return,
        Opcode::StoreLocal => ins is StoreLocal,
        Opcode::LoadLocal => ins is LoadLocal,
        Opcode::Jump => ins is Jump,
        Opcode::JumpC => ins is JumpC,
        Opcode::Dispatch => ins is Dispatch,
        Opcode::LoadType => ins is LoadType,
        _ => false,
    }
}

/// Whether an opcode has an executor that decodes its instruction.
pub open spec fn decoding_executor(op: Opcode) -> bool {
    !(op is Halt || op is Push || op is Append || op is Illegal)
}

/// The register that a bitwise operation writes and what it computes, when its operands
/// exist.
pub open spec fn bitwise_result(m: BitwiseView, regs: Map<Seq<char>, ValueView>) -> Option<(Seq<char>, CalcView)> {
    match m {
        BitwiseView::AND { a, b, out } => match (lookup(regs, a), lookup(regs, b)) {
            (Some(x), Some(y)) => Some((out, bit_binary_spec(0, x, y))),
            _ => None,
        },
        BitwiseView::OR { a, b, out } => match (lookup(regs, a), lookup(regs, b)) {
            (Some(x), Some(y)) => Some((out, bit_binary_spec(1, x, y))),
            _ => None,
        },
        BitwiseView::XOR { a, b, out } => match (lookup(regs, a), lookup(regs, b)) {
            (Some(x), Some(y)) => Some((out, bit_binary_spec(2, x, y))),
            _ => None,
        },
        BitwiseView::NOT { a, out } => match lookup(regs, a) {
            Some(x) => Some((out, bit_not_spec(x))),
            None => None,
        },
        BitwiseView::LSH { a, out, amount } => match lookup(regs, a) {
            Some(x) => Some((out, bit_shift_spec(true, x, amount))),
            None => None,
        },
        BitwiseView::RSH { a, out, amount } => match lookup(regs, a) {
            Some(x) => Some((out, bit_shift_spec(false, x, amount))),
            None => None,
        },
    }
}

/// The effect of a decoded instruction on the state, the decoder already past it.
pub open spec fn apply(ins: InstrView, s: MachineView) -> (MachineView, StepResult) {
    let regs = s.registers;
    match ins {
        InstrView::Load { value, register } => (MachineView { registers: regs.insert(register, value), ..s }, Ok(OutcomeView::Continue)),
        InstrView::Move { source, destination } => match lookup(regs, source) {
            Some(v) => (
                MachineView { registers: regs.insert(source, ValueView::Empty).insert(destination, v), ..s },
                Ok(OutcomeView::Continue),
            ),
            None => (s, Err(ErrorView::RegisterNotFound(source))),
        },
        InstrView::Copy { source, destination } => match lookup(regs, source) {
            Some(v) => (MachineView { registers: regs.insert(destination, v), ..s }, Ok(OutcomeView::Continue)),
            None => (s, Err(ErrorView::RegisterNotFound(source))),
        },
        InstrView::Calculate { method, operand1, operand2, destination } => match (lookup(regs, operand1), lookup(regs, operand2)) {
            (Some(a), Some(b)) => match calc_spec(method, a, b) {
                CalcView::Value(v) => (MachineView { registers: regs.insert(destination, v), ..s }, Ok(OutcomeView::Continue)),
                CalcView::Float => (s, Ok(OutcomeView::FloatCalculation { method, left: a, right: b, destination })),
                CalcView::Fault(f) => (s, Ok(OutcomeView::Fault(f))),
            },
            _ => (s, Ok(OutcomeView::Continue)),
        },
        InstrView::Compare { method, operand1, operand2, destination } => match (lookup(regs, operand1), lookup(regs, operand2)) {
            (Some(a), Some(b)) => match compare_spec(method, a, b) {
                CmpView::Value(r) => (
                    MachineView { registers: regs.insert(destination, ValueView::Boolean(r)), ..s },
                    Ok(OutcomeView::Continue),
                ),
                CmpView::Float => (s, Ok(OutcomeView::FloatComparison { method, left: a, right: b, destination })),
                CmpView::Fault(f) => (s, Ok(OutcomeView::Fault(f))),
            },
            _ => (s, Ok(OutcomeView::Continue)),
        },
        InstrView::Bitwise { method } => match bitwise_result(method, regs) {
            Some((out, CalcView::Value(v))) => (MachineView { registers: regs.insert(out, v), ..s }, Ok(OutcomeView::Continue)),
            Some((_, CalcView::Fault(f))) => (s, Ok(OutcomeView::Fault(f))),
            _ => (s, Ok(OutcomeView::Continue)),
        },
        InstrView::Call { address } => (
            MachineView { frames: s.frames.push(call_frame(regs, s.index)), index: address, ..s },
            Ok(OutcomeView::Continue),
        ),
        InstrView::Interrupt { address, kind } => match kind {
            InterruptKind::Print => (s, Ok(OutcomeView::Print { address, value: lookup(regs, address) })),
            InterruptKind::Panic => (
                s,
                Ok(OutcomeView::Panic { address, message: lookup(regs, address), arg: lookup(regs, "arg"@) }),
            ),
            InterruptKind::Read => (s, Ok(OutcomeView::Continue)),
        },
        InstrView::Return => if s.frames.len() == 0 {
            (s, Err(ErrorView::EmptyCallStack))
        } else {
            let frame = s.frames.last();
            (
                MachineView {
                    registers: regs.union_prefer_right(frame.saved),
                    frames: s.frames.drop_last(),
                    index: frame.return_address,
                    ..s
                },
                Ok(OutcomeView::Continue),
            )
        },
        InstrView::StoreLocal { name, register } => match lookup(regs, register) {
            None => (s, Err(ErrorView::RegisterNotFound(register))),
            Some(v) => if s.frames.len() == 0 {
                (s, Err(ErrorView::EmptyCallStack))
            } else {
                let frame = s.frames.last();
                let frame2 = FrameView { locals: frame.locals.insert(name, v), ..frame };
                (MachineView { frames: s.frames.update(s.frames.len() - 1, frame2), ..s }, Ok(OutcomeView::Continue))
            },
        },
        InstrView::LoadLocal { name, register } => if s.frames.len() == 0 {
            (s, Err(ErrorView::EmptyCallStack))
        } else {
            match lookup(s.frames.last().locals, name) {
                Some(v) => (MachineView { registers: regs.insert(register, v), ..s }, Ok(OutcomeView::Continue)),
                None => (s, Err(ErrorView::LocalVariableNotFound(name))),
            }
        },
        InstrView::Jump { destination } => (MachineView { index: destination as usize, ..s }, Ok(OutcomeView::Continue)),
        InstrView::JumpC { destination, conditional_address } => if lookup(regs, conditional_address) == Some(
            ValueView::Boolean(false),
        ) {
            (MachineView { index: destination as usize, ..s }, Ok(OutcomeView::Continue))
        } else {
            (s, Ok(OutcomeView::Continue))
        },
        InstrView::Dispatch { method_name } => match lookup(regs, "arg"@) {
            None => (s, Err(ErrorView::RegisterNotFound("arg"@))),
            Some(arg) => match dispatch_result(s.table, method_name, arg) {
                Some(address) => (
                    MachineView { frames: s.frames.push(call_frame(regs, s.index)), index: address, ..s },
                    Ok(OutcomeView::Continue),
                ),
                None => (s, Err(ErrorView::MethodNotFound(method_name))),
            },
        },
        InstrView::LoadType { source, destination } => match lookup(regs, source) {
            Some(v) => (
                MachineView { registers: regs.insert(destination, ValueView::Int64(type_code(type_of(v)))), ..s },
                Ok(OutcomeView::Continue),
            ),
            None => (s, Err(ErrorView::RegisterNotFound(source))),
        },
        _ => (s, Ok(OutcomeView::Continue)),
    }
}

/// What the executor of an opcode does, the opcode byte already read. `HALT` stops. The
/// executors that decode read the instruction at the program counter and apply it when it
/// is theirs; a decoding error is reported and leaves the decoder where it stopped; bytecode
/// on which decoding gives up is a fault, after which the decoder's position is left open.
/// Opcodes without an executor are illegal.
pub open spec fn run_opcode(op: Opcode, s: MachineView) -> (MachineView, StepResult) {
    if op is Halt {
        (s, Ok(OutcomeView::Halt))
    } else if decoding_executor(op) {
        match parse_at(s.bytecode, s.index as int) {
            Step::Done(ins, j) => {
                let s2 = MachineView { index: j as usize, ..s };
                if executes(op, ins) {
                    apply(ins, s2)
                } else {
                    (s2, Ok(OutcomeView::Continue))
                }
            },
            Step::Fail(e, j) => (MachineView { index: j as usize, ..s }, Err(ErrorView::BytecodeError(e))),
            Step::Abort => (s, Ok(OutcomeView::Fault(Fault::Undecodable))),
        }
    } else {
        (s, Err(ErrorView::IllegalOpcode(opcode_index(op))))
    }
}

/// Whether execution goes on after a step with this result: a halt stops it, an outcome
/// that the embedder acts on lets it go on, and an error or a panic leaves it as it was.
pub open spec fn running_after(r: StepResult, before: bool) -> bool {
    match r {
        Ok(OutcomeView::Halt) => false,
        Ok(OutcomeView::Continue) => true,
        Ok(OutcomeView::Print { .. }) => true,
        Ok(OutcomeView::FloatCalculation { .. }) => true,
        Ok(OutcomeView::FloatComparison { .. }) => true,
        _ => before,
    }
}

/// One execution step: read the opcode byte at the program counter from the bytecode
/// register (which moves the `ip` register past it), then run the opcode's executor.
pub open spec fn step(s: MachineView) -> (MachineView, StepResult) {
    match consume_view(s.registers, s.index as int, 1) {
        Consumed::Malformed => (s, Ok(OutcomeView::Fault(Fault::MalformedBytecode))),
        Consumed::Eof => (s, Err(ErrorView::UnexpectedEof)),
        Consumed::Bytes(b) => {
            let s1 = MachineView { registers: advanced(s.registers, s.index as int, 1), ..s };
            let (s2, r) = run_opcode(opcode_of_byte(b[0]), s1);
            (MachineView { running: running_after(r, s2.running), ..s2 }, r)
        },
    }
}

/// Whether a step gave up on undecodable bytecode, after which the decoder's position is
/// left open.
pub open spec fn leaves_index_open(r: StepResult) -> bool {
    r matches Ok(OutcomeView::Fault(Fault::Undecodable))
}

/// Whether a state is the expected one, but for the decoder's position where the step left
/// it open.
pub open spec fn as_expected(after: MachineView, expected: MachineView, r: StepResult) -> bool {
    &&& after == (MachineView { index: after.index, ..expected })
    &&& !leaves_index_open(r) ==> after.index == expected.index
}

/// A return from a call goes back to where the call was made and gives every numbered
/// register that the caller had its value from the time of the call; every other register
/// keeps the value that the callee left in it.
pub proof fn lemma_return_restores(caller: Map<Seq<char>, ValueView>, ret: usize, t: MachineView)
    requires
        t.frames.len() > 0,
        t.frames.last() == call_frame(caller, ret),
    ensures
        apply(InstrView::Return, t).1 == Ok::<OutcomeView, ErrorView>(OutcomeView::Continue),
        apply(InstrView::Return, t).0.index == ret,
        apply(InstrView::Return, t).0.frames == t.frames.drop_last(),
        forall|k: Seq<char>|
            #![trigger apply(InstrView::Return, t).0.registers[k]]
            caller.dom().contains(k) && is_numbered(k) ==> apply(InstrView::Return, t).0.registers.dom().contains(k)
                && apply(InstrView::Return, t).0.registers[k] == caller[k],
        forall|k: Seq<char>|
            !(caller.dom().contains(k) && is_numbered(k)) ==> #[trigger] lookup(apply(InstrView::Return, t).0.registers, k)
                == lookup(t.registers, k),
{
}

/// A call pushes a frame that returns to the instruction after the call and saves the
/// caller's numbered registers, and jumps to the method's address.
pub proof fn lemma_call_frame(address: usize, s: MachineView)
    ensures
        apply(InstrView::Call { address }, s).0.frames == s.frames.push(call_frame(s.registers, s.index)),
        apply(InstrView::Call { address }, s).0.index == address,
        apply(InstrView::Call { address }, s).0.registers == s.registers,
{
}

/// What a step does when the bytecode of an instruction stands at the program counter: the
/// `ip` register moves past the opcode byte and the instruction runs, the program counter
/// moving past it first; a `HALT` stops, and an instruction without an executor is illegal.
pub open spec fn runs_encoded(s: MachineView, ins: InstrView) -> (MachineView, StepResult) {
    let s1 = MachineView { registers: advanced(s.registers, s.index as int, 1), ..s };
    let (s2, r) = if ins is Halt {
        (s1, Ok(OutcomeView::Halt))
    } else if decoding_executor(opcode_of(ins)) {
        apply(ins, MachineView { index: (s.index + encode_instruction(ins).len()) as usize, ..s1 })
    } else {
        (s1, Err(ErrorView::IllegalOpcode(opcode_index(opcode_of(ins)))))
    };
    (MachineView { running: running_after(r, s2.running), ..s2 }, r)
}

/// The machine runs the instructions that were encoded into its bytecode: when the bytecode
/// register holds the decoder's bytes and the bytecode of an instruction that decodes to
/// itself stands at the program counter, a step runs that instruction.
pub proof fn lemma_step_runs_encoded(s: MachineView, ins: InstrView)
    requires
        transcodes(ins),
        holds_at(s.bytecode, s.index as int, encode_instruction(ins)),
        ins is Append ==> s.index + encode_instruction(ins).len() == s.bytecode.len(),
        bc_values(s.registers) == Some(byte_values(s.bytecode)),
    ensures
        step(s) == runs_encoded(s, ins),
{
    let i = s.index as int;
    let e = encode_instruction(ins);
    let bc = byte_values(s.bytecode);
    assert(s.bytecode[i] == e[0]) by {
        assert(s.bytecode.subrange(i, i + e.len())[0] == s.bytecode[i]);
    }
    assert(bc.subrange(i, i + 1) =~= seq![ValueView::UInt8(s.bytecode[i])]);
    assert(all_bytes(bc.subrange(i, i + 1)));
    assert(bytes_of(bc.subrange(i, i + 1)) =~= seq![s.bytecode[i]]);
    lemma_opcode_byte_roundtrip(opcode_of(ins));
    theorem_decode_encode(s.bytecode, i, ins);
}

/// A dispatch calls the variant that dispatch picks for the value of `arg`: it pushes a
/// frame that returns after the dispatch and saves the caller's numbered registers, and
/// jumps to the variant's address; without a matching variant it reports the method as not
/// found and changes nothing, and without an `arg` register it reports that.
pub proof fn lemma_dispatch_calls(method_name: Seq<char>, s: MachineView)
    ensures
        lookup(s.registers, "arg"@) is None ==> apply(InstrView::Dispatch { method_name }, s) == (s, Err::<
            OutcomeView,
            ErrorView,
        >(ErrorView::RegisterNotFound("arg"@))),
        lookup(s.registers, "arg"@) matches Some(arg) ==> match dispatch_result(s.table, method_name, arg) {
            Some(address) => apply(InstrView::Dispatch { method_name }, s) == (
                MachineView { frames: s.frames.push(call_frame(s.registers, s.index)), index: address, ..s },
                Ok::<OutcomeView, ErrorView>(OutcomeView::Continue),
            ),
            None => apply(InstrView::Dispatch { method_name }, s) == (s, Err::<OutcomeView, ErrorView>(
                ErrorView::MethodNotFound(method_name),
            )),
        },
{
}

/// A dispatch on a method whose variants were registered one after the other calls, of the
/// variants that match the value of `arg`, one of the highest precedence, the earliest
/// registered among several of that precedence: it pushes a frame that returns after the
/// dispatch and jumps to that variant's address. Where no variant matches, it reports the
/// method as not found and changes nothing.
pub proof fn lemma_dispatch_calls_earliest_of_highest(
    method_name: Seq<char>,
    s: MachineView,
    table: Map<Seq<char>, Seq<(PatternView, usize)>>,
    regs: Seq<(PatternView, usize)>,
    arg: ValueView,
)
    requires
        !table.dom().contains(method_name),
        s.table == with_variants(table, method_name, regs),
        lookup(s.registers, "arg"@) == Some(arg),
    ensures
        (forall|i: int| 0 <= i < regs.len() ==> !pattern_matches(#[trigger] regs[i].0, arg)) ==> apply(
            InstrView::Dispatch { method_name },
            s,
        ) == (s, Err::<OutcomeView, ErrorView>(ErrorView::MethodNotFound(method_name))),
        (exists|i: int| 0 <= i < regs.len() && pattern_matches(#[trigger] regs[i].0, arg)) ==> exists|j: int|
            #![trigger regs[j]]
            0 <= j < regs.len() && pattern_matches(regs[j].0, arg)
                && (forall|i: int| 0 <= i < regs.len() && pattern_matches(#[trigger] regs[i].0, arg) ==> precedence_of(regs[i].0) <= precedence_of(regs[j].0))
                && (forall|i: int| 0 <= i < j && pattern_matches(#[trigger] regs[i].0, arg) ==> precedence_of(regs[i].0) < precedence_of(regs[j].0))
                && apply(InstrView::Dispatch { method_name }, s) == (
                MachineView { frames: s.frames.push(call_frame(s.registers, s.index)), index: regs[j].1, ..s },
                Ok::<OutcomeView, ErrorView>(OutcomeView::Continue),
            ),
{
    lemma_dispatch_calls(method_name, s);
    lemma_dispatch_earliest_of_highest(table, method_name, regs, arg);
}

/// A local variable stored in the current frame reads back: after `STOREL name, r` while
/// `r` holds `v`, a `LOADL name, d` writes `v` to `d` and leaves the call stack as it is.
pub proof fn lemma_store_then_load(s: MachineView, name: Seq<char>, r: Seq<char>, d: Seq<char>, v: ValueView)
    requires
        s.frames.len() > 0,
        lookup(s.registers, r) == Some(v),
    ensures
        apply(InstrView::StoreLocal { name, register: r }, s).1 == Ok::<OutcomeView, ErrorView>(OutcomeView::Continue),
        ({
            let t = apply(InstrView::StoreLocal { name, register: r }, s).0;
            &&& apply(InstrView::LoadLocal { name, register: d }, t).1 == Ok::<OutcomeView, ErrorView>(OutcomeView::Continue)
            &&& apply(InstrView::LoadLocal { name, register: d }, t).0.registers == t.registers.insert(d, v)
            &&& apply(InstrView::LoadLocal { name, register: d }, t).0.frames == t.frames
        }),
{
    let t = apply(InstrView::StoreLocal { name, register: r }, s).0;
    assert(t.frames.last().locals == s.frames.last().locals.insert(name, v));
}

/// Without a frame there is nowhere to keep a local variable: `STOREL` of an existing
/// register and `LOADL` both report an empty call stack.
pub proof fn lemma_locals_need_a_frame(s: MachineView, name: Seq<char>, r: Seq<char>)
    requires
        s.frames.len() == 0,
    ensures
        apply(InstrView::LoadLocal { name, register: r }, s).1 == Err::<OutcomeView, ErrorView>(ErrorView::EmptyCallStack),
        lookup(s.registers, r) is Some ==> apply(InstrView::StoreLocal { name, register: r }, s).1 == Err::<
            OutcomeView,
            ErrorView,
        >(ErrorView::EmptyCallStack),
{
}

} // verus!
