//! The instruction executors: each carries out the instructions of one opcode on the
//! machine.
use vstd::prelude::*;

use crate::machine::arith::{bit_binary, bit_not, bit_shift, calculate, compare, Calculated, Compared};
use crate::machine::instruction::{BitwiseMethod, Instruction, InterruptKind};
use crate::machine::opcode::Opcode;
use crate::machine::register::{RegisterValue, Registers};
use crate::machine::step::{as_expected, run_opcode, MachineView};
use crate::machine::{frames_view, result_view, Outcome, StackFrame, Strontium};
use crate::types::error::StrontiumError;

verus! {

/// Whether an executor's result and the machine after it are those of the opcode's
/// executor in the step semantics (after giving up on undecodable bytecode, the decoder's
/// position is left open).
pub open spec fn executed(op: Opcode, before: MachineView, after: MachineView, r: Result<Outcome, StrontiumError>) -> bool {
    let (s, res) = run_opcode(op, before);
    &&& result_view(r) == res
    &&& as_expected(after, s, res)
}

/// Carries out the instructions of one opcode.
pub trait Executor {
    fn execute(&self, machine: &mut Strontium) -> Result<Outcome, StrontiumError>;
}

/// Stop all code execution immediately.
#[derive(Debug, Clone, PartialEq)]
pub struct HaltExecutor;

impl Executor for HaltExecutor {
    fn execute(&self, machine: &mut Strontium) -> (r: Result<Outcome, StrontiumError>)
        ensures
            executed(Opcode::Halt, old(machine)@, final(machine)@, r),
    {
        Ok(Outcome::Halt)
    }
}

/// Load a value into a named register.
#[derive(Debug, Clone, PartialEq)]
pub struct LoadExecutor;

impl Executor for LoadExecutor {
    fn execute(&self, machine: &mut Strontium) -> (r: Result<Outcome, StrontiumError>)
        ensures
            executed(Opcode::Load, old(machine)@, final(machine)@, r),
    {
        let instruction = match machine.decode() {
            Ok(instruction) => instruction,
            Err(r) => return r,
        };
        if let Instruction::Load { value, register } = instruction {
            machine.registers.set(register.as_str(), value);
        }
        Ok(Outcome::Continue)
    }
}

/// Move a value from one register to another; the source is left empty.
#[derive(Debug, Clone, PartialEq)]
pub struct MoveExecutor;

impl Executor for MoveExecutor {
    fn execute(&self, machine: &mut Strontium) -> (r: Result<Outcome, StrontiumError>)
        ensures
            executed(Opcode::Move, old(machine)@, final(machine)@, r),
    {
        let instruction = match machine.decode() {
            Ok(instruction) => instruction,
            Err(r) => return r,
        };
        if let Instruction::Move { source, destination } = instruction {
            let value = match machine.registers.get(source.as_str()) {
                Some(v) => v.duplicate(),
                None => return Err(StrontiumError::RegisterNotFound(source)),
            };
            machine.registers.set(source.as_str(), RegisterValue::Empty);
            machine.registers.set(destination.as_str(), value);
        }
        Ok(Outcome::Continue)
    }
}

/// Copy a value from one register to another.
#[derive(Debug, Clone, PartialEq)]
pub struct CopyExecutor;

impl Executor for CopyExecutor {
    fn execute(&self, machine: &mut Strontium) -> (r: Result<Outcome, StrontiumError>)
        ensures
            executed(Opcode::Copy, old(machine)@, final(machine)@, r),
    {
        let instruction = match machine.decode() {
            Ok(instruction) => instruction,
            Err(r) => return r,
        };
        if let Instruction::Copy { source, destination } = instruction {
            let value = match machine.registers.get(source.as_str()) {
                Some(v) => v.duplicate(),
                None => return Err(StrontiumError::RegisterNotFound(source)),
            };
            machine.registers.set(destination.as_str(), value);
        }
        Ok(Outcome::Continue)
    }
}

/// Perform a calculation on two registers and write the result to a third.
#[derive(Debug, Clone, PartialEq)]
pub struct CalculateExecutor;

impl Executor for CalculateExecutor {
    fn execute(&self, machine: &mut Strontium) -> (r: Result<Outcome, StrontiumError>)
        ensures
            executed(Opcode::Calculate, old(machine)@, final(machine)@, r),
    {
        let instruction = match machine.decode() {
            Ok(instruction) => instruction,
            Err(r) => return r,
        };
        if let Instruction::Calculate { method, operand1, operand2, destination } = instruction {
            let computed = match (machine.registers.get(operand1.as_str()), machine.registers.get(operand2.as_str())) {
                (Some(a), Some(b)) => match calculate(method, a, b) {
                    Calculated::Value(v) => Some(Ok(v)),
                    Calculated::Float => Some(Err(Outcome::FloatCalculation {
                        method,
                        left: a.duplicate(),
                        right: b.duplicate(),
                        destination: destination.clone(),
                    })),
                    Calculated::Fault(f) => Some(Err(Outcome::Fault(f))),
                },
                _ => None,
            };
            match computed {
                Some(Ok(v)) => machine.registers.set(destination.as_str(), v),
                Some(Err(outcome)) => return Ok(outcome),
                None => {},
            }
        }
        Ok(Outcome::Continue)
    }
}

/// Compare two registers and write the result, a boolean, to a third.
#[derive(Debug, Clone, PartialEq)]
pub struct CompareExecutor;

impl Executor for CompareExecutor {
    fn execute(&self, machine: &mut Strontium) -> (r: Result<Outcome, StrontiumError>)
        ensures
            executed(Opcode::Compare, old(machine)@, final(machine)@, r),
    {
        let instruction = match machine.decode() {
            Ok(instruction) => instruction,
            Err(r) => return r,
        };
        if let Instruction::Compare { method, operand1, operand2, destination } = instruction {
            let computed = match (machine.registers.get(operand1.as_str()), machine.registers.get(operand2.as_str())) {
                (Some(a), Some(b)) => match compare(method, a, b) {
                    Compared::Value(v) => Some(Ok(v)),
                    Compared::Float => Some(Err(Outcome::FloatComparison {
                        method,
                        left: a.duplicate(),
                        right: b.duplicate(),
                        destination: destination.clone(),
                    })),
                    Compared::Fault(f) => Some(Err(Outcome::Fault(f))),
                },
                _ => None,
            };
            match computed {
                Some(Ok(v)) => machine.registers.set(destination.as_str(), RegisterValue::Boolean(v)),
                Some(Err(outcome)) => return Ok(outcome),
                None => {},
            }
        }
        Ok(Outcome::Continue)
    }
}

/// Call the method whose body starts at an address: push a frame that saves the caller's
/// numbered registers and returns after the call, and jump.
#[derive(Debug, Clone, PartialEq)]
pub struct CallExecutor;

impl Executor for CallExecutor {
    fn execute(&self, machine: &mut Strontium) -> (r: Result<Outcome, StrontiumError>)
        ensures
            executed(Opcode::Call, old(machine)@, final(machine)@, r),
    {
        let instruction = match machine.decode() {
            Ok(instruction) => instruction,
            Err(r) => return r,
        };
        if let Instruction::Call { address } = instruction {
            let saved_registers = machine.registers.numbered_registers();
            let return_address = machine.bytecode_parser.index;
            let ghost frames = machine.call_stack@;
            machine.call_stack.push(StackFrame { return_address, local_variables: Registers::empty(), saved_registers });
            proof {
                assert(frames_view(machine.call_stack@) =~= frames_view(frames).push(machine.call_stack@.last()@));
            }
            machine.bytecode_parser.index = address;
        }
        Ok(Outcome::Continue)
    }
}

/// Attend to an event that needs immediate attention: a `PRINT` or a `PANIC` goes to the
/// embedder; a `READ` does nothing.
#[derive(Debug, Clone, PartialEq)]
pub struct InterruptExecutor;

impl Executor for InterruptExecutor {
    fn execute(&self, machine: &mut Strontium) -> (r: Result<Outcome, StrontiumError>)
        ensures
            executed(Opcode::Interrupt, old(machine)@, final(machine)@, r),
    {
        let instruction = match machine.decode() {
            Ok(instruction) => instruction,
            Err(r) => return r,
        };
        if let Instruction::Interrupt { interrupt } = instruction {
            match interrupt.kind {
                InterruptKind::Print => {
                    let value = match machine.registers.get(interrupt.address.as_str()) {
                        Some(v) => Some(v.duplicate()),
                        None => None,
                    };
                    return Ok(Outcome::Print { address: interrupt.address, value });
                },
                InterruptKind::Panic => {
                    let message = match machine.registers.get(interrupt.address.as_str()) {
                        Some(v) => Some(v.duplicate()),
                        None => None,
                    };
                    let arg = match machine.registers.get("arg") {
                        Some(v) => Some(v.duplicate()),
                        None => None,
                    };
                    return Ok(Outcome::Panic { address: interrupt.address, message, arg });
                },
                InterruptKind::Read => {},
            }
        }
        Ok(Outcome::Continue)
    }
}

/// Return from a method call: pop its frame, go back to where the call was made and restore
/// the caller's numbered registers.
#[derive(Debug, Clone, PartialEq)]
pub struct ReturnExecutor;

impl Executor for ReturnExecutor {
    fn execute(&self, machine: &mut Strontium) -> (r: Result<Outcome, StrontiumError>)
        ensures
            executed(Opcode::Return, old(machine)@, final(machine)@, r),
    {
        let instruction = match machine.decode() {
            Ok(instruction) => instruction,
            Err(r) => return r,
        };
        if let Instruction::Return = instruction {
            let ghost frames = machine.call_stack@;
            match machine.call_stack.pop() {
                Some(frame) => {
                    proof {
                        assert(frames_view(machine.call_stack@) =~= frames_view(frames).drop_last());
                    }
                    machine.bytecode_parser.index = frame.return_address;
                    machine.registers.restore(&frame.saved_registers);
                },
                None => return Err(StrontiumError::EmptyCallStack),
            }
        }
        Ok(Outcome::Continue)
    }
}

/// Store a register's value as a local variable of the current call.
#[derive(Debug, Clone, PartialEq)]
pub struct StoreLocalExecutor;

impl Executor for StoreLocalExecutor {
    fn execute(&self, machine: &mut Strontium) -> (r: Result<Outcome, StrontiumError>)
        ensures
            executed(Opcode::StoreLocal, old(machine)@, final(machine)@, r),
    {
        let instruction = match machine.decode() {
            Ok(instruction) => instruction,
            Err(r) => return r,
        };
        if let Instruction::StoreLocal { name, register } = instruction {
            let value = match machine.registers.get(register.as_str()) {
                Some(v) => v.duplicate(),
                None => return Err(StrontiumError::RegisterNotFound(register)),
            };
            let ghost frames = machine.call_stack@;
            match machine.call_stack.pop() {
                Some(mut frame) => {
                    frame.local_variables.set(name.as_str(), value);
                    machine.call_stack.push(frame);
                    proof {
                        assert(frames_view(machine.call_stack@) =~= frames_view(frames).update(
                            frames.len() - 1,
                            machine.call_stack@.last()@,
                        ));
                    }
                },
                None => return Err(StrontiumError::EmptyCallStack),
            }
        }
        Ok(Outcome::Continue)
    }
}

/// Load a local variable of the current call into a register.
#[derive(Debug, Clone, PartialEq)]
pub struct LoadLocalExecutor;

impl Executor for LoadLocalExecutor {
    fn execute(&self, machine: &mut Strontium) -> (r: Result<Outcome, StrontiumError>)
        ensures
            executed(Opcode::LoadLocal, old(machine)@, final(machine)@, r),
    {
        let instruction = match machine.decode() {
            Ok(instruction) => instruction,
            Err(r) => return r,
        };
        if let Instruction::LoadLocal { name, register } = instruction {
            let n = machine.call_stack.len();
            if n == 0 {
                return Err(StrontiumError::EmptyCallStack);
            }
            let value = match machine.call_stack[n - 1].local_variables.get(name.as_str()) {
                Some(v) => v.duplicate(),
                None => return Err(StrontiumError::LocalVariableNotFound(name)),
            };
            machine.registers.set(register.as_str(), value);
        }
        Ok(Outcome::Continue)
    }
}

/// Jump to an address.
#[derive(Debug, Clone, PartialEq)]
pub struct JumpExecutor;

impl Executor for JumpExecutor {
    fn execute(&self, machine: &mut Strontium) -> (r: Result<Outcome, StrontiumError>)
        ensures
            executed(Opcode::Jump, old(machine)@, final(machine)@, r),
    {
        let instruction = match machine.decode() {
            Ok(instruction) => instruction,
            Err(r) => return r,
        };
        if let Instruction::Jump { destination } = instruction {
            machine.bytecode_parser.index = destination as usize;
        }
        Ok(Outcome::Continue)
    }
}

/// Jump to an address when a register holds `false`.
#[derive(Debug, Clone, PartialEq)]
pub struct JumpCExecutor;

impl Executor for JumpCExecutor {
    fn execute(&self, machine: &mut Strontium) -> (r: Result<Outcome, StrontiumError>)
        ensures
            executed(Opcode::JumpC, old(machine)@, final(machine)@, r),
    {
        let instruction = match machine.decode() {
            Ok(instruction) => instruction,
            Err(r) => return r,
        };
        if let Instruction::JumpC { destination, conditional_address } = instruction {
            let jump = match machine.registers.get(conditional_address.as_str()) {
                Some(RegisterValue::Boolean(b)) => !*b,
                _ => false,
            };
            if jump {
                machine.bytecode_parser.index = destination as usize;
            }
        }
        Ok(Outcome::Continue)
    }
}

/// Dispatch a multimethod call on the value of the `arg` register: call the first variant
/// of the method that matches it.
#[derive(Debug, Clone, PartialEq)]
pub struct DispatchExecutor;

impl Executor for DispatchExecutor {
    fn execute(&self, machine: &mut Strontium) -> (r: Result<Outcome, StrontiumError>)
        ensures
            executed(Opcode::Dispatch, old(machine)@, final(machine)@, r),
    {
        let instruction = match machine.decode() {
            Ok(instruction) => instruction,
            Err(r) => return r,
        };
        if let Instruction::Dispatch { method_name } = instruction {
            let arg = match machine.registers.get("arg") {
                Some(v) => v.duplicate(),
                None => return Err(StrontiumError::RegisterNotFound("arg".to_owned())),
            };
            match machine.dispatch(method_name.as_str(), &arg) {
                Some(address) => {
                    let saved_registers = machine.registers.numbered_registers();
                    let return_address = machine.bytecode_parser.index;
                    let ghost frames = machine.call_stack@;
                    machine.call_stack.push(StackFrame { return_address, local_variables: Registers::empty(), saved_registers });
                    proof {
                        assert(frames_view(machine.call_stack@) =~= frames_view(frames).push(machine.call_stack@.last()@));
                    }
                    machine.bytecode_parser.index = address;
                },
                None => return Err(StrontiumError::MethodNotFound(method_name)),
            }
        }
        Ok(Outcome::Continue)
    }
}

/// Write the type code of a register's value to another register, as an `Int64`.
#[derive(Debug, Clone, PartialEq)]
pub struct LoadTypeExecutor;

impl Executor for LoadTypeExecutor {
    fn execute(&self, machine: &mut Strontium) -> (r: Result<Outcome, StrontiumError>)
        ensures
            executed(Opcode::LoadType, old(machine)@, final(machine)@, r),
    {
        let instruction = match machine.decode() {
            Ok(instruction) => instruction,
            Err(r) => return r,
        };
        if let Instruction::LoadType { source, destination } = instruction {
            let code = match machine.registers.get(source.as_str()) {
                Some(v) => v.get_type().code(),
                None => return Err(StrontiumError::RegisterNotFound(source)),
            };
            machine.registers.set(destination.as_str(), RegisterValue::Int64(code));
        }
        Ok(Outcome::Continue)
    }
}

/// Perform a bitwise operation on registers and write the result to a register: `AND`,
/// `OR` and `XOR` of two registers, `NOT` of one, and shifts of one by an amount.
#[derive(Debug, Clone, PartialEq)]
pub struct BitwiseExecutor;

impl Executor for BitwiseExecutor {
    fn execute(&self, machine: &mut Strontium) -> (r: Result<Outcome, StrontiumError>)
        ensures
            executed(Opcode::Bitwise, old(machine)@, final(machine)@, r),
    {
        let instruction = match machine.decode() {
            Ok(instruction) => instruction,
            Err(r) => return r,
        };
        if let Instruction::Bitwise { method } = instruction {
            let computed = match &method {
                BitwiseMethod::AND { a, b, out } => match (machine.registers.get(a.as_str()), machine.registers.get(b.as_str())) {
                    (Some(x), Some(y)) => Some((out, bit_binary(0, x, y))),
                    _ => None,
                },
                BitwiseMethod::OR { a, b, out } => match (machine.registers.get(a.as_str()), machine.registers.get(b.as_str())) {
                    (Some(x), Some(y)) => Some((out, bit_binary(1, x, y))),
                    _ => None,
                },
                BitwiseMethod::XOR { a, b, out } => match (machine.registers.get(a.as_str()), machine.registers.get(b.as_str())) {
                    (Some(x), Some(y)) => Some((out, bit_binary(2, x, y))),
                    _ => None,
                },
                BitwiseMethod::NOT { a, out } => match machine.registers.get(a.as_str()) {
                    Some(x) => Some((out, bit_not(x))),
                    None => None,
                },
                BitwiseMethod::LSH { a, out, amount } => match machine.registers.get(a.as_str()) {
                    Some(x) => Some((out, bit_shift(true, x, *amount))),
                    None => None,
                },
                BitwiseMethod::RSH { a, out, amount } => match machine.registers.get(a.as_str()) {
                    Some(x) => Some((out, bit_shift(false, x, *amount))),
                    None => None,
                },
            };
            match computed {
                Some((out, Calculated::Value(v))) => machine.registers.set(out.as_str(), v),
                Some((_, Calculated::Fault(f))) => return Ok(Outcome::Fault(f)),
                _ => {},
            }
        }
        Ok(Outcome::Continue)
    }
}

} // verus!
