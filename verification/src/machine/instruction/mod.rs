use vstd::prelude::*;

pub mod encode;
pub mod executors;

use crate::machine::opcode::Opcode;
use crate::machine::register::{RegisterValue, ValueView};

verus! {

/// A signal indicating that an event needs immediate attention.
#[derive(Debug, Clone, PartialEq)]
pub struct Interrupt {
    /// The address to print to or read from
    pub address: String,
    pub kind: InterruptKind,
}

/// The interrupt types supported by the virtual machine.
#[derive(Debug, Clone, Copy, PartialEq, Eq, Structural)]
pub enum InterruptKind {
    /// Print the value of a register.
    Print,
    /// Read a value (currently ignored by the machine).
    Read,
    /// Stop execution with an error message.
    Panic,
}

/// The byte that encodes an interrupt kind.
pub open spec fn interrupt_kind_byte(k: InterruptKind) -> u8 {
    match k {
        InterruptKind::Print => 0,
        InterruptKind::Read => 1,
        InterruptKind::Panic => 2,
    }
}

/// The interrupt kind of a byte; only 0, 1 and 2 name one.
pub open spec fn interrupt_kind_of_byte(b: u8) -> InterruptKind
    recommends
        b <= 2,
{
    if b == 0 {
        InterruptKind::Print
    } else if b == 1 {
        InterruptKind::Read
    } else {
        InterruptKind::Panic
    }
}

impl InterruptKind {
    pub fn to_byte(&self) -> (b: u8)
        ensures
            b == interrupt_kind_byte(*self),
    {
        match self {
            InterruptKind::Print => 0,
            InterruptKind::Read => 1,
            InterruptKind::Panic => 2,
        }
    }

    /// The interrupt kind of a byte (no other byte names one).
    pub fn from_byte(b: u8) -> (k: InterruptKind)
        requires
            b <= 2,
        ensures
            k == interrupt_kind_of_byte(b),
    {
        if b == 0 {
            InterruptKind::Print
        } else if b == 1 {
            InterruptKind::Read
        } else {
            InterruptKind::Panic
        }
    }
}

/// Basic arithmetic operations which act on two registers and write the result to a third.
#[derive(Debug, Clone, Copy, PartialEq, Eq, Structural)]
pub enum CalculationMethod {
    ADD,
    SUBTRACT,
    MULTIPLY,
    DIVIDE,
    POWER,
    MODULO,
    SQRT,
    CONCAT,
}

pub open spec fn calculation_byte(m: CalculationMethod) -> u8 {
    match m {
        CalculationMethod::ADD => 0,
        CalculationMethod::SUBTRACT => 1,
        CalculationMethod::MULTIPLY => 2,
        CalculationMethod::DIVIDE => 3,
        CalculationMethod::POWER => 4,
        CalculationMethod::MODULO => 5,
        CalculationMethod::SQRT => 6,
        CalculationMethod::CONCAT => 7,
    }
}

pub open spec fn calculation_of_byte(b: u8) -> CalculationMethod
    recommends
        b <= 7,
{
    if b == 0 {
        CalculationMethod::ADD
    } else if b == 1 {
        CalculationMethod::SUBTRACT
    } else if b == 2 {
        CalculationMethod::MULTIPLY
    } else if b == 3 {
        CalculationMethod::DIVIDE
    } else if b == 4 {
        CalculationMethod::POWER
    } else if b == 5 {
        CalculationMethod::MODULO
    } else if b == 6 {
        CalculationMethod::SQRT
    } else {
        CalculationMethod::CONCAT
    }
}

impl CalculationMethod {
    pub fn to_byte(&self) -> (b: u8)
        ensures
            b == calculation_byte(*self),
    {
        match self {
            CalculationMethod::ADD => 0,
            CalculationMethod::SUBTRACT => 1,
            CalculationMethod::MULTIPLY => 2,
            CalculationMethod::DIVIDE => 3,
            CalculationMethod::POWER => 4,
            CalculationMethod::MODULO => 5,
            CalculationMethod::SQRT => 6,
            CalculationMethod::CONCAT => 7,
        }
    }

    /// The calculation method of a byte (only 0 to 7 name one).
    pub fn from_byte(b: u8) -> (m: CalculationMethod)
        requires
            b <= 7,
        ensures
            m == calculation_of_byte(b),
    {
        if b == 0 {
            CalculationMethod::ADD
        } else if b == 1 {
            CalculationMethod::SUBTRACT
        } else if b == 2 {
            CalculationMethod::MULTIPLY
        } else if b == 3 {
            CalculationMethod::DIVIDE
        } else if b == 4 {
            CalculationMethod::POWER
        } else if b == 5 {
            CalculationMethod::MODULO
        } else if b == 6 {
            CalculationMethod::SQRT
        } else {
            CalculationMethod::CONCAT
        }
    }
}

/// Comparisons which act on two registers and write a boolean to a third.
#[derive(Debug, Clone, Copy, PartialEq, Eq, Structural)]
pub enum ComparisonMethod {
    EQ,
    NEQ,
    GT,
    GTE,
    LT,
    LTE,
}

pub open spec fn comparison_byte(m: ComparisonMethod) -> u8 {
    match m {
        ComparisonMethod::EQ => 0,
        ComparisonMethod::NEQ => 1,
        ComparisonMethod::GT => 2,
        ComparisonMethod::GTE => 3,
        ComparisonMethod::LT => 4,
        ComparisonMethod::LTE => 5,
    }
}

pub open spec fn comparison_of_byte(b: u8) -> ComparisonMethod
    recommends
        b <= 5,
{
    if b == 0 {
        ComparisonMethod::EQ
    } else if b == 1 {
        ComparisonMethod::NEQ
    } else if b == 2 {
        ComparisonMethod::GT
    } else if b == 3 {
        ComparisonMethod::GTE
    } else if b == 4 {
        ComparisonMethod::LT
    } else {
        ComparisonMethod::LTE
    }
}

impl ComparisonMethod {
    pub fn to_byte(&self) -> (b: u8)
        ensures
            b == comparison_byte(*self),
    {
        match self {
            ComparisonMethod::EQ => 0,
            ComparisonMethod::NEQ => 1,
            ComparisonMethod::GT => 2,
            ComparisonMethod::GTE => 3,
            ComparisonMethod::LT => 4,
            ComparisonMethod::LTE => 5,
        }
    }

    /// The comparison method of a byte (only 0 to 5 name one).
    pub fn from_byte(b: u8) -> (m: ComparisonMethod)
        requires
            b <= 5,
        ensures
            m == comparison_of_byte(b),
    {
        if b == 0 {
            ComparisonMethod::EQ
        } else if b == 1 {
            ComparisonMethod::NEQ
        } else if b == 2 {
            ComparisonMethod::GT
        } else if b == 3 {
            ComparisonMethod::GTE
        } else if b == 4 {
            ComparisonMethod::LT
        } else {
            ComparisonMethod::LTE
        }
    }
}

/// Bitwise operations on named registers.
#[derive(Debug, Clone, PartialEq)]
#[allow(non_camel_case_types)]
pub enum BitwiseMethod {
    AND { a: String, b: String, out: String },
    OR { a: String, b: String, out: String },
    XOR { a: String, b: String, out: String },
    NOT { a: String, out: String },
    LSH { a: String, out: String, amount: u32 },
    RSH { a: String, out: String, amount: u32 },
}

/// A bitwise operation, with its register names as character sequences.
pub enum BitwiseView {
    AND { a: Seq<char>, b: Seq<char>, out: Seq<char> },
    OR { a: Seq<char>, b: Seq<char>, out: Seq<char> },
    XOR { a: Seq<char>, b: Seq<char>, out: Seq<char> },
    NOT { a: Seq<char>, out: Seq<char> },
    LSH { a: Seq<char>, out: Seq<char>, amount: u32 },
    RSH { a: Seq<char>, out: Seq<char>, amount: u32 },
}

impl View for BitwiseMethod {
    type V = BitwiseView;

    open spec fn view(&self) -> BitwiseView {
        match self {
            BitwiseMethod::AND { a, b, out } => BitwiseView::AND { a: a@, b: b@, out: out@ },
            BitwiseMethod::OR { a, b, out } => BitwiseView::OR { a: a@, b: b@, out: out@ },
            BitwiseMethod::XOR { a, b, out } => BitwiseView::XOR { a: a@, b: b@, out: out@ },
            BitwiseMethod::NOT { a, out } => BitwiseView::NOT { a: a@, out: out@ },
            BitwiseMethod::LSH { a, out, amount } => BitwiseView::LSH { a: a@, out: out@, amount: *amount },
            BitwiseMethod::RSH { a, out, amount } => BitwiseView::RSH { a: a@, out: out@, amount: *amount },
        }
    }
}

/// The byte that names a bitwise operation.
pub open spec fn bitwise_byte(m: BitwiseView) -> u8 {
    match m {
        BitwiseView::AND { .. } => 0,
        BitwiseView::OR { .. } => 1,
        BitwiseView::XOR { .. } => 2,
        BitwiseView::NOT { .. } => 3,
        BitwiseView::LSH { .. } => 4,
        BitwiseView::RSH { .. } => 5,
    }
}

impl BitwiseMethod {
    /// The byte that names this bitwise operation.
    pub fn get_method_byte(&self) -> (b: u8)
        ensures
            b == bitwise_byte(self@),
    {
        match self {
            BitwiseMethod::AND { .. } => 0,
            BitwiseMethod::OR { .. } => 1,
            BitwiseMethod::XOR { .. } => 2,
            BitwiseMethod::NOT { .. } => 3,
            BitwiseMethod::LSH { .. } => 4,
            BitwiseMethod::RSH { .. } => 5,
        }
    }
}

/// A callable machine instruction.
#[derive(Debug, Clone, PartialEq)]
pub enum Instruction {
    /// Stop all further execution
    Halt,
    /// Load a value into a register
    Load { value: RegisterValue, register: String },
    /// Move a value from one register address to another
    Move { source: String, destination: String },
    /// Copy a value from a register to another
    Copy { source: String, destination: String },
    /// Add a value to an array in a register
    Push { value: RegisterValue, destination: String },
    /// Add a list of values to an array in a register
    Append { value: Vec<RegisterValue>, destination: String },
    /// Perform a calculation on two registers and write the result to a third
    Calculate { method: CalculationMethod, operand1: String, operand2: String, destination: String },
    /// Compare two registers and write the result into a third
    Compare { method: ComparisonMethod, operand1: String, operand2: String, destination: String },
    /// Perform a bitwise operation
    Bitwise { method: BitwiseMethod },
    /// Set the program counter to the given value
    Jump { destination: u32 },
    /// Set the program counter to a value if the given register holds `false`
    JumpC { destination: u32, conditional_address: String },
    /// Set off an interrupt, for example to print a register to standard output
    Interrupt { interrupt: Interrupt },
    /// Call the method whose body starts at the given address
    Call { address: usize },
    /// Return from a method call
    Return,
    /// Store a value from a register into the current stack frame's local variables.
    StoreLocal { name: String, register: String },
    /// Load a value from the current stack frame's local variables into a register.
    LoadLocal { name: String, register: String },
    /// Load the type tag of a register's value into another register as `Int64`.
    LoadType { source: String, destination: String },
    /// Dispatch a multimethod call on the value of the `arg` register.
    Dispatch { method_name: String },
    // Compile-time-only pseudo-instructions, resolved to real instructions before encoding.
    LabelTarget { id: usize },
    JumpToLabel { id: usize },
    JumpCToLabel { id: usize, conditional_address: String },
    /// Call a named dispatch shim; resolved to `Call { address }` during linking.
    CallShim { method_name: String },
}

/// An instruction, with its names as character sequences and its values as value views.
pub enum InstrView {
    Halt,
    Load { value: ValueView, register: Seq<char> },
    Move { source: Seq<char>, destination: Seq<char> },
    Copy { source: Seq<char>, destination: Seq<char> },
    Push { value: ValueView, destination: Seq<char> },
    Append { value: Seq<ValueView>, destination: Seq<char> },
    Calculate { method: CalculationMethod, operand1: Seq<char>, operand2: Seq<char>, destination: Seq<char> },
    Compare { method: ComparisonMethod, operand1: Seq<char>, operand2: Seq<char>, destination: Seq<char> },
    Bitwise { method: BitwiseView },
    Jump { destination: u32 },
    JumpC { destination: u32, conditional_address: Seq<char> },
    Interrupt { address: Seq<char>, kind: InterruptKind },
    Call { address: usize },
    Return,
    StoreLocal { name: Seq<char>, register: Seq<char> },
    LoadLocal { name: Seq<char>, register: Seq<char> },
    LoadType { source: Seq<char>, destination: Seq<char> },
    Dispatch { method_name: Seq<char> },
    LabelTarget { id: usize },
    JumpToLabel { id: usize },
    JumpCToLabel { id: usize, conditional_address: Seq<char> },
    CallShim { method_name: Seq<char> },
}

/// The views of a sequence of register values.
pub open spec fn values_view(v: Seq<RegisterValue>) -> Seq<ValueView> {
    Seq::new(v.len(), |i: int| v[i]@)
}

impl View for Instruction {
    type V = InstrView;

    open spec fn view(&self) -> InstrView {
        match self {
            Instruction::Halt => InstrView::Halt,
            Instruction::Load { value, register } => InstrView::Load { value: value@, register: register@ },
            Instruction::Move { source, destination } => InstrView::Move { source: source@, destination: destination@ },
            Instruction::Copy { source, destination } => InstrView::Copy { source: source@, destination: destination@ },
            Instruction::Push { value, destination } => InstrView::Push { value: value@, destination: destination@ },
            Instruction::Append { value, destination } => InstrView::Append { value: values_view(value@), destination: destination@ },
            Instruction::Calculate { method, operand1, operand2, destination } => InstrView::Calculate {
                method: *method,
                operand1: operand1@,
                operand2: operand2@,
                destination: destination@,
            },
            Instruction::Compare { method, operand1, operand2, destination } => InstrView::Compare {
                method: *method,
                operand1: operand1@,
                operand2: operand2@,
                destination: destination@,
            },
            Instruction::Bitwise { method } => InstrView::Bitwise { method: method@ },
            Instruction::Jump { destination } => InstrView::Jump { destination: *destination },
            Instruction::JumpC { destination, conditional_address } => InstrView::JumpC {
                destination: *destination,
                conditional_address: conditional_address@,
            },
            Instruction::Interrupt { interrupt } => InstrView::Interrupt { address: interrupt.address@, kind: interrupt.kind },
            Instruction::Call { address } => InstrView::Call { address: *address },
            Instruction::Return => InstrView::Return,
            Instruction::StoreLocal { name, register } => InstrView::StoreLocal { name: name@, register: register@ },
            Instruction::LoadLocal { name, register } => InstrView::LoadLocal { name: name@, register: register@ },
            Instruction::LoadType { source, destination } => InstrView::LoadType { source: source@, destination: destination@ },
            Instruction::Dispatch { method_name } => InstrView::Dispatch { method_name: method_name@ },
            Instruction::LabelTarget { id } => InstrView::LabelTarget { id: *id },
            Instruction::JumpToLabel { id } => InstrView::JumpToLabel { id: *id },
            Instruction::JumpCToLabel { id, conditional_address } => InstrView::JumpCToLabel {
                id: *id,
                conditional_address: conditional_address@,
            },
            Instruction::CallShim { method_name } => InstrView::CallShim { method_name: method_name@ },
        }
    }
}

/// Whether an instruction is a compile-time pseudo-instruction, which has no opcode.
pub open spec fn is_pseudo(i: InstrView) -> bool {
    i is LabelTarget || i is JumpToLabel || i is JumpCToLabel || i is CallShim
}

/// The opcode of a real instruction.
pub open spec fn opcode_of(i: InstrView) -> Opcode
    recommends
        !is_pseudo(i),
{
    match i {
        InstrView::Halt => Opcode::Halt,
        InstrView::Load { .. } => Opcode::Load,
        InstrView::Move { .. } => Opcode::Move,
        InstrView::Copy { .. } => Opcode::Copy,
        InstrView::Calculate { .. } => Opcode::Calculate,
        InstrView::Compare { .. } => Opcode::Compare,
        InstrView::Bitwise { .. } => Opcode::Bitwise,
        InstrView::Jump { .. } => Opcode::Jump,
        InstrView::JumpC { .. } => Opcode::JumpC,
        InstrView::Interrupt { .. } => Opcode::Interrupt,
        InstrView::Call { .. } => Opcode::Call,
        InstrView::Return => Opcode::Return,
        InstrView::Push { .. } => Opcode::Push,
        InstrView::Append { .. } => Opcode::Append,
        InstrView::StoreLocal { .. } => Opcode::StoreLocal,
        InstrView::LoadLocal { .. } => Opcode::LoadLocal,
        InstrView::LoadType { .. } => Opcode::LoadType,
        InstrView::Dispatch { .. } => Opcode::Dispatch,
        _ => Opcode::Illegal,
    }
}

impl Instruction {
    /// The opcode of this instruction; pseudo-instructions have none and are left out.
    pub fn get_opcode(&self) -> (op: Opcode)
        requires
            !is_pseudo(self@),
        ensures
            op == opcode_of(self@),
    {
        match self {
            Instruction::Halt => Opcode::Halt,
            Instruction::Load { .. } => Opcode::Load,
            Instruction::Move { .. } => Opcode::Move,
            Instruction::Copy { .. } => Opcode::Copy,
            Instruction::Calculate { .. } => Opcode::Calculate,
            Instruction::Compare { .. } => Opcode::Compare,
            Instruction::Bitwise { .. } => Opcode::Bitwise,
            Instruction::Jump { .. } => Opcode::Jump,
            Instruction::JumpC { .. } => Opcode::JumpC,
            Instruction::Interrupt { .. } => Opcode::Interrupt,
            Instruction::Call { .. } => Opcode::Call,
            Instruction::Return => Opcode::Return,
            Instruction::Push { .. } => Opcode::Push,
            Instruction::Append { .. } => Opcode::Append,
            Instruction::StoreLocal { .. } => Opcode::StoreLocal,
            Instruction::LoadLocal { .. } => Opcode::LoadLocal,
            Instruction::LoadType { .. } => Opcode::LoadType,
            Instruction::Dispatch { .. } => Opcode::Dispatch,
            _ => Opcode::Illegal,
        }
    }
}

/// Errors of the instruction stream.
#[derive(Debug, Clone, PartialEq)]
pub enum BytecodeError {
    UnexpectedEof,
    InvalidOpcode(u8),
}

/// Operations on the byte memory: bitwise operations on ranges of bytes, and growing,
/// shrinking and writing the memory.
#[derive(Debug, Clone, PartialEq)]
#[allow(non_camel_case_types)]
pub enum MemoryMethod {
    AND { a: u64, b: u64, out: u64, len: usize },
    OR { a: u64, b: u64, out: u64, len: usize },
    XOR { a: u64, b: u64, out: u64, len: usize },
    NOT { a: u64, out: u64, len: usize },
    LSH { a: u64, out: u64, amount: u32, len: usize },
    RSH { a: u64, out: u64, amount: u32, len: usize },
    GROW { amount: u64 },
    SHRINK { amount: u64 },
    SET { address: u64, value: u8 },
    SET_RANGE { address: u64, values: Vec<u8> },
    UNSET { address: u64 },
}

} // verus!
