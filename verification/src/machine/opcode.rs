use vstd::prelude::*;

verus! {

/// The operation codes of the Strontium instruction set, each encoded as one byte.
#[derive(Debug, Clone, Copy, PartialEq, Eq, Hash, Structural)]
pub enum Opcode {
    /// Stop all execution instantly.
    Halt,
    /// Load a literal value into a register.
    Load,
    /// Move a value from one register to another; the source is cleared.
    Move,
    /// Copy a value from one register to another; the source is left untouched.
    Copy,
    /// Perform a calculation on two registers and write the result to a third.
    Calculate,
    /// Perform a comparison on two registers and write the result to a third.
    Compare,
    /// Perform a bitwise operation.
    Bitwise,
    /// Set the program counter to an absolute byte address.
    Jump,
    /// Set the program counter when a register holds `false`.
    JumpC,
    /// Emit an event that needs immediate attention (`PRINT`, `READ`, `PANIC`).
    Interrupt,
    /// Call a method at an absolute byte address.
    Call,
    /// Return from a method call.
    Return,
    /// Add a value to an array in a register.
    Push,
    /// Add a list of values to an array in a register.
    Append,
    /// Store a register value into the current stack frame's local variables.
    StoreLocal,
    /// Load a value from the current stack frame's local variables into a register.
    LoadLocal,
    /// Dispatch a multimethod call based on the value in the `arg` register.
    Dispatch,
    /// An invalid opcode.
    Illegal,
    /// Store the type tag of a register's value in another register.
    LoadType,
}

/// The opcode that a byte denotes; every byte from 17 up denotes `Illegal`.
pub open spec fn opcode_of_byte(byte: u8) -> Opcode {
    if byte == 0 { Opcode::Halt }
    else if byte == 1 { Opcode::Load }
    else if byte == 2 { Opcode::Move }
    else if byte == 3 { Opcode::Copy }
    else if byte == 4 { Opcode::Calculate }
    else if byte == 5 { Opcode::Compare }
    else if byte == 6 { Opcode::Bitwise }
    else if byte == 7 { Opcode::Jump }
    else if byte == 8 { Opcode::JumpC }
    else if byte == 9 { Opcode::Interrupt }
    else if byte == 10 { Opcode::Call }
    else if byte == 11 { Opcode::Return }
    else if byte == 12 { Opcode::Push }
    else if byte == 13 { Opcode::Append }
    else if byte == 14 { Opcode::StoreLocal }
    else if byte == 15 { Opcode::LoadLocal }
    else if byte == 16 { Opcode::Dispatch }
    else { Opcode::Illegal }
}

/// The byte that encodes an opcode; `Illegal` is written as 255. `LoadType` is written as
/// 17, a byte that the decoder reads as `Illegal`.
pub open spec fn byte_of_opcode(op: Opcode) -> u8 {
    match op {
        Opcode::Halt => 0,
        Opcode::Load => 1,
        Opcode::Move => 2,
        Opcode::Copy => 3,
        Opcode::Calculate => 4,
        Opcode::Compare => 5,
        Opcode::Bitwise => 6,
        Opcode::Jump => 7,
        Opcode::JumpC => 8,
        Opcode::Interrupt => 9,
        Opcode::Call => 10,
        Opcode::Return => 11,
        Opcode::Push => 12,
        Opcode::Append => 13,
        Opcode::StoreLocal => 14,
        Opcode::LoadLocal => 15,
        Opcode::Dispatch => 16,
        Opcode::LoadType => 17,
        Opcode::Illegal => 255,
    }
}

impl Opcode {
    /// Decode an opcode from its byte.
    pub fn from_byte(byte: u8) -> (op: Opcode)
        ensures
            op == opcode_of_byte(byte),
    {
        match byte {
            0 => Opcode::Halt,
            1 => Opcode::Load,
            2 => Opcode::Move,
            3 => Opcode::Copy,
            4 => Opcode::Calculate,
            5 => Opcode::Compare,
            6 => Opcode::Bitwise,
            7 => Opcode::Jump,
            8 => Opcode::JumpC,
            9 => Opcode::Interrupt,
            10 => Opcode::Call,
            11 => Opcode::Return,
            12 => Opcode::Push,
            13 => Opcode::Append,
            14 => Opcode::StoreLocal,
            15 => Opcode::LoadLocal,
            16 => Opcode::Dispatch,
            _ => Opcode::Illegal,
        }
    }

    /// Encode an opcode as its byte.
    pub fn to_byte(&self) -> (byte: u8)
        ensures
            byte == byte_of_opcode(*self),
    {
        match self {
            Opcode::Halt => 0,
            Opcode::Load => 1,
            Opcode::Move => 2,
            Opcode::Copy => 3,
            Opcode::Calculate => 4,
            Opcode::Compare => 5,
            Opcode::Bitwise => 6,
            Opcode::Jump => 7,
            Opcode::JumpC => 8,
            Opcode::Interrupt => 9,
            Opcode::Call => 10,
            Opcode::Return => 11,
            Opcode::Push => 12,
            Opcode::Append => 13,
            Opcode::StoreLocal => 14,
            Opcode::LoadLocal => 15,
            Opcode::Dispatch => 16,
            Opcode::LoadType => 17,
            Opcode::Illegal => 255,
        }
    }
}

impl From<u8> for Opcode {
    fn from(byte: u8) -> (op: Opcode) {
        Opcode::from_byte(byte)
    }
}

impl vstd::std_specs::convert::FromSpecImpl<u8> for Opcode {
    open spec fn obeys_from_spec() -> bool {
        true
    }

    open spec fn from_spec(v: u8) -> Opcode {
        opcode_of_byte(v)
    }
}

impl From<Opcode> for u8 {
    fn from(op: Opcode) -> (byte: u8) {
        op.to_byte()
    }
}

impl vstd::std_specs::convert::FromSpecImpl<Opcode> for u8 {
    open spec fn obeys_from_spec() -> bool {
        true
    }

    open spec fn from_spec(v: Opcode) -> u8 {
        byte_of_opcode(v)
    }
}

/// The position of an opcode in the declaration of `Opcode`, which is what casting an
/// opcode to an integer gives: `Illegal` stands at 17 and `LoadType` at 18.
pub open spec fn opcode_index(op: Opcode) -> u8 {
    match op {
        Opcode::Illegal => 17,
        Opcode::LoadType => 18,
        _ => byte_of_opcode(op),
    }
}

impl Opcode {
    /// The position of this opcode in the declaration of `Opcode`.
    pub fn index(&self) -> (i: u8)
        ensures
            i == opcode_index(*self),
    {
        match self {
            Opcode::Illegal => 17,
            Opcode::LoadType => 18,
            _ => self.to_byte(),
        }
    }
}

/// Decoding the byte of an opcode gives the opcode back, for every opcode of the
/// instruction set: all but `Illegal` and `LoadType`, whose byte 17 decodes as `Illegal`.
pub proof fn lemma_opcode_byte_roundtrip(op: Opcode)
    requires
        op != Opcode::Illegal,
        op != Opcode::LoadType,
    ensures
        opcode_of_byte(byte_of_opcode(op)) == op,
{
}

/// Encoding the opcode of a byte gives the byte back, for every byte that names an instruction.
pub proof fn lemma_byte_opcode_roundtrip(byte: u8)
    requires
        byte <= 16,
    ensures
        byte_of_opcode(opcode_of_byte(byte)) == byte,
{
}

} // verus!
