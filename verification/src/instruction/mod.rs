//! The instruction set of the bit memory, each instruction named by one byte.
use vstd::prelude::*;

verus! {

/// An instruction on the bit memory.
#[derive(Debug, PartialEq, Eq, Clone, Copy, Structural)]
pub enum Instruction {
    /// Stop executing bytecode
    HALT,
    /// Set the bit(s) at the given address(es) to 1
    SET,
    /// Set the bit(s) at the given address(es) to 0
    UNSET,
    /// Grow the virtual memory by (n) bits
    ALLOCATE,
    /// Shrink the virtual memory by (n) bits
    DEALLOCATE,
    /// Perform a bitwise AND operation on two bits or two ranges
    AND,
    /// Perform a bitwise OR operation on two bits or two ranges
    OR,
    /// Perform a bitwise exclusive OR operation on two bits or two ranges
    XOR,
    /// Perform a bitwise negation on two bits or two ranges
    NOT,
    /// Perform an arithmetic left shift on two given ranges
    LSHIFT,
    /// Perform an arithmetic right shift on two given ranges
    RSHIFT,
    /// Set the instruction pointer to the given value
    JUMP,
    /// Set the instruction pointer to a value if the bit at a given address is set
    JUMPIF,
    /// Invalid instruction
    ILLEGAL,
}

/// The instruction that a byte names; bytes above 12 name `ILLEGAL`.
pub open spec fn instruction_of_byte(b: u8) -> Instruction {
    if b == 0 { Instruction::HALT }
    else if b == 1 { Instruction::SET }
    else if b == 2 { Instruction::UNSET }
    else if b == 3 { Instruction::ALLOCATE }
    else if b == 4 { Instruction::DEALLOCATE }
    else if b == 5 { Instruction::AND }
    else if b == 6 { Instruction::OR }
    else if b == 7 { Instruction::XOR }
    else if b == 8 { Instruction::NOT }
    else if b == 9 { Instruction::LSHIFT }
    else if b == 10 { Instruction::RSHIFT }
    else if b == 11 { Instruction::JUMP }
    else if b == 12 { Instruction::JUMPIF }
    else { Instruction::ILLEGAL }
}

/// The byte of an instruction; `ILLEGAL` is written as 0, the byte of `HALT`.
pub open spec fn byte_of_instruction(i: Instruction) -> u8 {
    match i {
        Instruction::HALT => 0,
        Instruction::SET => 1,
        Instruction::UNSET => 2,
        Instruction::ALLOCATE => 3,
        Instruction::DEALLOCATE => 4,
        Instruction::AND => 5,
        Instruction::OR => 6,
        Instruction::XOR => 7,
        Instruction::NOT => 8,
        Instruction::LSHIFT => 9,
        Instruction::RSHIFT => 10,
        Instruction::JUMP => 11,
        Instruction::JUMPIF => 12,
        Instruction::ILLEGAL => 0,
    }
}

impl Instruction {
    /// The instruction that a byte names.
    pub fn from_byte(byte: u8) -> (i: Instruction)
        ensures
            i == instruction_of_byte(byte),
    {
        match byte {
            0 => Instruction::HALT,
            1 => Instruction::SET,
            2 => Instruction::UNSET,
            3 => Instruction::ALLOCATE,
            4 => Instruction::DEALLOCATE,
            5 => Instruction::AND,
            6 => Instruction::OR,
            7 => Instruction::XOR,
            8 => Instruction::NOT,
            9 => Instruction::LSHIFT,
            10 => Instruction::RSHIFT,
            11 => Instruction::JUMP,
            12 => Instruction::JUMPIF,
            _ => Instruction::ILLEGAL,
        }
    }

    /// The byte of this instruction.
    pub fn to_byte(self) -> (b: u8)
        ensures
            b == byte_of_instruction(self),
    {
        match self {
            Instruction::HALT => 0,
            Instruction::SET => 1,
            Instruction::UNSET => 2,
            Instruction::ALLOCATE => 3,
            Instruction::DEALLOCATE => 4,
            Instruction::AND => 5,
            Instruction::OR => 6,
            Instruction::XOR => 7,
            Instruction::NOT => 8,
            Instruction::LSHIFT => 9,
            Instruction::RSHIFT => 10,
            Instruction::JUMP => 11,
            Instruction::JUMPIF => 12,
            Instruction::ILLEGAL => 0,
        }
    }
}

/// Every instruction but `ILLEGAL` reads back from its byte, and every byte up to 12 reads
/// back from its instruction.
pub proof fn lemma_instruction_byte_roundtrip(i: Instruction, b: u8)
    ensures
        i != Instruction::ILLEGAL ==> instruction_of_byte(byte_of_instruction(i)) == i,
        b <= 12 ==> byte_of_instruction(instruction_of_byte(b)) == b,
{
}

} // verus!
