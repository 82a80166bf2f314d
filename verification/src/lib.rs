//! Strontium: a register-based bytecode virtual machine with typed registers.
//!
//! The library holds the bytecode format (encoding and decoding of instructions and
//! register values), the register file, the byte and bit memories, the multimethod
//! dispatch table and the instruction executors, each with a contract proved by Verus.
pub mod instruction;
pub mod machine;
pub mod memory;
pub mod repl;
pub mod types;

pub use self::machine::instruction::Instruction;
pub use self::machine::Strontium;
pub use self::machine::opcode::Opcode;
