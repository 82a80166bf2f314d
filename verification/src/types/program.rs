use vstd::prelude::*;

use crate::machine::bytecode::{push_signature, signature};

verus! {

/// A compiled program: the format version, its constants and its bytecode. Its executable
/// form is the magic number followed by the serialised program, which the embedder writes
/// and reads.
#[derive(PartialEq, Debug, Clone)]
pub struct Program {
    /// The major version this project was compiled for.
    pub version: u8,
    /// Constant values which may be stored in the header.
    pub constants: Constants,
    /// The program as compiled Strontium bytecode.
    pub bytecode: Vec<u8>,
}

/// The named constants of a program.
#[derive(PartialEq, Debug, Clone)]
pub struct Constants {
    pub constants: Vec<(String, Constant)>,
}

/// A constant value. Floating-point constants are held as their IEEE-754 bit patterns.
#[derive(PartialEq, Debug, Clone)]
pub enum Constant {
    /// A signed 8-bit integer
    Int8(i8),
    /// A signed 16-bit integer
    Int16(i16),
    /// A signed 32-bit integer
    Int32(i32),
    /// A signed 64-bit integer
    Int64(i64),
    /// An unsigned 8-bit integer
    UInt8(u8),
    /// An unsigned 16-bit integer
    UInt16(u16),
    /// An unsigned 32-bit integer
    UInt32(u32),
    /// An unsigned 64-bit integer
    UInt64(u64),
    /// A 32-bit floating point value, as its bit pattern
    Float32(u32),
    /// A 64-bit floating point value, as its bit pattern
    Float64(u64),
    /// A sequence of UTF-8 graphemes
    String(String),
}

/// The errors of reading a program file.
#[derive(PartialEq, Debug, Clone)]
pub enum BytecodeError {
    /// The file ends unexpectedly.
    UnexpectedEOF,
    /// The magic `strontium` ASCII string is not at the beginning of the file.
    NoSignatureFound,
}

impl Constants {
    pub fn new(constants: Vec<(String, Constant)>) -> (r: Self)
        ensures
            r.constants == constants,
    {
        Self { constants }
    }
}

impl Program {
    pub fn new(version: u8, constants: Constants, bytecode: Vec<u8>) -> (r: Self)
        ensures
            r.version == version,
            r.constants == constants,
            r.bytecode == bytecode,
    {
        Self { version, constants, bytecode }
    }

    /// The executable form of a serialised program: the magic number, then the payload.
    pub fn sign(payload: Vec<u8>) -> (r: Vec<u8>)
        ensures
            r@ == signature() + payload@,
    {
        let mut bytes: Vec<u8> = Vec::new();
        push_signature(&mut bytes);
        let mut rest = payload;
        bytes.append(&mut rest);
        bytes
    }

    /// The serialised program in an executable: the bytes after the magic number, or
    /// `NoSignatureFound` where the first nine bytes are not the magic number. Bytes too short
    /// to hold a magic number are left out.
    pub fn signed_payload(bytes: &[u8]) -> (r: Result<Vec<u8>, BytecodeError>)
        requires
            bytes@.len() >= 9,
        ensures
            bytes@.subrange(0, 9) == signature() ==> (r matches Ok(p) && p@ == bytes@.skip(9)),
            bytes@.subrange(0, 9) != signature() ==> r == Err::<Vec<u8>, BytecodeError>(BytecodeError::NoSignatureFound),
    {
        let mut expected: Vec<u8> = Vec::new();
        push_signature(&mut expected);
        let mut i: usize = 0;
        while i < 9
            invariant
                i <= 9,
                bytes@.len() >= 9,
                expected@ == signature(),
                forall|k: int| 0 <= k < i ==> bytes@[k] == expected@[k],
            decreases 9 - i,
        {
            if bytes[i] != expected[i] {
                assert(bytes@.subrange(0, 9)[i as int] != signature()[i as int]);
                return Err(BytecodeError::NoSignatureFound);
            }
            i = i + 1;
        }
        assert(bytes@.subrange(0, 9) =~= signature());
        let mut payload: Vec<u8> = Vec::new();
        let mut j: usize = 9;
        while j < bytes.len()
            invariant
                9 <= j <= bytes@.len(),
                payload@ == bytes@.subrange(9, j as int),
            decreases bytes.len() - j,
        {
            payload.push(bytes[j]);
            assert(payload@ =~= bytes@.subrange(9, j + 1));
            j = j + 1;
        }
        assert(payload@ =~= bytes@.skip(9));
        Ok(payload)
    }
}

/// Reading the payload of a signed executable gives the payload back.
pub proof fn lemma_sign_roundtrip(payload: Seq<u8>)
    ensures
        (signature() + payload).len() >= 9,
        (signature() + payload).subrange(0, 9) == signature(),
        (signature() + payload).skip(9) == payload,
{
    assert((signature() + payload).subrange(0, 9) =~= signature());
    assert((signature() + payload).skip(9) =~= payload);
}

} // verus!
