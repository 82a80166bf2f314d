//! Executables made of a header and a list of instructions.
use vstd::prelude::*;

use crate::machine::bytecode::encode::encode_instruction;
use crate::machine::bytecode::{push_signature, signature};
use crate::machine::instruction::{is_pseudo, Instruction, InstrView};

verus! {

/// The header of an executable.
pub struct Header {
    /// The version(s) of Strontium compatible with this program; not written to the
    /// executable.
    pub version: String,
    /// The constants of the program, each an array of bytes.
    pub constants: Vec<Vec<u8>>,
}

/// The constants of a header as bytes: each one's length (cut to one byte) and its bytes.
pub open spec fn constants_bytes(cs: Seq<Seq<u8>>) -> Seq<u8>
    decreases cs.len(),
{
    if cs.len() == 0 {
        Seq::empty()
    } else {
        constants_bytes(cs.drop_last()) + seq![cs.last().len() as u8] + cs.last()
    }
}

/// The bytes of a header: the magic number, the number of constants (cut to one byte), then
/// the constants.
pub open spec fn header_bytes(cs: Seq<Seq<u8>>) -> Seq<u8> {
    signature() + seq![cs.len() as u8] + constants_bytes(cs)
}

/// The bytecode of a list of instructions, one after the other.
pub open spec fn instructions_bytes(is: Seq<InstrView>) -> Seq<u8>
    decreases is.len(),
{
    if is.len() == 0 {
        Seq::empty()
    } else {
        instructions_bytes(is.drop_last()) + encode_instruction(is.last())
    }
}

impl Header {
    /// The constants, each by its bytes.
    pub open spec fn constants_view(&self) -> Seq<Seq<u8>> {
        self.constants@.map_values(|c: Vec<u8>| c@)
    }

    /// The bytes of this header.
    pub fn to_bytes(&self) -> (r: Vec<u8>)
        ensures
            r@ == header_bytes(self.constants_view()),
    {
        let mut bytes: Vec<u8> = Vec::new();
        push_signature(&mut bytes);
        bytes.push(self.constants.len() as u8);
        let ghost start = bytes@;
        let mut i: usize = 0;
        while i < self.constants.len()
            invariant
                i <= self.constants.len(),
                bytes@ == start + constants_bytes(self.constants_view().take(i as int)),
            decreases self.constants.len() - i,
        {
            let mut constant = self.constants[i].clone();
            bytes.push(constant.len() as u8);
            bytes.append(&mut constant);
            proof {
                let t = self.constants_view().take(i + 1);
                assert(t.drop_last() =~= self.constants_view().take(i as int));
                assert(bytes@ =~= start + constants_bytes(t));
            }
            i = i + 1;
        }
        assert(self.constants_view().take(self.constants.len() as int) =~= self.constants_view());
        bytes
    }
}

/// An executable: the header, then the bytecode of each instruction in turn. Pseudo
/// instructions have no bytecode and are left out.
pub fn encode(header: Header, instructions: Vec<Instruction>) -> (r: Vec<u8>)
    requires
        forall|i: int| 0 <= i < instructions@.len() ==> !is_pseudo(#[trigger] instructions@[i]@),
    ensures
        r@ == header_bytes(header.constants_view()) + instructions_bytes(instructions@.map_values(|i: Instruction| i@)),
{
    let mut accumulator = header.to_bytes();
    let ghost start = accumulator@;
    let ghost views = instructions@.map_values(|i: Instruction| i@);
    let mut k: usize = 0;
    while k < instructions.len()
        invariant
            k <= instructions.len(),
            views == instructions@.map_values(|i: Instruction| i@),
            forall|i: int| 0 <= i < instructions@.len() ==> !is_pseudo(#[trigger] instructions@[i]@),
            accumulator@ == start + instructions_bytes(views.take(k as int)),
        decreases instructions.len() - k,
    {
        let mut bytes = instructions[k].to_bytes();
        accumulator.append(&mut bytes);
        proof {
            let t = views.take(k + 1);
            assert(t.drop_last() =~= views.take(k as int));
            assert(accumulator@ =~= start + instructions_bytes(t));
        }
        k = k + 1;
    }
    assert(views.take(instructions.len() as int) =~= views);
    accumulator
}

} // verus!
