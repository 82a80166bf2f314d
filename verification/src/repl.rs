//! What the interactive prompt makes of a line: a request to show the registers, or
//! bytecode written as hexadecimal digits, with spaces allowed between them.
use vstd::prelude::*;
use vstd::utf8::encode_utf8;

use crate::machine::register::str_equal;

verus! {

/// Whether a byte is an ASCII hexadecimal digit (`0-9`, `A-F` or `a-f`).
pub open spec fn is_hex_digit(b: u8) -> bool {
    (0x30 <= b <= 0x39) || (0x41 <= b <= 0x46) || (0x61 <= b <= 0x66)
}

/// The value of a hexadecimal digit.
pub open spec fn hex_value(b: u8) -> int {
    if 0x30 <= b <= 0x39 {
        b - 0x30
    } else if 0x41 <= b <= 0x46 {
        b - 0x41 + 10
    } else {
        b - 0x61 + 10
    }
}

/// Whether a run of bytes is an even number of hexadecimal digits.
pub open spec fn hex_ok(digits: Seq<u8>) -> bool {
    &&& digits.len() % 2 == 0
    &&& forall|i: int| 0 <= i < digits.len() ==> is_hex_digit(#[trigger] digits[i])
}

/// The bytes that a run of hexadecimal digits spells, two digits to a byte, the
/// first digit of each pair being the high one.
pub open spec fn hex_bytes(digits: Seq<u8>) -> Seq<u8> {
    Seq::new(
        digits.len() / 2,
        |i: int| (16 * hex_value(digits[2 * i]) + hex_value(digits[2 * i + 1])) as u8,
    )
}

/// The bytes that a run of digits spells, or `None` where it is not hexadecimal.
pub open spec fn hex_line(digits: Seq<u8>) -> Option<Seq<u8>> {
    if hex_ok(digits) {
        Some(hex_bytes(digits))
    } else {
        None
    }
}

/// The bytes with every space (byte 32) taken out.
pub open spec fn without_spaces(s: Seq<u8>) -> Seq<u8>
    decreases s.len(),
{
    if s.len() == 0 {
        s
    } else if s.last() == 32 {
        without_spaces(s.drop_last())
    } else {
        without_spaces(s.drop_last()).push(s.last())
    }
}

/// The text of the prompt's request to show the registers.
pub open spec fn registers_request() -> Seq<char> {
    seq![':', 'r', 'e', 'g', 'i', 's', 't', 'e', 'r', 's']
}

/// Decodes hexadecimal digits with `hex::decode`.
///
/// Trusted: the contract states what `hex::decode` in hex 0.4.3 does: it refuses a
/// run of odd length and any byte that is not `0-9`, `A-F` or `a-f`, and otherwise
/// gives one byte for each pair of digits, the first digit being the high half.
#[verifier::external_body]
fn hex_decode(digits: &[u8]) -> (r: Option<Vec<u8>>)
    ensures
        r is Some <==> hex_ok(digits@),
        r matches Some(b) ==> b@ == hex_bytes(digits@),
{
    hex::decode(digits).ok()
}

/// Decodes a line of hexadecimal digits, ignoring the spaces in it.
pub fn decode_hex_line(line: &str) -> (r: Option<Vec<u8>>)
    ensures
        r is Some <==> hex_ok(without_spaces(encode_utf8(line@))),
        r matches Some(b) ==> b@ == hex_bytes(without_spaces(encode_utf8(line@))),
{
    let bytes = line.as_bytes();
    let mut digits: Vec<u8> = Vec::new();
    let mut i: usize = 0;
    while i < bytes.len()
        invariant
            i <= bytes@.len(),
            bytes@ == encode_utf8(line@),
            digits@ == without_spaces(bytes@.take(i as int)),
        decreases bytes.len() - i,
    {
        proof {
            assert(bytes@.take(i as int + 1).drop_last() =~= bytes@.take(i as int));
        }
        if bytes[i] != 32 {
            digits.push(bytes[i]);
        }
        i = i + 1;
    }
    proof {
        assert(bytes@.take(bytes@.len() as int) =~= bytes@);
    }
    hex_decode(digits.as_slice())
}

/// A line typed at the prompt.
pub enum ReplCommand {
    /// `:registers`: show the register file.
    ShowRegisters,
    /// Hexadecimal digits: bytecode to append and run.
    Bytecode(Vec<u8>),
    /// Anything else, which the prompt passes over.
    Ignore,
}

/// What the prompt makes of a line.
pub fn repl_command(line: &str) -> (c: ReplCommand)
    ensures
        line@ == registers_request() ==> c is ShowRegisters,
        line@ != registers_request() ==> match c {
            ReplCommand::ShowRegisters => false,
            ReplCommand::Bytecode(b) => hex_line(without_spaces(encode_utf8(line@))) == Some(b@),
            ReplCommand::Ignore => hex_line(without_spaces(encode_utf8(line@))) is None,
        },
{
    let request = ":registers";
    proof {
        reveal_strlit(":registers");
        assert(request@ =~= registers_request());
    }
    if str_equal(line, request) {
        return ReplCommand::ShowRegisters;
    }
    match decode_hex_line(line) {
        Some(b) => ReplCommand::Bytecode(b),
        None => ReplCommand::Ignore,
    }
}

} // verus!
