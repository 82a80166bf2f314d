//! The Strontium bytecode format.
use vstd::prelude::*;
use vstd::utf8::{decode_utf8, encode_utf8, valid_utf8};
use std::string::FromUtf8Error;

use crate::machine::bytecode::encode::name_field;
use crate::machine::utf8::{string_bytes, string_from_utf8};

pub mod decode;
pub mod encode;
pub mod roundtrip;

verus! {

/// The errors of decoding bytecode.
#[derive(Debug, PartialEq)]
pub enum BytecodeError {
    /// Unexpected end of bytecode at the given position
    UnexpectedEof(u32),
    /// Unexpected bytes encountered
    UnexpectedBytes { expected: Vec<u8>, actual: Vec<u8> },
    /// Invalid opcode encountered
    InvalidOpcode(u8),
    /// Invalid operand encountered
    InvalidOperand,
    /// Mismatched operand type
    OperandTypeMismatch,
    /// UTF-8 error
    Utf8Error(FromUtf8Error),
    /// Referenced register not found
    RegisterNotFound(String),
    /// Other error with a description
    Other(String),
}

/// A bytecode error, with its byte sequences and texts as sequences.
pub enum ParseErrorView {
    UnexpectedEof(u32),
    UnexpectedBytes { expected: Seq<u8>, actual: Seq<u8> },
    InvalidOpcode(u8),
    InvalidOperand,
    OperandTypeMismatch,
    Utf8Error,
    RegisterNotFound(Seq<char>),
    Other(Seq<char>),
}

impl View for BytecodeError {
    type V = ParseErrorView;

    open spec fn view(&self) -> ParseErrorView {
        match self {
            BytecodeError::UnexpectedEof(p) => ParseErrorView::UnexpectedEof(*p),
            BytecodeError::UnexpectedBytes { expected, actual } => ParseErrorView::UnexpectedBytes {
                expected: expected@,
                actual: actual@,
            },
            BytecodeError::InvalidOpcode(o) => ParseErrorView::InvalidOpcode(*o),
            BytecodeError::InvalidOperand => ParseErrorView::InvalidOperand,
            BytecodeError::OperandTypeMismatch => ParseErrorView::OperandTypeMismatch,
            BytecodeError::Utf8Error(_) => ParseErrorView::Utf8Error,
            BytecodeError::RegisterNotFound(s) => ParseErrorView::RegisterNotFound(s@),
            BytecodeError::Other(s) => ParseErrorView::Other(s@),
        }
    }
}

/// The magic number at the start of a Strontium executable: the ASCII text `strontium`.
pub open spec fn signature() -> Seq<u8> {
    seq![115u8, 116u8, 114u8, 111u8, 110u8, 116u8, 105u8, 117u8, 109u8]
}

/// Append the magic number.
pub(crate) fn push_signature(bytes: &mut Vec<u8>)
    ensures
        final(bytes)@ == old(bytes)@ + signature(),
{
    bytes.push(115u8);
    bytes.push(116u8);
    bytes.push(114u8);
    bytes.push(111u8);
    bytes.push(110u8);
    bytes.push(116u8);
    bytes.push(105u8);
    bytes.push(117u8);
    bytes.push(109u8);
    assert(bytes@ =~= old(bytes)@ + signature());
}

/// A single bytecode program with metadata.
#[derive(Debug, Clone, PartialEq)]
pub struct Program {
    pub metadata: ProgramMetadata,
    pub bytecode: Bytecode,
}

/// The name, version, author and description of a program.
#[derive(Debug, Clone, PartialEq)]
pub struct ProgramMetadata {
    pub name: String,
    pub version: String,
    pub author: String,
    pub description: String,
}

/// The bytecode of a program.
#[derive(Debug, Clone, PartialEq)]
pub struct Bytecode {
    pub bytes: Vec<u8>,
}

/// Program metadata, with its texts as character sequences.
pub struct MetadataView {
    pub name: Seq<char>,
    pub version: Seq<char>,
    pub author: Seq<char>,
    pub description: Seq<char>,
}

impl View for ProgramMetadata {
    type V = MetadataView;

    open spec fn view(&self) -> MetadataView {
        MetadataView { name: self.name@, version: self.version@, author: self.author@, description: self.description@ }
    }
}

/// The bytes of program metadata: each text as its UTF-8 length (cut to one byte) and its
/// bytes, in the order name, version, author, description.
pub open spec fn metadata_bytes(m: MetadataView) -> Seq<u8> {
    name_field(m.name) + name_field(m.version) + name_field(m.author) + name_field(m.description)
}

/// A length-prefixed UTF-8 text at position `i`, and the position after it; `None` where
/// the bytes end early or are not UTF-8.
pub open spec fn text_field_at(b: Seq<u8>, i: int) -> Option<(Seq<char>, int)> {
    if i >= b.len() {
        None
    } else {
        let n = b[i] as int;
        if i + 1 + n > b.len() || !valid_utf8(b.subrange(i + 1, i + 1 + n)) {
            None
        } else {
            Some((decode_utf8(b.subrange(i + 1, i + 1 + n)), i + 1 + n))
        }
    }
}

/// The metadata at the start of bytes, where the four texts are there.
pub open spec fn parse_metadata(b: Seq<u8>) -> Option<MetadataView> {
    match text_field_at(b, 0) {
        Some((name, i1)) => match text_field_at(b, i1) {
            Some((version, i2)) => match text_field_at(b, i2) {
                Some((author, i3)) => match text_field_at(b, i3) {
                    Some((description, _)) => Some(MetadataView { name, version, author, description }),
                    None => None,
                },
                None => None,
            },
            None => None,
        },
        None => None,
    }
}

/// Read a length-prefixed text at position `i`.
fn read_text_field(bytes: &Vec<u8>, i: usize) -> (r: (String, usize))
    requires
        text_field_at(bytes@, i as int) is Some,
    ensures
        text_field_at(bytes@, i as int) == Some((r.0@, r.1 as int)),
{
    let n = bytes[i] as usize;
    let len = bytes.len();
    assert(i + 1 + n <= len);
    let mut field: Vec<u8> = Vec::new();
    let mut k: usize = 0;
    while k < n
        invariant
            k <= n,
            n == bytes@[i as int],
            i + 1 + n <= bytes@.len(),
            len == bytes@.len(),
            field@ == bytes@.subrange(i + 1, i + 1 + k),
        decreases n - k,
    {
        field.push(bytes[i + 1 + k]);
        assert(field@ =~= bytes@.subrange(i + 1, i + 1 + k + 1));
        k = k + 1;
    }
    match string_from_utf8(field) {
        Ok(s) => (s, i + 1 + n),
        Err(_) => (String::new(), i + 1 + n),
    }
}

/// Append a text as its UTF-8 length (cut to one byte) and its bytes.
fn push_text_field(bytes: &mut Vec<u8>, s: &String)
    ensures
        final(bytes)@ == old(bytes)@ + name_field(s@),
{
    let mut b = string_bytes(s);
    bytes.push(b.len() as u8);
    bytes.append(&mut b);
}

impl ProgramMetadata {
    /// The bytes of this metadata.
    pub fn to_bytes(&self) -> (r: Vec<u8>)
        ensures
            r@ == metadata_bytes(self@),
    {
        let mut bytes: Vec<u8> = Vec::new();
        push_text_field(&mut bytes, &self.name);
        push_text_field(&mut bytes, &self.version);
        push_text_field(&mut bytes, &self.author);
        push_text_field(&mut bytes, &self.description);
        assert(bytes@ =~= metadata_bytes(self@));
        bytes
    }

    /// Read metadata from the start of bytes; the bytes after it are ignored. Bytes that end
    /// before the four texts or hold one that is not UTF-8 are left out.
    pub fn from_bytes(bytes: Vec<u8>) -> (m: ProgramMetadata)
        requires
            parse_metadata(bytes@) is Some,
        ensures
            parse_metadata(bytes@) == Some(m@),
    {
        let (name, i1) = read_text_field(&bytes, 0);
        let (version, i2) = read_text_field(&bytes, i1);
        let (author, i3) = read_text_field(&bytes, i2);
        let (description, _) = read_text_field(&bytes, i3);
        ProgramMetadata { name, version, author, description }
    }
}

impl Program {
    /// The executable: the magic number, the metadata, then the bytecode.
    pub fn to_bytes(&self) -> (r: Vec<u8>)
        ensures
            r@ == signature() + metadata_bytes(self.metadata@) + self.bytecode.bytes@,
    {
        let mut bytes: Vec<u8> = Vec::new();
        push_signature(&mut bytes);
        let mut metadata = self.metadata.to_bytes();
        bytes.append(&mut metadata);
        let mut code = self.bytecode.bytes.clone();
        bytes.append(&mut code);
        bytes
    }

    /// Read an executable: the first nine bytes are taken as the magic number without being
    /// checked, the metadata is read from the bytes after them, and the bytecode is all the
    /// bytes after the magic number, the metadata's bytes included. Bytes too short for the
    /// magic number or the metadata are left out.
    pub fn from_bytes(bytes: Vec<u8>) -> (p: Program)
        requires
            bytes@.len() >= 9,
            parse_metadata(bytes@.skip(9)) is Some,
        ensures
            parse_metadata(bytes@.skip(9)) == Some(p.metadata@),
            p.bytecode.bytes@ == bytes@.skip(9),
    {
        let mut rest: Vec<u8> = Vec::new();
        let mut i: usize = 9;
        while i < bytes.len()
            invariant
                9 <= i <= bytes@.len(),
                rest@ == bytes@.subrange(9, i as int),
            decreases bytes.len() - i,
        {
            rest.push(bytes[i]);
            assert(rest@ =~= bytes@.subrange(9, i + 1));
            i = i + 1;
        }
        assert(rest@ =~= bytes@.skip(9));
        let metadata = ProgramMetadata::from_bytes(rest.clone());
        Program { metadata, bytecode: Bytecode { bytes: rest } }
    }
}

/// Reading the executable of a program gives back its metadata, where each text's UTF-8
/// encoding fits in 255 bytes; the bytecode read back is the metadata's bytes followed by
/// the program's bytecode.
pub proof fn lemma_program_roundtrip(m: MetadataView, code: Seq<u8>)
    requires
        encode_utf8(m.name).len() <= 255,
        encode_utf8(m.version).len() <= 255,
        encode_utf8(m.author).len() <= 255,
        encode_utf8(m.description).len() <= 255,
    ensures
        (signature() + metadata_bytes(m) + code).len() >= 9,
        parse_metadata((signature() + metadata_bytes(m) + code).skip(9)) == Some(m),
        (signature() + metadata_bytes(m) + code).skip(9) == metadata_bytes(m) + code,
{
    let all = signature() + metadata_bytes(m) + code;
    let b = metadata_bytes(m) + code;
    assert(all.skip(9) =~= b);
    let f1 = name_field(m.name);
    let f2 = name_field(m.version);
    let f3 = name_field(m.author);
    let f4 = name_field(m.description);
    let i1 = f1.len() as int;
    let i2 = i1 + f2.len();
    let i3 = i2 + f3.len();
    let i4 = i3 + f4.len();
    assert(b.subrange(0, i1) =~= f1);
    assert(b.subrange(i1, i2) =~= f2);
    assert(b.subrange(i2, i3) =~= f3);
    assert(b.subrange(i3, i4) =~= f4);
    lemma_text_field(m.name, b, 0);
    lemma_text_field(m.version, b, i1);
    lemma_text_field(m.author, b, i2);
    lemma_text_field(m.description, b, i3);
}

/// A text field read back from the bytes that hold it.
proof fn lemma_text_field(s: Seq<char>, b: Seq<u8>, i: int)
    requires
        encode_utf8(s).len() <= 255,
        0 <= i,
        i + name_field(s).len() <= b.len(),
        b.subrange(i, i + name_field(s).len()) == name_field(s),
    ensures
        text_field_at(b, i) == Some((s, i + name_field(s).len())),
{
    let e = encode_utf8(s);
    assert(b[i] == b.subrange(i, i + name_field(s).len())[0]);
    assert(b.subrange(i + 1, i + 1 + e.len()) =~= b.subrange(i, i + name_field(s).len()).skip(1));
    assert(name_field(s).skip(1) =~= e);
    vstd::utf8::encode_utf8_valid_utf8(s);
    vstd::utf8::encode_utf8_decode_utf8(s);
}

} // verus!
