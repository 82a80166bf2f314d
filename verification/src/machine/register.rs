use vstd::prelude::*;
use vstd::utf8::{valid_utf8, decode_utf8, encode_utf8, encode_utf8_valid_utf8, encode_utf8_decode_utf8};
use std::string::FromUtf8Error;

use vstd::slice::{slice_subrange, slice_to_vec};
use crate::machine::utf8::{string_from_utf8, string_bytes};
use crate::machine::endian::{u16_to_le, u32_to_le, u64_to_le, read_u16_le, read_u32_le, read_u64_le, read_i16_le, read_i32_le, read_i64_le, le_u16, le_u32, le_u64, u16_bytes, u32_bytes, u64_bytes, lemma_u16_roundtrip, lemma_u32_roundtrip, lemma_u64_roundtrip};

verus! {

/// A dynamically typed value held in a register.
///
/// Floating-point values are held as their IEEE-754 bit patterns (`f32::to_bits`,
/// `f64::to_bits`), which is also how the bytecode stores them.
#[derive(Debug, PartialEq)]
pub enum RegisterValue {
    Empty,
    /// Signed integer, 8 bit
    Int8(i8),
    /// Signed integer, 16 bit
    Int16(i16),
    /// Signed integer, 32 bit
    Int32(i32),
    /// Signed integer, 64 bit
    Int64(i64),
    /// Unsigned integer, 8 bit
    UInt8(u8),
    /// Unsigned integer, 16 bit
    UInt16(u16),
    /// Unsigned integer, 32 bit
    UInt32(u32),
    /// Unsigned integer, 64 bit
    UInt64(u64),
    /// Floating point number, 32 bit, as its bit pattern
    Float32(u32),
    /// Floating point number, 64 bit, as its bit pattern
    Float64(u64),
    /// UTF-8 string
    String(String),
    /// `true` or `false`
    Boolean(bool),
    /// A key-value assignment of strings and values.
    Dict(Dictionary),
    /// A linear sequence of values.
    Array(Vec<RegisterValue>),
}

/// The entries of a dictionary value: names with their values, no name twice.
#[derive(Debug, PartialEq)]
pub struct Dictionary {
    entries: Vec<(String, RegisterValue)>,
}

impl Dictionary {
    /// The entries, each taken by its view.
    pub closed spec fn view_entries(&self) -> Seq<(Seq<char>, ValueView)>
        decreases self,
    {
        Seq::new(
            self.entries.len() as nat,
            |i: int|
                if 0 <= i < self.entries.len() {
                    (self.entries[i].0@, self.entries[i].1.view_value())
                } else {
                    (Seq::empty(), ValueView::Empty)
                },
        )
    }

    proof fn lemma_view_entries(&self)
        ensures
            self.view_entries() == entries_of(self.entries@),
    {
        assert(self.view_entries() =~= entries_of(self.entries@));
    }

    /// No two entries have one name.
    #[verifier::type_invariant]
    spec fn distinct_names(self) -> bool {
        forall|a: int, b: int|
            0 <= a < self.entries.len() && 0 <= b < self.entries.len() && a != b ==> #[trigger] self.entries@[a].0@
                != #[trigger] self.entries@[b].0@
    }
}

/// The mathematical value of a register: strings become character sequences.
pub enum ValueView {
    Empty,
    Int8(i8),
    Int16(i16),
    Int32(i32),
    Int64(i64),
    UInt8(u8),
    UInt16(u16),
    UInt32(u32),
    UInt64(u64),
    Float32(u32),
    Float64(u64),
    Text(Seq<char>),
    Boolean(bool),
    Dict(Seq<(Seq<char>, ValueView)>),
    List(Seq<ValueView>),
}

impl RegisterValue {
    pub open spec fn view_value(&self) -> ValueView
        decreases self,
    {
        match self {
            RegisterValue::Empty => ValueView::Empty,
            RegisterValue::Int8(i) => ValueView::Int8(*i),
            RegisterValue::Int16(i) => ValueView::Int16(*i),
            RegisterValue::Int32(i) => ValueView::Int32(*i),
            RegisterValue::Int64(i) => ValueView::Int64(*i),
            RegisterValue::UInt8(i) => ValueView::UInt8(*i),
            RegisterValue::UInt16(i) => ValueView::UInt16(*i),
            RegisterValue::UInt32(i) => ValueView::UInt32(*i),
            RegisterValue::UInt64(i) => ValueView::UInt64(*i),
            RegisterValue::Float32(f) => ValueView::Float32(*f),
            RegisterValue::Float64(f) => ValueView::Float64(*f),
            RegisterValue::String(s) => ValueView::Text(s@),
            RegisterValue::Boolean(b) => ValueView::Boolean(*b),
            RegisterValue::Dict(d) => ValueView::Dict(d.view_entries()),
            RegisterValue::Array(a) => ValueView::List(
                Seq::new(
                    a.len() as nat,
                    |i: int|
                        if 0 <= i < a.len() {
                            a[i].view_value()
                        } else {
                            ValueView::Empty
                        },
                ),
            ),
        }
    }
}

impl RegisterValue {
    /// A copy of this value.
    pub fn duplicate(&self) -> (r: RegisterValue)
        ensures
            r@ == self@,
        decreases self,
    {
        match self {
            RegisterValue::Empty => RegisterValue::Empty,
            RegisterValue::Int8(i) => RegisterValue::Int8(*i),
            RegisterValue::Int16(i) => RegisterValue::Int16(*i),
            RegisterValue::Int32(i) => RegisterValue::Int32(*i),
            RegisterValue::Int64(i) => RegisterValue::Int64(*i),
            RegisterValue::UInt8(i) => RegisterValue::UInt8(*i),
            RegisterValue::UInt16(i) => RegisterValue::UInt16(*i),
            RegisterValue::UInt32(i) => RegisterValue::UInt32(*i),
            RegisterValue::UInt64(i) => RegisterValue::UInt64(*i),
            RegisterValue::Float32(f) => RegisterValue::Float32(*f),
            RegisterValue::Float64(f) => RegisterValue::Float64(*f),
            RegisterValue::String(s) => RegisterValue::String(s.clone()),
            RegisterValue::Boolean(b) => RegisterValue::Boolean(*b),
            RegisterValue::Dict(d) => {
                proof {
                    use_type_invariant(d);
                }
                let m = &d.entries;
                let mut out: Vec<(String, RegisterValue)> = Vec::new();
                let mut i: usize = 0;
                while i < m.len()
                    invariant
                        i <= m.len(),
                        out.len() == i,
                        *self == RegisterValue::Dict(*d),
                        *m == d.entries,
                        forall|j: int| #![trigger out@[j]] 0 <= j < i ==> out@[j].0@ == m@[j].0@ && out@[j].1@ == m@[j].1@,
                    decreases m.len() - i,
                {
                    proof {
                        assert(decreases_to!(*self => (*self)->Dict_0));
                        assert(decreases_to!(*d => d.entries));
                        assert(decreases_to!(m => m@));
                        assert(decreases_to!(m@ => m@[i as int]));
                        assert(decreases_to!(m@[i as int] => m@[i as int].1));
                    }
                    let v = m[i].1.duplicate();
                    out.push((m[i].0.clone(), v));
                    i = i + 1;
                }
                proof {
                    assert forall|a: int, b: int| 0 <= a < out.len() && 0 <= b < out.len() && a != b implies #[trigger] out@[a].0@
                        != #[trigger] out@[b].0@ by {
                        assert(out@[a].0@ == m@[a].0@);
                        assert(out@[b].0@ == m@[b].0@);
                    }
                }
                let nd = Dictionary { entries: out };
                let r = RegisterValue::Dict(nd);
                assert(r@ == self@) by {
                    d.lemma_view_entries();
                    nd.lemma_view_entries();
                    assert forall|j: int| 0 <= j < out.len() implies #[trigger] r@->Dict_0[j] == self@->Dict_0[j] by {
                        assert(out@[j].0@ == m@[j].0@ && out@[j].1@ == m@[j].1@);
                    }
                    assert(r@->Dict_0 =~= self@->Dict_0);
                }
                r
            },
            RegisterValue::Array(a) => {
                let mut out: Vec<RegisterValue> = Vec::new();
                let mut i: usize = 0;
                while i < a.len()
                    invariant
                        i <= a.len(),
                        out.len() == i,
                        *self == RegisterValue::Array(*a),
                        forall|j: int| 0 <= j < i ==> #[trigger] out[j]@ == a[j]@,
                    decreases a.len() - i,
                {
                    proof {
                        assert(decreases_to!(*self => (*self)->Array_0));
                        assert(decreases_to!(a => a@));
                        assert(decreases_to!(a@ => a@[i as int]));
                    }
                    let v = a[i].duplicate();
                    out.push(v);
                    i = i + 1;
                }
                let r = RegisterValue::Array(out);
                assert(r@ == self@) by {
                    assert forall|j: int| 0 <= j < out.len() implies #[trigger] r@->List_0[j] == self@->List_0[j] by {
                        assert(out[j]@ == a[j]@);
                    }
                    assert(r@->List_0 =~= self@->List_0);
                }
                r
            },
        }
    }
}

impl Clone for RegisterValue {
    fn clone(&self) -> (r: Self)
        ensures
            r@ == self@,
    {
        self.duplicate()
    }
}

impl View for RegisterValue {
    type V = ValueView;

    open spec fn view(&self) -> ValueView {
        self.view_value()
    }
}


/// The type tag of a register value.
#[derive(Debug, Clone, Copy, PartialEq, Eq, Structural)]
pub enum RegisterType {
    Empty,
    Int8,
    Int16,
    Int32,
    Int64,
    UInt8,
    UInt16,
    UInt32,
    UInt64,
    Float32,
    Float64,
    String,
    Boolean,
    Dict,
    Array,
}

/// The type of a value.
pub open spec fn type_of(v: ValueView) -> RegisterType {
    match v {
        ValueView::Empty => RegisterType::Empty,
        ValueView::Int8(_) => RegisterType::Int8,
        ValueView::Int16(_) => RegisterType::Int16,
        ValueView::Int32(_) => RegisterType::Int32,
        ValueView::Int64(_) => RegisterType::Int64,
        ValueView::UInt8(_) => RegisterType::UInt8,
        ValueView::UInt16(_) => RegisterType::UInt16,
        ValueView::UInt32(_) => RegisterType::UInt32,
        ValueView::UInt64(_) => RegisterType::UInt64,
        ValueView::Float32(_) => RegisterType::Float32,
        ValueView::Float64(_) => RegisterType::Float64,
        ValueView::Text(_) => RegisterType::String,
        ValueView::Boolean(_) => RegisterType::Boolean,
        ValueView::Dict(_) => RegisterType::Dict,
        ValueView::List(_) => RegisterType::Array,
    }
}

/// The numeric code of a type tag, as `LOADTYPE` stores it: `Empty` is 100 and each
/// following type one more, up to `Array` at 114.
pub open spec fn type_code(t: RegisterType) -> i64 {
    match t {
        RegisterType::Empty => 100,
        RegisterType::Int8 => 101,
        RegisterType::Int16 => 102,
        RegisterType::Int32 => 103,
        RegisterType::Int64 => 104,
        RegisterType::UInt8 => 105,
        RegisterType::UInt16 => 106,
        RegisterType::UInt32 => 107,
        RegisterType::UInt64 => 108,
        RegisterType::Float32 => 109,
        RegisterType::Float64 => 110,
        RegisterType::String => 111,
        RegisterType::Boolean => 112,
        RegisterType::Dict => 113,
        RegisterType::Array => 114,
    }
}

impl RegisterType {
    /// The numeric code of this type tag.
    pub fn code(&self) -> (c: i64)
        ensures
            c == type_code(*self),
    {
        match self {
            RegisterType::Empty => 100,
            RegisterType::Int8 => 101,
            RegisterType::Int16 => 102,
            RegisterType::Int32 => 103,
            RegisterType::Int64 => 104,
            RegisterType::UInt8 => 105,
            RegisterType::UInt16 => 106,
            RegisterType::UInt32 => 107,
            RegisterType::UInt64 => 108,
            RegisterType::Float32 => 109,
            RegisterType::Float64 => 110,
            RegisterType::String => 111,
            RegisterType::Boolean => 112,
            RegisterType::Dict => 113,
            RegisterType::Array => 114,
        }
    }
}

impl RegisterValue {
    /// The type tag of this value.
    pub fn get_type(&self) -> (t: RegisterType)
        ensures
            t == type_of(self@),
    {
        match self {
            RegisterValue::Empty => RegisterType::Empty,
            RegisterValue::Int8(_) => RegisterType::Int8,
            RegisterValue::Int16(_) => RegisterType::Int16,
            RegisterValue::Int32(_) => RegisterType::Int32,
            RegisterValue::Int64(_) => RegisterType::Int64,
            RegisterValue::UInt8(_) => RegisterType::UInt8,
            RegisterValue::UInt16(_) => RegisterType::UInt16,
            RegisterValue::UInt32(_) => RegisterType::UInt32,
            RegisterValue::UInt64(_) => RegisterType::UInt64,
            RegisterValue::Float32(_) => RegisterType::Float32,
            RegisterValue::Float64(_) => RegisterType::Float64,
            RegisterValue::String(_) => RegisterType::String,
            RegisterValue::Boolean(_) => RegisterType::Boolean,
            RegisterValue::Dict(_) => RegisterType::Dict,
            RegisterValue::Array(_) => RegisterType::Array,
        }
    }
}

/// The bytes that encode a value: a type tag followed by the little-endian payload.
/// A string is stored as its UTF-8 byte length (cut to 32 bits) and its bytes, a boolean
/// as one byte under tag 13. Maps and arrays are written as nothing at all, so they do not
/// read back.
pub open spec fn encode_value(v: ValueView) -> Seq<u8> {
    match v {
        ValueView::Empty => seq![1u8],
        ValueView::Int8(i) => seq![2u8, i as u8],
        ValueView::Int16(i) => seq![3u8] + u16_bytes(i as u16),
        ValueView::Int32(i) => seq![4u8] + u32_bytes(i as u32),
        ValueView::Int64(i) => seq![5u8] + u64_bytes(i as u64),
        ValueView::UInt8(i) => seq![6u8, i],
        ValueView::UInt16(i) => seq![7u8] + u16_bytes(i),
        ValueView::UInt32(i) => seq![8u8] + u32_bytes(i),
        ValueView::UInt64(i) => seq![9u8] + u64_bytes(i),
        ValueView::Float32(f) => seq![10u8] + u32_bytes(f),
        ValueView::Float64(f) => seq![11u8] + u64_bytes(f),
        ValueView::Text(s) => seq![12u8] + u32_bytes(encode_utf8(s).len() as u32) + encode_utf8(s),
        ValueView::Boolean(b) => seq![13u8, if b { 1u8 } else { 0u8 }],
        ValueView::Dict(_) => Seq::empty(),
        ValueView::List(_) => Seq::empty(),
    }
}

/// The errors that reading a value from bytes reports.
pub enum ValueErrorView {
    InvalidTypeTag,
    NotEnoughBytes,
    Utf8Error,
}

/// The value that bytes decode to: the first byte is the type tag and the payload follows.
/// Bytes after the payload are ignored.
pub open spec fn decode_value(b: Seq<u8>) -> Result<ValueView, ValueErrorView> {
    if b.len() == 0 {
        Err(ValueErrorView::NotEnoughBytes)
    } else {
        let tag = b[0];
        let rest = b.skip(1);
        if tag == 1 {
            Ok(ValueView::Empty)
        } else if tag == 2 || tag == 6 || tag == 13 {
            if rest.len() < 1 {
                Err(ValueErrorView::NotEnoughBytes)
            } else if tag == 2 {
                Ok(ValueView::Int8(rest[0] as i8))
            } else if tag == 6 {
                Ok(ValueView::UInt8(rest[0]))
            } else {
                Ok(ValueView::Boolean(rest[0] != 0))
            }
        } else if tag == 3 || tag == 7 {
            if rest.len() < 2 {
                Err(ValueErrorView::NotEnoughBytes)
            } else if tag == 3 {
                Ok(ValueView::Int16(le_u16(rest) as i16))
            } else {
                Ok(ValueView::UInt16(le_u16(rest)))
            }
        } else if tag == 4 || tag == 8 || tag == 10 {
            if rest.len() < 4 {
                Err(ValueErrorView::NotEnoughBytes)
            } else if tag == 4 {
                Ok(ValueView::Int32(le_u32(rest) as i32))
            } else if tag == 8 {
                Ok(ValueView::UInt32(le_u32(rest)))
            } else {
                Ok(ValueView::Float32(le_u32(rest)))
            }
        } else if tag == 5 || tag == 9 || tag == 11 {
            if rest.len() < 8 {
                Err(ValueErrorView::NotEnoughBytes)
            } else if tag == 5 {
                Ok(ValueView::Int64(le_u64(rest) as i64))
            } else if tag == 9 {
                Ok(ValueView::UInt64(le_u64(rest)))
            } else {
                Ok(ValueView::Float64(le_u64(rest)))
            }
        } else if tag == 12 {
            if rest.len() < 4 {
                Err(ValueErrorView::NotEnoughBytes)
            } else {
                let n = le_u32(rest);
                if rest.len() < 4 + n {
                    Err(ValueErrorView::NotEnoughBytes)
                } else {
                    let text = rest.subrange(4, 4 + n);
                    if valid_utf8(text) {
                        Ok(ValueView::Text(decode_utf8(text)))
                    } else {
                        Err(ValueErrorView::Utf8Error)
                    }
                }
            }
        } else {
            Err(ValueErrorView::InvalidTypeTag)
        }
    }
}

/// The errors of reading a register value from bytes.
#[derive(Debug, PartialEq)]
pub enum RegisterValueError {
    InvalidTypeTag,
    NotEnoughBytes,
    Utf8Error(FromUtf8Error),
}

impl View for RegisterValueError {
    type V = ValueErrorView;

    open spec fn view(&self) -> ValueErrorView {
        match self {
            RegisterValueError::InvalidTypeTag => ValueErrorView::InvalidTypeTag,
            RegisterValueError::NotEnoughBytes => ValueErrorView::NotEnoughBytes,
            RegisterValueError::Utf8Error(_) => ValueErrorView::Utf8Error,
        }
    }
}

/// The result of decoding bytes, taken by its view.
pub open spec fn decode_result_view(r: Result<RegisterValue, RegisterValueError>) -> Result<ValueView, ValueErrorView> {
    match r {
        Ok(v) => Ok(v@),
        Err(e) => Err(e@),
    }
}

/// Whether a value reads back from its encoding: every value but maps and arrays, and
/// strings whose UTF-8 length does not fit in 32 bits.
pub open spec fn value_roundtrips(v: ValueView) -> bool {
    match v {
        ValueView::Dict(_) => false,
        ValueView::List(_) => false,
        ValueView::Text(s) => encode_utf8(s).len() <= u32::MAX,
        _ => true,
    }
}

proof fn lemma_i16_bits(i: i16)
    by (bit_vector)
    ensures
        (i as u16) as i16 == i,
{
}

proof fn lemma_i32_bits(i: i32)
    by (bit_vector)
    ensures
        (i as u32) as i32 == i,
{
}

proof fn lemma_i64_bits(i: i64)
    by (bit_vector)
    ensures
        (i as u64) as i64 == i,
{
}

proof fn lemma_i8_bits(i: i8)
    by (bit_vector)
    ensures
        (i as u8) as i8 == i,
{
}

/// Decoding the encoding of a value gives the value back, for every value that has a
/// faithful encoding (see `value_roundtrips`).
pub proof fn lemma_value_roundtrip(v: ValueView)
    requires
        value_roundtrips(v),
    ensures
        decode_value(encode_value(v)) == Ok::<ValueView, ValueErrorView>(v),
{
    let e = encode_value(v);
    match v {
        ValueView::Int8(i) => {
            lemma_i8_bits(i);
        },
        ValueView::Int16(i) => {
            lemma_u16_roundtrip(i as u16);
            lemma_i16_bits(i);
            assert(e.skip(1) =~= u16_bytes(i as u16));
        },
        ValueView::Int32(i) => {
            lemma_u32_roundtrip(i as u32);
            lemma_i32_bits(i);
            assert(e.skip(1) =~= u32_bytes(i as u32));
        },
        ValueView::Int64(i) => {
            lemma_u64_roundtrip(i as u64);
            lemma_i64_bits(i);
            assert(e.skip(1) =~= u64_bytes(i as u64));
        },
        ValueView::UInt16(i) => {
            lemma_u16_roundtrip(i);
            assert(e.skip(1) =~= u16_bytes(i));
        },
        ValueView::UInt32(i) => {
            lemma_u32_roundtrip(i);
            assert(e.skip(1) =~= u32_bytes(i));
        },
        ValueView::UInt64(i) => {
            lemma_u64_roundtrip(i);
            assert(e.skip(1) =~= u64_bytes(i));
        },
        ValueView::Float32(i) => {
            lemma_u32_roundtrip(i);
            assert(e.skip(1) =~= u32_bytes(i));
        },
        ValueView::Float64(i) => {
            lemma_u64_roundtrip(i);
            assert(e.skip(1) =~= u64_bytes(i));
        },
        ValueView::Text(s) => {
            let b = encode_utf8(s);
            let n = b.len() as u32;
            lemma_u32_roundtrip(n);
            let rest = e.skip(1);
            assert(rest =~= u32_bytes(n) + b);
            assert(rest.subrange(0, 4) =~= u32_bytes(n));
            assert(le_u32(rest) == le_u32(u32_bytes(n)));
            assert(rest.subrange(4, 4 + n) =~= b);
            encode_utf8_valid_utf8(s);
            encode_utf8_decode_utf8(s);
        },
        _ => {},
    }
}


impl RegisterValue {
    /// Encode this value as bytecode: a type tag followed by the payload.
    pub fn to_bytes(&self) -> (r: Vec<u8>)
        ensures
            r@ == encode_value(self@),
    {
        let mut r: Vec<u8> = Vec::new();
        match self {
            RegisterValue::Empty => {
                r.push(1);
            },
            RegisterValue::Int8(i) => {
                r.push(2);
                r.push(*i as u8);
            },
            RegisterValue::Int16(i) => {
                r.push(3);
                let mut p = u16_to_le(*i as u16);
                r.append(&mut p);
            },
            RegisterValue::Int32(i) => {
                r.push(4);
                let mut p = u32_to_le(*i as u32);
                r.append(&mut p);
            },
            RegisterValue::Int64(i) => {
                r.push(5);
                let mut p = u64_to_le(*i as u64);
                r.append(&mut p);
            },
            RegisterValue::UInt8(i) => {
                r.push(6);
                r.push(*i);
            },
            RegisterValue::UInt16(i) => {
                r.push(7);
                let mut p = u16_to_le(*i);
                r.append(&mut p);
            },
            RegisterValue::UInt32(i) => {
                r.push(8);
                let mut p = u32_to_le(*i);
                r.append(&mut p);
            },
            RegisterValue::UInt64(i) => {
                r.push(9);
                let mut p = u64_to_le(*i);
                r.append(&mut p);
            },
            RegisterValue::Float32(f) => {
                r.push(10);
                let mut p = u32_to_le(*f);
                r.append(&mut p);
            },
            RegisterValue::Float64(f) => {
                r.push(11);
                let mut p = u64_to_le(*f);
                r.append(&mut p);
            },
            RegisterValue::String(s) => {
                r.push(12);
                let mut text = string_bytes(s);
                let length = text.len() as u32;
                let mut p = u32_to_le(length);
                r.append(&mut p);
                r.append(&mut text);
            },
            RegisterValue::Boolean(b) => {
                r.push(13);
                r.push(if *b { 1u8 } else { 0u8 });
            },
            RegisterValue::Dict(_) => {},
            RegisterValue::Array(_) => {},
        }
        assert(r@ =~= encode_value(self@));
        r
    }

    /// Decode a value from bytecode: the first byte is the type tag, the payload follows,
    /// and bytes after the payload are ignored.
    pub fn from_bytes(bytes: Vec<u8>) -> (r: Result<RegisterValue, RegisterValueError>)
        ensures
            decode_result_view(r) == decode_value(bytes@),
    {
        let b = bytes.as_slice();
        if b.len() == 0 {
            return Err(RegisterValueError::NotEnoughBytes);
        }
        let tag = b[0];
        let rest = slice_subrange(b, 1, b.len());
        assert(rest@ =~= bytes@.skip(1));
        if tag == 1 {
            Ok(RegisterValue::Empty)
        } else if tag == 2 || tag == 6 || tag == 13 {
            if rest.len() < 1 {
                Err(RegisterValueError::NotEnoughBytes)
            } else if tag == 2 {
                Ok(RegisterValue::Int8(rest[0] as i8))
            } else if tag == 6 {
                Ok(RegisterValue::UInt8(rest[0]))
            } else {
                Ok(RegisterValue::Boolean(rest[0] != 0))
            }
        } else if tag == 3 || tag == 7 {
            if rest.len() < 2 {
                Err(RegisterValueError::NotEnoughBytes)
            } else if tag == 3 {
                Ok(RegisterValue::Int16(read_i16_le(rest)))
            } else {
                Ok(RegisterValue::UInt16(read_u16_le(rest)))
            }
        } else if tag == 4 || tag == 8 || tag == 10 {
            if rest.len() < 4 {
                Err(RegisterValueError::NotEnoughBytes)
            } else if tag == 4 {
                Ok(RegisterValue::Int32(read_i32_le(rest)))
            } else if tag == 8 {
                Ok(RegisterValue::UInt32(read_u32_le(rest)))
            } else {
                Ok(RegisterValue::Float32(read_u32_le(rest)))
            }
        } else if tag == 5 || tag == 9 || tag == 11 {
            if rest.len() < 8 {
                Err(RegisterValueError::NotEnoughBytes)
            } else if tag == 5 {
                Ok(RegisterValue::Int64(read_i64_le(rest)))
            } else if tag == 9 {
                Ok(RegisterValue::UInt64(read_u64_le(rest)))
            } else {
                Ok(RegisterValue::Float64(read_u64_le(rest)))
            }
        } else if tag == 12 {
            if rest.len() < 4 {
                Err(RegisterValueError::NotEnoughBytes)
            } else {
                let n = read_u32_le(rest);
                if rest.len() - 4 < n as usize {
                    Err(RegisterValueError::NotEnoughBytes)
                } else {
                    let text = slice_to_vec(slice_subrange(rest, 4, 4 + n as usize));
                    match string_from_utf8(text) {
                        Ok(s) => Ok(RegisterValue::String(s)),
                        Err(e) => Err(RegisterValueError::Utf8Error(e)),
                    }
                }
            }
        } else {
            Err(RegisterValueError::InvalidTypeTag)
        }
    }
}

/// Byte-wise lexicographic order, the order of `str` and of the keys of a `BTreeMap`.
pub open spec fn lex_lt(a: Seq<u8>, b: Seq<u8>) -> bool
    decreases a.len(),
{
    if b.len() == 0 {
        false
    } else if a.len() == 0 {
        true
    } else if a[0] < b[0] {
        true
    } else if a[0] > b[0] {
        false
    } else {
        lex_lt(a.drop_first(), b.drop_first())
    }
}

/// No sequence comes before itself.
pub proof fn lemma_lex_irreflexive(a: Seq<u8>)
    ensures
        !lex_lt(a, a),
    decreases a.len(),
{
    if a.len() > 0 {
        lemma_lex_irreflexive(a.drop_first());
    }
}

/// Lexicographic order is transitive.
pub proof fn lemma_lex_transitive(a: Seq<u8>, b: Seq<u8>, c: Seq<u8>)
    requires
        lex_lt(a, b),
        lex_lt(b, c),
    ensures
        lex_lt(a, c),
    decreases a.len(),
{
    if a.len() > 0 && b.len() > 0 && c.len() > 0 && a[0] == b[0] && b[0] == c[0] {
        lemma_lex_transitive(a.drop_first(), b.drop_first(), c.drop_first());
    }
}

/// Of two different sequences, one comes before the other.
pub proof fn lemma_lex_total(a: Seq<u8>, b: Seq<u8>)
    requires
        a != b,
    ensures
        lex_lt(a, b) || lex_lt(b, a),
    decreases a.len(),
{
    if a.len() == 0 {
        if b.len() == 0 {
            assert(a =~= b);
        }
    } else if b.len() == 0 {
    } else if a[0] == b[0] {
        if a.drop_first() == b.drop_first() {
            assert(a =~= seq![a[0]] + a.drop_first());
            assert(b =~= seq![b[0]] + b.drop_first());
        }
        lemma_lex_total(a.drop_first(), b.drop_first());
    }
}

proof fn lemma_lex_skip(a: Seq<u8>, b: Seq<u8>, i: int)
    requires
        0 <= i < a.len(),
        i < b.len(),
        a[i] == b[i],
    ensures
        lex_lt(a.skip(i), b.skip(i)) == lex_lt(a.skip(i + 1), b.skip(i + 1)),
{
    assert(a.skip(i).drop_first() =~= a.skip(i + 1));
    assert(b.skip(i).drop_first() =~= b.skip(i + 1));
}

/// Whether `a` comes before `b` in the byte-wise order of their UTF-8 encodings.
pub fn str_less(a: &str, b: &str) -> (r: bool)
    ensures
        r == lex_lt(encode_utf8(a@), encode_utf8(b@)),
{
    let x = a.as_bytes();
    let y = b.as_bytes();
    let mut i: usize = 0;
    assert(x@.skip(0) =~= x@);
    assert(y@.skip(0) =~= y@);
    while i < x.len() && i < y.len()
        invariant
            i <= x@.len(),
            i <= y@.len(),
            x@ == encode_utf8(a@),
            y@ == encode_utf8(b@),
            lex_lt(x@, y@) == lex_lt(x@.skip(i as int), y@.skip(i as int)),
        decreases x.len() - i,
    {
        if x[i] < y[i] {
            return true;
        }
        if x[i] > y[i] {
            return false;
        }
        proof {
            lemma_lex_skip(x@, y@, i as int);
        }
        i = i + 1;
    }
    i < y.len()
}

/// Whether two strings hold the same characters.
pub fn str_equal(a: &str, b: &str) -> (r: bool)
    ensures
        r == (a@ == b@),
{
    let x = a.as_bytes();
    let y = b.as_bytes();
    proof {
        encode_utf8_decode_utf8(a@);
        encode_utf8_decode_utf8(b@);
    }
    if x.len() != y.len() {
        return false;
    }
    let mut i: usize = 0;
    while i < x.len()
        invariant
            i <= x@.len(),
            x@.len() == y@.len(),
            x@ == encode_utf8(a@),
            y@ == encode_utf8(b@),
            forall|k: int| 0 <= k < i ==> x@[k] == y@[k],
        decreases x.len() - i,
    {
        if x[i] != y[i] {
            return false;
        }
        i = i + 1;
    }
    assert(x@ =~= y@);
    true
}

/// The decimal digits of a number.
pub open spec fn decimal(n: nat) -> Seq<char>
    decreases n,
{
    if n < 10 {
        seq![digit_char(n)]
    } else {
        decimal(n / 10) + seq![digit_char(n % 10)]
    }
}

/// The character of a decimal digit.
pub open spec fn digit_char(d: nat) -> char {
    if d == 0 { '0' }
    else if d == 1 { '1' }
    else if d == 2 { '2' }
    else if d == 3 { '3' }
    else if d == 4 { '4' }
    else if d == 5 { '5' }
    else if d == 6 { '6' }
    else if d == 7 { '7' }
    else if d == 8 { '8' }
    else { '9' }
}

fn push_digit(s: &mut String, d: usize)
    requires
        d < 10,
    ensures
        final(s)@ == old(s)@ + seq![digit_char(d as nat)],
{
    proof {
        reveal_strlit("0");
        reveal_strlit("1");
        reveal_strlit("2");
        reveal_strlit("3");
        reveal_strlit("4");
        reveal_strlit("5");
        reveal_strlit("6");
        reveal_strlit("7");
        reveal_strlit("8");
        reveal_strlit("9");
    }
    if d == 0 {
        s.append("0");
    } else if d == 1 {
        s.append("1");
    } else if d == 2 {
        s.append("2");
    } else if d == 3 {
        s.append("3");
    } else if d == 4 {
        s.append("4");
    } else if d == 5 {
        s.append("5");
    } else if d == 6 {
        s.append("6");
    } else if d == 7 {
        s.append("7");
    } else if d == 8 {
        s.append("8");
    } else {
        s.append("9");
    }
}

/// Append the decimal digits of `n`.
fn push_decimal(s: &mut String, n: usize)
    ensures
        final(s)@ == old(s)@ + decimal(n as nat),
    decreases n,
{
    if n < 10 {
        push_digit(s, n);
    } else {
        push_decimal(s, n / 10);
        push_digit(s, n % 10);
        assert(old(s)@ + decimal((n / 10) as nat) + seq![digit_char((n % 10) as nat)] =~= old(s)@ + decimal(n as nat));
    }
}

/// The register name `r` followed by the decimal digits of `n`.
pub fn numbered_register_name(n: usize) -> (s: String)
    ensures
        s@ == seq!['r'] + decimal(n as nat),
{
    let mut s = String::new();
    proof {
        reveal_strlit("r");
    }
    s.append("r");
    push_decimal(&mut s, n);
    s
}

/// The UTF-8 bytes of the name at position `i` of a register list.
pub open spec fn key_at(s: Seq<(String, RegisterValue)>, i: int) -> Seq<u8> {
    encode_utf8(s[i].0@)
}

/// The names of a register list are in strictly increasing byte-wise order.
pub open spec fn sorted_keys(s: Seq<(String, RegisterValue)>) -> bool {
    forall|i: int, j: int| 0 <= i < j < s.len() ==> lex_lt(#[trigger] key_at(s, i), #[trigger] key_at(s, j))
}

/// Whether a register list holds the name `k`.
pub open spec fn has_name(s: Seq<(String, RegisterValue)>, k: Seq<char>) -> bool {
    exists|i: int| 0 <= i < s.len() && #[trigger] s[i].0@ == k
}

/// A position of the name `k` in a register list.
pub open spec fn position_of(s: Seq<(String, RegisterValue)>, k: Seq<char>) -> int {
    choose|i: int| 0 <= i < s.len() && #[trigger] s[i].0@ == k
}

/// The value of each name of a register list.
pub open spec fn view_of(s: Seq<(String, RegisterValue)>) -> Map<Seq<char>, ValueView> {
    Map::new(|k: Seq<char>| has_name(s, k), |k: Seq<char>| s[position_of(s, k)].1@)
}

proof fn lemma_distinct(s: Seq<(String, RegisterValue)>, i: int, j: int)
    requires
        sorted_keys(s),
        0 <= i < s.len(),
        0 <= j < s.len(),
        i != j,
    ensures
        s[i].0@ != s[j].0@,
{
    if i < j {
        assert(lex_lt(key_at(s, i), key_at(s, j)));
        lemma_lex_irreflexive(key_at(s, i));
    } else {
        assert(lex_lt(key_at(s, j), key_at(s, i)));
        lemma_lex_irreflexive(key_at(s, j));
    }
}

proof fn lemma_entry(s: Seq<(String, RegisterValue)>, i: int)
    requires
        sorted_keys(s),
        0 <= i < s.len(),
    ensures
        view_of(s).dom().contains(s[i].0@),
        view_of(s)[s[i].0@] == s[i].1@,
{
    let k = s[i].0@;
    assert(has_name(s, k));
    let c = position_of(s, k);
    if c != i {
        lemma_distinct(s, c, i);
    }
}

/// The names of a register list, in order.
pub open spec fn names(s: Seq<(String, RegisterValue)>) -> Seq<Seq<char>> {
    s.map_values(|p: (String, RegisterValue)| p.0@)
}

/// The names of a sorted register list are the domain of its view, one name per entry.
proof fn lemma_dom(s: Seq<(String, RegisterValue)>)
    requires
        sorted_keys(s),
    ensures
        view_of(s).dom() == names(s).to_set(),
        view_of(s).dom().finite(),
        view_of(s).dom().len() == s.len(),
{
    let n = names(s);
    assert forall|k: Seq<char>| #[trigger] view_of(s).dom().contains(k) <==> n.to_set().contains(k) by {
        if has_name(s, k) {
            let p = position_of(s, k);
            assert(n[p] == k);
        }
        if n.to_set().contains(k) {
            let p = choose|p: int| 0 <= p < n.len() && n[p] == k;
            assert(s[p].0@ == k);
        }
    }
    assert(view_of(s).dom() =~= n.to_set());
    assert(n.no_duplicates()) by {
        assert forall|i: int, j: int| 0 <= i < n.len() && 0 <= j < n.len() && i != j implies n[i] != n[j] by {
            lemma_distinct(s, i, j);
        }
    }
    n.unique_seq_to_set();
}

/// The view of a list into which an entry was inserted or replaced at position `i`.
proof fn lemma_view_after(s: Seq<(String, RegisterValue)>, t: Seq<(String, RegisterValue)>, i: int, replaced: bool)
    requires
        sorted_keys(s),
        sorted_keys(t),
        0 <= i <= s.len(),
        replaced ==> i < s.len() && t.len() == s.len() && t[i].0@ == s[i].0@ && forall|k: int|
            0 <= k < s.len() && k != i ==> t[k] == s[k],
        !replaced ==> t.len() == s.len() + 1 && (forall|k: int| 0 <= k < i ==> t[k] == s[k]) && (forall|k: int|
            i < k < t.len() ==> t[k] == s[k - 1]),
    ensures
        view_of(t) == view_of(s).insert(t[i].0@, t[i].1@),
{
    let name = t[i].0@;
    assert forall|k: Seq<char>| #[trigger] view_of(t).dom().contains(k) <==> view_of(s).insert(name, t[i].1@).dom().contains(k) by {
        if has_name(t, k) {
            let p = position_of(t, k);
            if k != name {
                if replaced {
                    assert(s[p].0@ == k);
                } else if p < i {
                    assert(s[p].0@ == k);
                } else {
                    assert(p != i);
                    assert(s[p - 1].0@ == k);
                }
            }
        }
        if has_name(s, k) && k != name {
            let p = position_of(s, k);
            if replaced {
                assert(p != i);
                assert(t[p].0@ == k);
            } else if p < i {
                assert(t[p].0@ == k);
            } else {
                assert(t[p + 1].0@ == k);
            }
        }
        if k == name {
            assert(t[i].0@ == k);
        }
    }
    assert forall|k: Seq<char>| #[trigger] view_of(t).dom().contains(k) implies view_of(t)[k] == view_of(s).insert(name, t[i].1@)[k] by {
        if k == name {
            lemma_entry(t, i);
        } else {
            let p = position_of(s, k);
            lemma_entry(s, p);
            if replaced {
                assert(p != i);
                lemma_entry(t, p);
            } else if p < i {
                lemma_entry(t, p);
            } else {
                lemma_entry(t, p + 1);
            }
        }
    }
    assert(view_of(t) =~= view_of(s).insert(name, t[i].1@));
}

/// A set of named registers, each holding a value, kept in the byte-wise order of their
/// names.
#[derive(Debug)]
pub struct Registers {
    registers: Vec<(String, RegisterValue)>,
}

impl Registers {
    /// The names are in strictly increasing byte-wise order, so no name occurs twice.
    #[verifier::type_invariant]
    spec fn sorted(&self) -> bool {
        sorted_keys(self.registers@)
    }

    /// The value of each register, by name.
    pub closed spec fn view(&self) -> Map<Seq<char>, ValueView> {
        view_of(self.registers@)
    }

    /// The position of a name, if it is present.
    fn find(&self, name: &str) -> (r: Option<usize>)
        ensures
            r matches Some(i) ==> i < self.registers.len() && self.registers@[i as int].0@ == name@,
            r is None ==> !has_name(self.registers@, name@),
    {
        let mut i: usize = 0;
        while i < self.registers.len()
            invariant
                i <= self.registers.len(),
                forall|k: int| 0 <= k < i ==> self.registers@[k].0@ != name@,
            decreases self.registers.len() - i,
        {
            if str_equal(self.registers[i].0.as_str(), name) {
                return Some(i);
            }
            i = i + 1;
        }
        None
    }

    /// The value of a register, if it exists.
    pub fn get(&self, name: &str) -> (r: Option<&RegisterValue>)
        ensures
            r is Some <==> self@.dom().contains(name@),
            r matches Some(v) ==> v@ == self@[name@],
    {
        proof {
            use_type_invariant(self);
        }
        match self.find(name) {
            Some(i) => {
                proof {
                    lemma_entry(self.registers@, i as int);
                }
                Some(&self.registers[i].1)
            },
            None => None,
        }
    }
}

/// Write a value under a name into a sorted register list, in place of the name's value
/// or as a new entry at the name's place in the order.
fn insert_sorted(regs: &mut Vec<(String, RegisterValue)>, name: &str, value: RegisterValue)
    requires
        sorted_keys(old(regs)@),
    ensures
        sorted_keys(final(regs)@),
        view_of(final(regs)@) == view_of(old(regs)@).insert(name@, value@),
        final(regs)@.len() == old(regs)@.len() + if has_name(old(regs)@, name@) {
            0int
        } else {
            1int
        },
{
        let ghost s = regs@;
        let mut i: usize = 0;
        while i < regs.len()
            invariant
                i <= regs.len(),
                regs@ == s,
                s == old(regs)@,
                sorted_keys(s),
                forall|k: int| 0 <= k < i ==> lex_lt(#[trigger] key_at(s, k), encode_utf8(name@)),
            decreases regs.len() - i,
        {
            if str_equal(regs[i].0.as_str(), name) {
                let key = regs[i].0.clone();
                let ghost v = value@;
                regs.set(i, (key, value));
                proof {
                    assert forall|k: int| 0 <= k < regs@.len() implies #[trigger] key_at(regs@, k) == key_at(s, k) by {
                        if k != i {
                            assert(regs@[k] == s[k]);
                        }
                    }
                    assert forall|a: int, b: int| 0 <= a < b < regs@.len() implies lex_lt(#[trigger] key_at(regs@, a), #[trigger] key_at(regs@, b)) by {
                        assert(key_at(regs@, a) == key_at(s, a));
                        assert(key_at(regs@, b) == key_at(s, b));
                    }
                    lemma_view_after(s, regs@, i as int, true);
                    assert(regs@[i as int].0@ == name@);
                    assert(regs@[i as int].1@ == v);
                    assert(s[i as int].0@ == name@);
                    assert(has_name(s, name@));
                }
                return;
            }
            if str_less(name, regs[i].0.as_str()) {
                let ghost v = value@;
                regs.insert(i, (name.to_owned(), value));
                proof {
                    let t = regs@;
                    assert forall|a: int, b: int| 0 <= a < b < t.len() implies lex_lt(#[trigger] key_at(t, a), #[trigger] key_at(t, b)) by {
                        if b == i {
                            assert(key_at(t, a) == key_at(s, a));
                        } else if a == i {
                            assert(key_at(t, b) == key_at(s, b - 1));
                            if b - 1 > i {
                                assert(lex_lt(key_at(s, i as int), key_at(s, b - 1)));
                                lemma_lex_transitive(encode_utf8(name@), key_at(s, i as int), key_at(s, b - 1));
                            }
                        } else if b < i {
                            assert(key_at(t, a) == key_at(s, a));
                            assert(key_at(t, b) == key_at(s, b));
                        } else if a < i {
                            assert(key_at(t, a) == key_at(s, a));
                            assert(key_at(t, b) == key_at(s, b - 1));
                            assert(lex_lt(key_at(s, a), encode_utf8(name@)));
                            assert(lex_lt(encode_utf8(name@), key_at(s, i as int)));
                            lemma_lex_transitive(key_at(s, a), encode_utf8(name@), key_at(s, i as int));
                            if b - 1 > i {
                                lemma_lex_transitive(key_at(s, a), key_at(s, i as int), key_at(s, b - 1));
                            }
                        } else {
                            assert(key_at(t, a) == key_at(s, a - 1));
                            assert(key_at(t, b) == key_at(s, b - 1));
                        }
                    }
                    lemma_view_after(s, t, i as int, false);
                    assert(!has_name(s, name@)) by {
                        if has_name(s, name@) {
                            let p = position_of(s, name@);
                            assert(key_at(s, p) == encode_utf8(name@));
                            if p < i {
                                assert(lex_lt(key_at(s, p), encode_utf8(name@)));
                                lemma_lex_irreflexive(encode_utf8(name@));
                            } else {
                                assert(p != i);
                                if p > i {
                                    assert(lex_lt(key_at(s, i as int), key_at(s, p)));
                                    lemma_lex_transitive(encode_utf8(name@), key_at(s, i as int), key_at(s, p));
                                }
                                lemma_lex_irreflexive(encode_utf8(name@));
                            }
                        }
                    }
                }
                return;
            }
            proof {
                let k = regs@[i as int].0@;
                if k == name@ {
                } else {
                    vstd::utf8::encode_utf8_decode_utf8(k);
                    vstd::utf8::encode_utf8_decode_utf8(name@);
                    lemma_lex_total(key_at(s, i as int), encode_utf8(name@));
                }
            }
            i = i + 1;
        }
        let ghost v = value@;
        regs.push((name.to_owned(), value));
        proof {
            let t = regs@;
            assert forall|a: int, b: int| 0 <= a < b < t.len() implies lex_lt(#[trigger] key_at(t, a), #[trigger] key_at(t, b)) by {
                assert(key_at(t, a) == key_at(s, a));
                if b < s.len() {
                    assert(key_at(t, b) == key_at(s, b));
                }
            }
            lemma_view_after(s, t, s.len() as int, false);
            assert(!has_name(s, name@)) by {
                if has_name(s, name@) {
                    let p = position_of(s, name@);
                    assert(lex_lt(key_at(s, p), encode_utf8(name@)));
                    lemma_lex_irreflexive(encode_utf8(name@));
                }
            }
        }
}

impl Registers {
    /// Write a value into a register, creating the register if it does not exist.
    pub fn set(&mut self, name: &str, value: RegisterValue)
        ensures
            final(self)@ == old(self)@.insert(name@, value@),
    {
        proof {
            use_type_invariant(&*self);
        }
        let mut regs: Vec<(String, RegisterValue)> = Vec::new();
        std::mem::swap(&mut regs, &mut self.registers);
        insert_sorted(&mut regs, name, value);
        self.registers = regs;
    }
}

/// Whether a register holds no value.
pub open spec fn is_empty_value(v: ValueView) -> bool {
    v is Empty
}

/// The first name in byte-wise order whose register is empty.
pub open spec fn is_first_empty(m: Map<Seq<char>, ValueView>, name: Seq<char>) -> bool {
    &&& m.dom().contains(name)
    &&& is_empty_value(m[name])
    &&& forall|k: Seq<char>|
        #![trigger m.dom().contains(k)]
        m.dom().contains(k) && is_empty_value(m[k]) && k != name ==> lex_lt(encode_utf8(name), encode_utf8(k))
}

/// Whether some register is empty.
pub open spec fn has_empty(m: Map<Seq<char>, ValueView>) -> bool {
    exists|k: Seq<char>| #[trigger] m.dom().contains(k) && is_empty_value(m[k])
}

/// The registers of a fresh machine: the instruction pointer `ip` at zero, the bytecode
/// register `bc` holding an empty array, the empty argument register `arg` and return
/// register `ret`, and the eight empty general-purpose registers `r1` to `r8`.
pub open spec fn initial_registers() -> Map<Seq<char>, ValueView> {
    Map::empty()
        .insert("ip"@, ValueView::UInt64(0))
        .insert("bc"@, ValueView::List(Seq::empty()))
        .insert("arg"@, ValueView::Empty)
        .insert("ret"@, ValueView::Empty)
        .insert("r1"@, ValueView::Empty)
        .insert("r2"@, ValueView::Empty)
        .insert("r3"@, ValueView::Empty)
        .insert("r4"@, ValueView::Empty)
        .insert("r5"@, ValueView::Empty)
        .insert("r6"@, ValueView::Empty)
        .insert("r7"@, ValueView::Empty)
        .insert("r8"@, ValueView::Empty)
}

impl Registers {
    /// A register set without registers.
    pub fn empty() -> (r: Registers)
        ensures
            r@ == Map::<Seq<char>, ValueView>::empty(),
    {
        let r = Registers { registers: Vec::new() };
        assert(r@ =~= Map::<Seq<char>, ValueView>::empty());
        r
    }

    /// The registers of a fresh machine.
    pub fn new() -> (r: Registers)
        ensures
            r@ == initial_registers(),
    {
        let mut r = Registers::empty();
        r.set("ip", RegisterValue::UInt64(0));
        let bc = RegisterValue::Array(Vec::new());
        assert(bc@->List_0 =~= Seq::<ValueView>::empty());
        r.set("bc", bc);
        r.set("arg", RegisterValue::Empty);
        r.set("ret", RegisterValue::Empty);
        r.set("r1", RegisterValue::Empty);
        r.set("r2", RegisterValue::Empty);
        r.set("r3", RegisterValue::Empty);
        r.set("r4", RegisterValue::Empty);
        r.set("r5", RegisterValue::Empty);
        r.set("r6", RegisterValue::Empty);
        r.set("r7", RegisterValue::Empty);
        r.set("r8", RegisterValue::Empty);
        r
    }

    /// Mark a register as occupied and return its name: the first empty register in the
    /// byte-wise order of the names, or else a new register named `r` followed by one more
    /// than the number of registers. The register then holds `UInt64(0)`.
    pub fn allocate_register(&mut self) -> (name: String)
        requires
            old(self)@.dom().len() < usize::MAX,
        ensures
            has_empty(old(self)@) ==> is_first_empty(old(self)@, name@),
            !has_empty(old(self)@) ==> name@ == seq!['r'] + decimal((old(self)@.dom().len() + 1) as nat),
            final(self)@ == old(self)@.insert(name@, ValueView::UInt64(0)),
    {
        proof {
            use_type_invariant(&*self);
            lemma_dom(self.registers@);
        }
        let ghost s = self.registers@;
        let mut i: usize = 0;
        while i < self.registers.len()
            invariant
                s == self.registers@,
                s == old(self).registers@,
                sorted_keys(s),
                i <= s.len(),
                forall|k: int| 0 <= k < i ==> !is_empty_value(#[trigger] s[k].1@),
            decreases s.len() - i,
        {
            if let RegisterValue::Empty = self.registers[i].1 {
                let name = self.registers[i].0.clone();
                proof {
                    lemma_entry(s, i as int);
                    let m = view_of(s);
                    assert(name@ == s[i as int].0@);
                    assert(is_empty_value(m[name@]));
                    assert forall|k: Seq<char>|
                        #![trigger m.dom().contains(k)]
                        m.dom().contains(k) && is_empty_value(m[k]) && k != name@ implies lex_lt(
                        encode_utf8(name@),
                        encode_utf8(k),
                    ) by {
                        let p = position_of(s, k);
                        lemma_entry(s, p);
                        assert(p != i);
                        if p < i {
                            assert(!is_empty_value(s[p].1@));
                        } else {
                            assert(lex_lt(key_at(s, i as int), key_at(s, p)));
                        }
                    }
                }
                self.set(name.as_str(), RegisterValue::UInt64(0));
                return name;
            }
            i = i + 1;
        }
        proof {
            assert(!has_empty(view_of(s))) by {
                if has_empty(view_of(s)) {
                    let k = choose|k: Seq<char>| #[trigger] view_of(s).dom().contains(k) && is_empty_value(view_of(s)[k]);
                    let p = position_of(s, k);
                    lemma_entry(s, p);
                    assert(!is_empty_value(s[p].1@));
                }
            }
        }
        let name = numbered_register_name(self.registers.len() + 1);
        self.set(name.as_str(), RegisterValue::UInt64(0));
        name
    }

    /// Mark a register as free by emptying it.
    pub fn free_register(&mut self, name: &str)
        ensures
            final(self)@ == old(self)@.insert(name@, ValueView::Empty),
    {
        self.set(name, RegisterValue::Empty);
    }
}

/// Whether a byte is an ASCII decimal digit.
pub open spec fn is_digit_byte(b: u8) -> bool {
    48 <= b <= 57
}

/// The number that a sequence of ASCII decimal digits denotes.
pub open spec fn digits_value(d: Seq<u8>) -> nat
    decreases d.len(),
{
    if d.len() == 0 {
        0
    } else {
        digits_value(d.drop_last()) * 10 + (d.last() - 48) as nat
    }
}

/// Whether every byte is an ASCII decimal digit.
pub open spec fn all_digits(d: Seq<u8>) -> bool {
    forall|i: int| 0 <= i < d.len() ==> is_digit_byte(#[trigger] d[i])
}

/// The text after an optional leading `+`.
pub open spec fn unsigned_digits(t: Seq<u8>) -> Seq<u8> {
    if t.len() > 0 && t[0] == 43 { t.drop_first() } else { t }
}

/// Whether text reads as a `u32` in Rust's syntax: an optional `+`, then one or more
/// decimal digits whose value fits in 32 bits.
pub open spec fn is_u32_text(t: Seq<u8>) -> bool {
    let d = unsigned_digits(t);
    d.len() > 0 && all_digits(d) && digits_value(d) <= u32::MAX
}

/// Whether a register name is a numbered register: `r` followed by a `u32`, such as `r3`.
pub open spec fn is_numbered(name: Seq<char>) -> bool {
    let b = encode_utf8(name);
    b.len() > 0 && b[0] == 114 && is_u32_text(b.drop_first())
}

/// The numbered registers of a register map.
pub open spec fn numbered_part(m: Map<Seq<char>, ValueView>) -> Map<Seq<char>, ValueView> {
    m.restrict(Set::new(|k: Seq<char>| is_numbered(k)))
}

/// Whether a register name is a numbered register.
pub fn is_numbered_name(name: &str) -> (r: bool)
    ensures
        r == is_numbered(name@),
{
    let b = name.as_bytes();
    if b.len() == 0 || b[0] != 114u8 {
        return false;
    }
    let start: usize = if b.len() > 1 && b[1] == 43u8 { 2 } else { 1 };
    let ghost t = b@.drop_first();
    let ghost d = unsigned_digits(t);
    assert(d =~= b@.skip(start as int));
    if start >= b.len() {
        return false;
    }
    assert(b@ == encode_utf8(name@));
    let mut value: u64 = 0;
    let mut i: usize = start;
    while i < b.len()
        invariant
            start <= i <= b.len(),
            start < b.len(),
            d == b@.skip(start as int),
            d.len() > 0,
            is_numbered(name@) == (all_digits(d) && digits_value(d) <= u32::MAX),
            value == digits_value(d.take(i - start)),
            value <= u32::MAX,
            forall|k: int| 0 <= k < i - start ==> is_digit_byte(#[trigger] d[k]),
        decreases b.len() - i,
    {
        let c = b[i];
        if c < 48u8 || c > 57u8 {
            assert(!is_digit_byte(d[i - start]));
            return false;
        }
        proof {
            assert(d.take(i - start + 1).drop_last() =~= d.take(i - start));
        }
        value = value * 10 + (c - 48u8) as u64;
        assert(value == digits_value(d.take(i - start + 1)));
        if value > 0xffff_ffffu64 {
            proof {
                lemma_digits_value_grows(d, (i - start + 1) as int);
            }
            return false;
        }
        i = i + 1;
    }
    assert(d.take(i - start) =~= d);
    assert(all_digits(d));
    true
}

/// A sequence of digits denotes at least what any of its prefixes denotes.
proof fn lemma_digits_value_grows(d: Seq<u8>, n: int)
    requires
        0 <= n <= d.len(),
    ensures
        digits_value(d.take(n)) <= digits_value(d),
    decreases d.len() - n,
{
    if n < d.len() {
        lemma_digits_value_grows(d, n + 1);
        assert(d.take(n + 1).drop_last() =~= d.take(n));
    } else {
        assert(d.take(n) =~= d);
    }
}

impl Registers {
    /// A copy of the numbered registers (`r0`, `r1`, ...), which a method call saves for the
    /// caller.
    pub fn numbered_registers(&self) -> (r: Registers)
        ensures
            r@ == numbered_part(self@),
    {
        proof {
            use_type_invariant(self);
        }
        let ghost s = self.registers@;
        let mut out: Vec<(String, RegisterValue)> = Vec::new();
        let ghost mut idx: Seq<int> = Seq::empty();
        let mut i: usize = 0;
        while i < self.registers.len()
            invariant
                s == self.registers@,
                sorted_keys(s),
                i <= s.len(),
                idx.len() == out@.len(),
                forall|j: int| 0 <= j < idx.len() ==> 0 <= #[trigger] idx[j] < i,
                forall|j: int, l: int| 0 <= j < l < idx.len() ==> #[trigger] idx[j] < #[trigger] idx[l],
                forall|j: int|
                    #![trigger out@[j]]
                    0 <= j < idx.len() ==> out@[j].0@ == s[idx[j]].0@ && out@[j].1@ == s[idx[j]].1@ && is_numbered(
                        s[idx[j]].0@,
                    ),
                forall|p: int|
                    #![trigger s[p]]
                    0 <= p < i && is_numbered(s[p].0@) ==> exists|j: int| 0 <= j < idx.len() && idx[j] == p,
            decreases s.len() - i,
        {
            if is_numbered_name(self.registers[i].0.as_str()) {
                let name = self.registers[i].0.clone();
                let value = self.registers[i].1.duplicate();
                let ghost old_idx = idx;
                proof {
                    idx = idx.push(i as int);
                }
                out.push((name, value));
                proof {
                    assert(out@[out@.len() - 1].0@ == s[i as int].0@);
                    assert forall|p: int|
                        #![trigger s[p]]
                        0 <= p < i + 1 && is_numbered(s[p].0@) implies exists|j: int| 0 <= j < idx.len() && idx[j] == p by {
                        if p == i {
                            assert(idx[idx.len() - 1] == p);
                        } else {
                            assert(is_numbered(s[p].0@));
                            let j = choose|j: int| 0 <= j < old_idx.len() && old_idx[j] == p;
                            assert(idx[j] == p);
                        }
                    }
                }
            }
            i = i + 1;
        }
        let ghost t = out@;
        proof {
            assert forall|a: int, b: int| 0 <= a < b < t.len() implies lex_lt(#[trigger] key_at(t, a), #[trigger] key_at(t, b)) by {
                assert(key_at(t, a) == key_at(s, idx[a]));
                assert(key_at(t, b) == key_at(s, idx[b]));
            }
            let m = numbered_part(view_of(s));
            assert forall|k: Seq<char>| #[trigger] view_of(t).dom().contains(k) <==> m.dom().contains(k) by {
                if has_name(t, k) {
                    let j = position_of(t, k);
                    assert(s[idx[j]].0@ == k);
                    assert(has_name(s, k));
                }
                if m.dom().contains(k) {
                    let p = position_of(s, k);
                    assert(is_numbered(s[p].0@));
                    let j = choose|j: int| 0 <= j < idx.len() && idx[j] == p;
                    assert(t[j].0@ == k);
                }
            }
            assert forall|k: Seq<char>| #[trigger] view_of(t).dom().contains(k) implies view_of(t)[k] == m[k] by {
                let j = position_of(t, k);
                lemma_entry(t, j);
                lemma_entry(s, idx[j]);
            }
            assert(view_of(t) =~= m);
        }
        Registers { registers: out }
    }

    /// Write every register of `saved` back, leaving the others as they are.
    pub fn restore(&mut self, saved: &Registers)
        ensures
            final(self)@ == old(self)@.union_prefer_right(saved@),
    {
        proof {
            use_type_invariant(saved);
        }
        let ghost s = saved.registers@;
        let mut i: usize = 0;
        while i < saved.registers.len()
            invariant
                s == saved.registers@,
                sorted_keys(s),
                i <= s.len(),
                self@ == old(self)@.union_prefer_right(view_of(s.take(i as int))),
            decreases s.len() - i,
        {
            let value = saved.registers[i].1.duplicate();
            proof {
                let a = s.take(i as int);
                let b = s.take(i + 1);
                assert forall|x: int, y: int| 0 <= x < y < a.len() implies lex_lt(#[trigger] key_at(a, x), #[trigger] key_at(a, y)) by {
                    assert(key_at(a, x) == key_at(s, x));
                    assert(key_at(a, y) == key_at(s, y));
                }
                assert forall|x: int, y: int| 0 <= x < y < b.len() implies lex_lt(#[trigger] key_at(b, x), #[trigger] key_at(b, y)) by {
                    assert(key_at(b, x) == key_at(s, x));
                    assert(key_at(b, y) == key_at(s, y));
                }
                lemma_view_after(a, b, i as int, false);
            }
            self.set(saved.registers[i].0.as_str(), value);
            proof {
                let a = s.take(i as int);
                let b = s.take(i + 1);
                assert(self@ =~= old(self)@.union_prefer_right(view_of(a)).insert(s[i as int].0@, s[i as int].1@));
                assert(view_of(b) == view_of(a).insert(b[i as int].0@, b[i as int].1@));
                assert(old(self)@.union_prefer_right(view_of(b)) =~= old(self)@.union_prefer_right(view_of(a)).insert(
                    s[i as int].0@,
                    s[i as int].1@,
                ));
            }
            i = i + 1;
        }
        assert(s.take(s.len() as int) =~= s);
    }
}

/// Whether the bit pattern of a 32-bit floating-point value is a NaN.
pub open spec fn float32_is_nan(b: u32) -> bool {
    (b & 0x7f80_0000u32) == 0x7f80_0000u32 && (b & 0x007f_ffffu32) != 0
}

/// Whether the bit pattern of a 64-bit floating-point value is a NaN.
pub open spec fn float64_is_nan(b: u64) -> bool {
    (b & 0x7ff0_0000_0000_0000u64) == 0x7ff0_0000_0000_0000u64 && (b & 0x000f_ffff_ffff_ffffu64) != 0
}

/// IEEE-754 equality of two 32-bit floating-point values, given by their bit patterns: a NaN
/// equals nothing, and the two zeros are equal.
pub open spec fn float32_eq(a: u32, b: u32) -> bool {
    !float32_is_nan(a) && !float32_is_nan(b) && (a == b || ((a & 0x7fff_ffffu32) == 0 && (b & 0x7fff_ffffu32) == 0))
}

/// IEEE-754 equality of two 64-bit floating-point values, given by their bit patterns.
pub open spec fn float64_eq(a: u64, b: u64) -> bool {
    !float64_is_nan(a) && !float64_is_nan(b) && (a == b || ((a & 0x7fff_ffff_ffff_ffffu64) == 0 && (b
        & 0x7fff_ffff_ffff_ffffu64) == 0))
}

/// Whether some entry of a dictionary has the name.
pub open spec fn dict_has_name(x: Seq<(Seq<char>, ValueView)>, k: Seq<char>) -> bool {
    exists|i: int| 0 <= i < x.len() && #[trigger] x[i].0 == k
}

/// Whether entry `i` is the last one with its name: the one that holds the name's value, as
/// when the entries are inserted into a map one after another.
pub open spec fn is_last_entry(x: Seq<(Seq<char>, ValueView)>, i: int) -> bool {
    0 <= i < x.len() && !dict_has_name(x.skip(i + 1), x[i].0)
}

/// Equality of values: values of different types differ, floating-point values are equal as
/// IEEE-754 numbers, arrays element by element, and dictionaries as maps, whatever the order
/// of their entries.
pub open spec fn value_eq(a: ValueView, b: ValueView) -> bool
    decreases a,
{
    match (a, b) {
        (ValueView::Float32(x), ValueView::Float32(y)) => float32_eq(x, y),
        (ValueView::Float64(x), ValueView::Float64(y)) => float64_eq(x, y),
        (ValueView::List(x), ValueView::List(y)) => x.len() == y.len() && forall|i: int|
            0 <= i < x.len() ==> value_eq(#[trigger] x[i], y[i]),
        (ValueView::Dict(x), ValueView::Dict(y)) => dict_eq(x, y),
        _ => a == b,
    }
}

/// Equality of two dictionaries as maps: they have the same names, and the value of each
/// name in one equals its value in the other.
pub open spec fn dict_eq(x: Seq<(Seq<char>, ValueView)>, y: Seq<(Seq<char>, ValueView)>) -> bool
    decreases x,
{
    &&& forall|k: Seq<char>| dict_has_name(x, k) <==> dict_has_name(y, k)
    &&& forall|i: int|
        is_last_entry(x, i) ==> exists|j: int|
            #![trigger y[j]]
            is_last_entry(y, j) && y[j].0 == x[i].0 && value_eq(x[i].1, y[j].1)
}

/// The entries of a dictionary, each taken by its view.
pub open spec fn entries_of(m: Seq<(String, RegisterValue)>) -> Seq<(Seq<char>, ValueView)> {
    Seq::new(m.len(), |i: int| (m[i].0@, m[i].1@))
}

fn float32_same(a: u32, b: u32) -> (r: bool)
    ensures
        r == float32_eq(a, b),
{
    let a_nan = (a & 0x7f80_0000u32) == 0x7f80_0000u32 && (a & 0x007f_ffffu32) != 0;
    let b_nan = (b & 0x7f80_0000u32) == 0x7f80_0000u32 && (b & 0x007f_ffffu32) != 0;
    !a_nan && !b_nan && (a == b || ((a & 0x7fff_ffffu32) == 0 && (b & 0x7fff_ffffu32) == 0))
}

fn float64_same(a: u64, b: u64) -> (r: bool)
    ensures
        r == float64_eq(a, b),
{
    let a_nan = (a & 0x7ff0_0000_0000_0000u64) == 0x7ff0_0000_0000_0000u64 && (a & 0x000f_ffff_ffff_ffffu64) != 0;
    let b_nan = (b & 0x7ff0_0000_0000_0000u64) == 0x7ff0_0000_0000_0000u64 && (b & 0x000f_ffff_ffff_ffffu64) != 0;
    !a_nan && !b_nan && (a == b || ((a & 0x7fff_ffff_ffff_ffffu64) == 0 && (b & 0x7fff_ffff_ffff_ffffu64) == 0))
}

/// Whether some entry from position `from` on has the name.
fn name_from(m: &Vec<(String, RegisterValue)>, from: usize, name: &str) -> (r: bool)
    requires
        from <= m.len(),
    ensures
        r == dict_has_name(entries_of(m@).skip(from as int), name@),
{
    let ghost x = entries_of(m@).skip(from as int);
    let mut i: usize = from;
    while i < m.len()
        invariant
            from <= i <= m.len(),
            x == entries_of(m@).skip(from as int),
            forall|k: int| 0 <= k < i - from ==> #[trigger] x[k].0 != name@,
        decreases m.len() - i,
    {
        if str_equal(m[i].0.as_str(), name) {
            assert(x[i - from].0 == name@);
            return true;
        }
        i = i + 1;
    }
    false
}

/// Whether every name of the first dictionary is a name of the second.
fn names_within(a: &Vec<(String, RegisterValue)>, b: &Vec<(String, RegisterValue)>) -> (r: bool)
    ensures
        r == (forall|k: Seq<char>| dict_has_name(entries_of(a@), k) ==> dict_has_name(entries_of(b@), k)),
{
    let ghost x = entries_of(a@);
    let ghost y = entries_of(b@);
    assert(y.skip(0) =~= y);
    let mut i: usize = 0;
    while i < a.len()
        invariant
            i <= a.len(),
            x == entries_of(a@),
            y == entries_of(b@),
            y.skip(0) == y,
            forall|k: int| 0 <= k < i ==> dict_has_name(y, #[trigger] x[k].0),
        decreases a.len() - i,
    {
        if !name_from(b, 0, a[i].0.as_str()) {
            assert(!dict_has_name(y, x[i as int].0));
            return false;
        }
        i = i + 1;
    }
    assert forall|k: Seq<char>| dict_has_name(x, k) implies dict_has_name(y, k) by {
        let w = choose|w: int| 0 <= w < x.len() && #[trigger] x[w].0 == k;
        assert(dict_has_name(y, x[w].0));
    }
    true
}

/// The position of the last entry with the name, if there is one.
fn find_last(m: &Vec<(String, RegisterValue)>, name: &str) -> (r: Option<usize>)
    ensures
        r matches Some(j) ==> is_last_entry(entries_of(m@), j as int) && entries_of(m@)[j as int].0 == name@,
        r is None ==> !dict_has_name(entries_of(m@), name@),
{
    let ghost y = entries_of(m@);
    let mut k: usize = m.len();
    while k > 0
        invariant
            k <= m.len(),
            y == entries_of(m@),
            forall|w: int| k <= w < m.len() ==> #[trigger] y[w].0 != name@,
        decreases k,
    {
        if str_equal(m[k - 1].0.as_str(), name) {
            assert forall|w: int| 0 <= w < y.skip(k as int).len() implies #[trigger] y.skip(k as int)[w].0 != name@ by {
                assert(y.skip(k as int)[w] == y[k + w]);
            }
            return Some(k - 1);
        }
        k = k - 1;
    }
    None
}

/// Two last entries with one name are one entry.
proof fn lemma_last_entry_unique(y: Seq<(Seq<char>, ValueView)>, j1: int, j2: int)
    requires
        is_last_entry(y, j1),
        is_last_entry(y, j2),
        y[j1].0 == y[j2].0,
    ensures
        j1 == j2,
{
    if j1 < j2 {
        assert(y.skip(j1 + 1)[j2 - j1 - 1] == y[j2]);
    } else if j2 < j1 {
        assert(y.skip(j2 + 1)[j1 - j2 - 1] == y[j1]);
    }
}

impl RegisterValue {
    /// Whether two values are equal: of one type and with equal contents, where
    /// floating-point values are compared as IEEE-754 numbers and dictionaries as maps.
    pub fn same_as(&self, other: &RegisterValue) -> (r: bool)
        ensures
            r == value_eq(self@, other@),
        decreases self,
    {
        match (self, other) {
            (RegisterValue::Empty, RegisterValue::Empty) => true,
            (RegisterValue::Int8(a), RegisterValue::Int8(b)) => *a == *b,
            (RegisterValue::Int16(a), RegisterValue::Int16(b)) => *a == *b,
            (RegisterValue::Int32(a), RegisterValue::Int32(b)) => *a == *b,
            (RegisterValue::Int64(a), RegisterValue::Int64(b)) => *a == *b,
            (RegisterValue::UInt8(a), RegisterValue::UInt8(b)) => *a == *b,
            (RegisterValue::UInt16(a), RegisterValue::UInt16(b)) => *a == *b,
            (RegisterValue::UInt32(a), RegisterValue::UInt32(b)) => *a == *b,
            (RegisterValue::UInt64(a), RegisterValue::UInt64(b)) => *a == *b,
            (RegisterValue::Float32(a), RegisterValue::Float32(b)) => float32_same(*a, *b),
            (RegisterValue::Float64(a), RegisterValue::Float64(b)) => float64_same(*a, *b),
            (RegisterValue::String(a), RegisterValue::String(b)) => str_equal(a.as_str(), b.as_str()),
            (RegisterValue::Boolean(a), RegisterValue::Boolean(b)) => *a == *b,
            (RegisterValue::Dict(da), RegisterValue::Dict(db)) => {
                let a = &da.entries;
                let b = &db.entries;
                let ghost x = entries_of(a@);
                let ghost y = entries_of(b@);
                proof {
                    da.lemma_view_entries();
                    db.lemma_view_entries();
                    assert(self@ == ValueView::Dict(x));
                    assert(other@ == ValueView::Dict(y));
                    assert(value_eq(self@, other@) == dict_eq(x, y));
                }
                let within = names_within(a, b);
                let back = names_within(b, a);
                if !within || !back {
                    proof {
                        let k = if !within {
                            choose|k: Seq<char>| dict_has_name(x, k) && !dict_has_name(y, k)
                        } else {
                            choose|k: Seq<char>| dict_has_name(y, k) && !dict_has_name(x, k)
                        };
                        assert(dict_has_name(x, k) != dict_has_name(y, k));
                        assert(!dict_eq(x, y));
                    }
                    return false;
                }
                let mut i: usize = 0;
                while i < a.len()
                    invariant
                        i <= a.len(),
                        *self == RegisterValue::Dict(*da),
                        *other == RegisterValue::Dict(*db),
                        *a == da.entries,
                        *b == db.entries,
                        x == entries_of(a@),
                        y == entries_of(b@),
                        self@->Dict_0 == x,
                        other@->Dict_0 == y,
                        forall|k: Seq<char>| dict_has_name(x, k) <==> dict_has_name(y, k),
                        forall|m: int|
                            0 <= m < i && is_last_entry(x, m) ==> exists|j: int|
                                #![trigger y[j]]
                                is_last_entry(y, j) && y[j].0 == x[m].0 && value_eq(x[m].1, y[j].1),
                    decreases a.len() - i,
                {
                    proof {
                        assert(decreases_to!(*self => (*self)->Dict_0));
                        assert(decreases_to!(*da => da.entries));
                        assert(decreases_to!(a => a@));
                        assert(decreases_to!(a@ => a@[i as int]));
                        assert(decreases_to!(a@[i as int] => a@[i as int].1));
                    }
                    if !name_from(a, i + 1, a[i].0.as_str()) {
                        assert(x[i as int].0 == a@[i as int].0@);
                        assert(is_last_entry(x, i as int));
                        match find_last(b, a[i].0.as_str()) {
                            None => {
                                assert(dict_has_name(x, x[i as int].0));
                                return false;
                            },
                            Some(j) => {
                                let same = a[i].1.same_as(&b[j].1);
                                assert(y[j as int].1 == b@[j as int].1@);
                                if !same {
                                    assert forall|j2: int|
                                        is_last_entry(y, j2) && y[j2].0 == x[i as int].0 implies !value_eq(
                                        x[i as int].1,
                                        #[trigger] y[j2].1,
                                    ) by {
                                        lemma_last_entry_unique(y, j as int, j2);
                                    }
                                    assert(!dict_eq(x, y));
                                    return false;
                                }
                                assert(is_last_entry(y, j as int) && y[j as int].0 == x[i as int].0 && value_eq(
                                    x[i as int].1,
                                    y[j as int].1,
                                ));
                            },
                        }
                    }
                    i = i + 1;
                }
                assert(dict_eq(x, y));
                true
            },
            (RegisterValue::Array(a), RegisterValue::Array(b)) => {
                if a.len() != b.len() {
                    proof {
                        assert(self@->List_0.len() != other@->List_0.len());
                    }
                    return false;
                }
                let mut i: usize = 0;
                while i < a.len()
                    invariant
                        i <= a.len(),
                        a.len() == b.len(),
                        *self == RegisterValue::Array(*a),
                        *other == RegisterValue::Array(*b),
                        forall|j: int| 0 <= j < i ==> value_eq(#[trigger] self@->List_0[j], other@->List_0[j]),
                    decreases a.len() - i,
                {
                    proof {
                        assert(decreases_to!(*self => (*self)->Array_0));
                        assert(decreases_to!(a => a@));
                        assert(decreases_to!(a@ => a@[i as int]));
                    }
                    if !a[i].same_as(&b[i]) {
                        proof {
                            assert(self@->List_0[i as int] == a[i as int]@);
                        }
                        return false;
                    }
                    i = i + 1;
                }
                true
            },
            _ => false,
        }
    }
}

/// The entries that hold the names' values: of several entries with one name, only the
/// last, in their order.
pub open spec fn last_entries(x: Seq<(Seq<char>, ValueView)>) -> Seq<(Seq<char>, ValueView)>
    decreases x.len(),
{
    if x.len() == 0 {
        x
    } else if dict_has_name(x.drop_first(), x[0].0) {
        last_entries(x.drop_first())
    } else {
        seq![x[0]] + last_entries(x.drop_first())
    }
}

/// Whether no two entries have one name.
pub open spec fn names_unique(x: Seq<(Seq<char>, ValueView)>) -> bool {
    forall|a: int, b: int| 0 <= a < x.len() && 0 <= b < x.len() && a != b ==> #[trigger] x[a].0 != #[trigger] x[b].0
}

impl Dictionary {
    /// The dictionary of the entries, as a map built by inserting them one after another:
    /// of several entries with one name the last holds its value.
    pub fn from_entries(entries: Vec<(String, RegisterValue)>) -> (d: Dictionary)
        ensures
            d.view_entries() == last_entries(entries_of(entries@)),
    {
        let ghost x = entries_of(entries@);
        let mut out: Vec<(String, RegisterValue)> = Vec::new();
        let mut i: usize = 0;
        assert(x.skip(0) =~= x);
        assert(entries_of(out@) =~= Seq::<(Seq<char>, ValueView)>::empty());
        while i < entries.len()
            invariant
                i <= entries.len(),
                x == entries_of(entries@),
                last_entries(x) == entries_of(out@) + last_entries(x.skip(i as int)),
                names_unique(entries_of(out@)),
                forall|a: int| 0 <= a < out.len() ==> !dict_has_name(x.skip(i as int), #[trigger] out@[a].0@),
            decreases entries.len() - i,
        {
            let later = name_from(&entries, i + 1, entries[i].0.as_str());
            let ghost old_out = entries_of(out@);
            proof {
                assert(x.skip(i as int).drop_first() =~= x.skip(i + 1));
                assert(x.skip(i as int)[0] == x[i as int]);
                assert(x[i as int].0 == entries@[i as int].0@);
                assert forall|k: Seq<char>| dict_has_name(x.skip(i + 1), k) implies dict_has_name(x.skip(i as int), k) by {
                    let w = choose|w: int| 0 <= w < x.skip(i + 1).len() && #[trigger] x.skip(i + 1)[w].0 == k;
                    assert(x.skip(i as int)[w + 1] == x.skip(i + 1)[w]);
                }
            }
            if !later {
                let name = entries[i].0.clone();
                let value = entries[i].1.duplicate();
                out.push((name, value));
                proof {
                    assert(entries_of(out@) =~= old_out + seq![x[i as int]]);
                    assert(last_entries(x.skip(i as int)) =~= seq![x[i as int]] + last_entries(x.skip(i + 1)));
                    assert(last_entries(x) =~= entries_of(out@) + last_entries(x.skip(i + 1)));
                    assert forall|a: int| 0 <= a < out.len() implies !dict_has_name(x.skip(i + 1), #[trigger] out@[a].0@) by {
                        if a < out.len() - 1 {
                            assert(out@[a].0@ == old_out[a].0);
                        }
                    }
                    assert forall|a: int, b: int|
                        0 <= a < entries_of(out@).len() && 0 <= b < entries_of(out@).len() && a != b implies #[trigger] entries_of(
                        out@,
                    )[a].0 != #[trigger] entries_of(out@)[b].0 by {
                        let n = out.len() - 1;
                        if a == n {
                            assert(!dict_has_name(x.skip(i as int), out@[b].0@));
                            assert(x.skip(i as int)[0].0 == x[i as int].0);
                        } else if b == n {
                            assert(!dict_has_name(x.skip(i as int), out@[a].0@));
                            assert(x.skip(i as int)[0].0 == x[i as int].0);
                        } else {
                            assert(entries_of(out@)[a] == old_out[a]);
                            assert(entries_of(out@)[b] == old_out[b]);
                        }
                    }
                }
            } else {
                proof {
                    assert(last_entries(x.skip(i as int)) == last_entries(x.skip(i + 1)));
                }
            }
            i = i + 1;
        }
        proof {
            assert(x.skip(i as int) =~= Seq::<(Seq<char>, ValueView)>::empty());
            assert(last_entries(x) =~= entries_of(out@));
            assert forall|a: int, b: int| 0 <= a < out.len() && 0 <= b < out.len() && a != b implies #[trigger] out@[a].0@
                != #[trigger] out@[b].0@ by {
                assert(entries_of(out@)[a].0 != entries_of(out@)[b].0);
            }
        }
        let d = Dictionary { entries: out };
        proof {
            d.lemma_view_entries();
        }
        d
    }

    /// The entries, in order; no two have one name.
    pub fn entries(&self) -> (r: &Vec<(String, RegisterValue)>)
        ensures
            entries_of(r@) == self.view_entries(),
            names_unique(entries_of(r@)),
    {
        proof {
            use_type_invariant(self);
            self.lemma_view_entries();
            assert forall|a: int, b: int|
                0 <= a < self.entries.len() && 0 <= b < self.entries.len() && a != b implies #[trigger] entries_of(
                self.entries@,
            )[a].0 != #[trigger] entries_of(self.entries@)[b].0 by {
                assert(self.entries@[a].0@ != self.entries@[b].0@);
            }
        }
        &self.entries
    }
}

/// Allocating a register and freeing it again leaves the registers as they were, when there
/// was an empty register to allocate.
pub proof fn lemma_allocate_then_free(m: Map<Seq<char>, ValueView>, name: Seq<char>)
    requires
        is_first_empty(m, name),
    ensures
        m.insert(name, ValueView::UInt64(0)).insert(name, ValueView::Empty) == m,
{
    assert(m.insert(name, ValueView::UInt64(0)).insert(name, ValueView::Empty) =~= m);
}

} // verus!
