use vstd::prelude::*;

use crate::machine::instruction::MemoryMethod;
use crate::types::StrontiumError;

verus! {

/// A generic, low-level structure for data and code storage: an array of bytes with no
/// concept of numbers or strings.
pub struct Memory {
    pub data: Vec<u8>,
}

/// The byte that a bitwise operation computes from its operands: 0 is AND, 1 OR, 2 XOR,
/// 3 NOT (of the first operand), 4 a left and 5 a right shift of the first operand by
/// `amount` bits (bits shifted out of the byte are lost).
pub open spec fn byte_op(kind: int, x: u8, y: u8, amount: u32) -> u8 {
    if kind == 0 {
        x & y
    } else if kind == 1 {
        x | y
    } else if kind == 2 {
        x ^ y
    } else if kind == 3 {
        !x
    } else if kind == 4 {
        (x << amount) as u8
    } else {
        (x >> amount) as u8
    }
}

/// The bytes after applying a bitwise operation to the first `n` offsets, one offset after
/// the other: each offset reads the bytes as the earlier offsets left them, so where the
/// output range overlaps an input range the later offsets see the new bytes.
pub open spec fn byte_steps(d: Seq<u8>, kind: int, a: int, b: int, out: int, amount: u32, n: nat) -> Seq<u8>
    decreases n,
{
    if n == 0 {
        d
    } else {
        let prev = byte_steps(d, kind, a, b, out, amount, (n - 1) as nat);
        let k = n - 1;
        prev.update(out + k, byte_op(kind, prev[a + k], prev[b + k], amount))
    }
}

/// Whether `n` bytes from `at` lie in a memory of `len` bytes.
pub open spec fn in_range(at: int, n: int, len: int) -> bool {
    0 <= at && at + n <= len
}

/// Whether the ranges `[x, x + n)` and `[y, y + n)` share no position.
pub open spec fn disjoint(x: int, y: int, n: int) -> bool {
    x + n <= y || y + n <= x
}

proof fn lemma_byte_steps_len(d: Seq<u8>, kind: int, a: int, b: int, out: int, amount: u32, n: nat)
    requires
        in_range(out, n as int, d.len() as int),
    ensures
        byte_steps(d, kind, a, b, out, amount, n).len() == d.len(),
    decreases n,
{
    if n > 0 {
        lemma_byte_steps_len(d, kind, a, b, out, amount, (n - 1) as nat);
    }
}

/// When the output range overlaps neither input range, a bitwise operation on a range
/// writes each output byte from the input bytes as they were before, at the same offset and leaves
/// every other byte as it was.
pub proof fn lemma_byte_steps_disjoint(
    d: Seq<u8>,
    kind: int,
    a: int,
    b: int,
    out: int,
    amount: u32,
    n: nat,
)
    requires
        in_range(a, n as int, d.len() as int),
        in_range(b, n as int, d.len() as int),
        in_range(out, n as int, d.len() as int),
        disjoint(out, a, n as int),
        disjoint(out, b, n as int),
    ensures
        byte_steps(d, kind, a, b, out, amount, n).len() == d.len(),
        forall|k: int|
            0 <= k < n ==> #[trigger] byte_steps(d, kind, a, b, out, amount, n)[out + k] == byte_op(
                kind,
                d[a + k],
                d[b + k],
                amount,
            ),
        forall|p: int|
            0 <= p < d.len() && !(out <= p < out + n) ==> #[trigger] byte_steps(
                d,
                kind,
                a,
                b,
                out,
                amount,
                n,
            )[p] == d[p],
    decreases n,
{
    lemma_byte_steps_len(d, kind, a, b, out, amount, n);
    if n > 0 {
        let m = (n - 1) as nat;
        lemma_byte_steps_disjoint(d, kind, a, b, out, amount, m);
        let prev = byte_steps(d, kind, a, b, out, amount, m);
        assert(prev[a + m] == d[a + m]);
        assert(prev[b + m] == d[b + m]);
    }
}

impl Memory {
    /// Create a new, empty memory.
    pub fn new() -> (m: Memory)
        ensures
            m.data@ == Seq::<u8>::empty(),
    {
        Memory { data: Vec::new() }
    }

    /// Load a memory snapshot and drop the content from before.
    pub fn load(&mut self, vec: &mut Vec<u8>)
        ensures
            final(self).data@ == old(vec)@,
            final(vec)@ == old(vec)@,
    {
        self.data = vec.clone();
        assert(self.data@ =~= vec@);
    }

    /// Add a vector of bytes to the container; the vector is left empty.
    pub fn append(&mut self, vec: &mut Vec<u8>)
        ensures
            final(self).data@ == old(self).data@ + old(vec)@,
            final(vec)@ == Seq::<u8>::empty(),
    {
        self.data.append(vec);
    }

    /// Return the contents of the container.
    pub fn dump(&mut self) -> (r: Vec<u8>)
        ensures
            r@ == old(self).data@,
            final(self).data@ == old(self).data@,
    {
        let r = self.data.clone();
        assert(r@ =~= self.data@);
        r
    }

    /// The bytes from `range.start` up to `range.end`, if the range ends within the memory;
    /// a range that ends past the length is out of bounds.
    pub fn range(&self, range: std::ops::Range<usize>) -> (r: Result<&[u8], StrontiumError>)
        requires
            range.end <= self.data.len() ==> range.start <= range.end,
        ensures
            range.end <= self.data.len() ==> (r matches Ok(s) && s@ == self.data@.subrange(
                range.start as int,
                range.end as int,
            )),
            range.end > self.data.len() ==> r == Err::<&[u8], StrontiumError>(StrontiumError::OutOfBounds),
    {
        if range.end <= self.data.len() {
            Ok(vstd::slice::slice_subrange(self.data.as_slice(), range.start, range.end))
        } else {
            Err(StrontiumError::OutOfBounds)
        }
    }

    /// Set a byte to a given value.
    pub fn set(&mut self, address: usize, value: u8)
        requires
            address < old(self).data.len(),
        ensures
            final(self).data@ == old(self).data@.update(address as int, value),
    {
        self.data.set(address, value);
    }

    /// Set a range of bytes.
    pub fn set_range(&mut self, address: usize, values: Vec<u8>)
        requires
            address + values.len() <= old(self).data.len(),
        ensures
            final(self).data@ == old(self).data@.subrange(0, address as int) + values@
                + old(self).data@.subrange(address + values.len(), old(self).data.len() as int),
    {
        let mut k: usize = 0;
        while k < values.len()
            invariant
                k <= values.len(),
                address + values.len() <= old(self).data.len(),
                self.data.len() == old(self).data.len(),
                forall|p: int|
                    0 <= p < self.data.len() ==> #[trigger] self.data@[p] == if address <= p < address + k {
                        values@[p - address]
                    } else {
                        old(self).data@[p]
                    },
            decreases values.len() - k,
        {
            self.set(address + k, values[k]);
            k = k + 1;
        }
        assert(self.data@ =~= old(self).data@.subrange(0, address as int) + values@
            + old(self).data@.subrange(address + values.len(), old(self).data.len() as int));
    }

    /// Grow the container by `amount` zero bytes.
    pub fn grow(&mut self, amount: usize)
        ensures
            final(self).data@ == old(self).data@ + Seq::new(amount as nat, |i: int| 0u8),
    {
        let mut zeros: Vec<u8> = Vec::new();
        let mut k: usize = 0;
        while k < amount
            invariant
                k <= amount,
                zeros@ == Seq::new(k as nat, |i: int| 0u8),
            decreases amount - k,
        {
            zeros.push(0);
            k = k + 1;
            assert(zeros@ =~= Seq::new(k as nat, |i: int| 0u8));
        }
        self.data.append(&mut zeros);
    }

    /// Shrink the container by `amount` bytes; shrinking by more than its length is out
    /// of bounds and leaves it unchanged.
    pub fn shrink(&mut self, amount: usize) -> (r: Result<(), StrontiumError>)
        requires
            amount <= isize::MAX,
        ensures
            amount <= old(self).data.len() ==> r is Ok && final(self).data@ == old(self).data@.subrange(
                0,
                old(self).data.len() - amount,
            ),
            amount > old(self).data.len() ==> r == Err::<(), StrontiumError>(StrontiumError::OutOfBounds)
                && final(self).data@ == old(self).data@,
    {
        let length = self.data.len();
        if amount <= length {
            self.data.truncate(length - amount);
            Ok(())
        } else {
            Err(StrontiumError::OutOfBounds)
        }
    }
}

/// Whether a memory of `len` bytes can carry out `m` (otherwise the operation would index
/// out of bounds, or shift a byte by eight bits or more, and panic).
pub open spec fn can_compute(len: int, m: MemoryMethod) -> bool {
    match m {
        MemoryMethod::AND { a, b, out, len: n } => in_range(a as int, n as int, len) && in_range(
            b as int,
            n as int,
            len,
        ) && in_range(out as int, n as int, len),
        MemoryMethod::OR { a, b, out, len: n } => in_range(a as int, n as int, len) && in_range(
            b as int,
            n as int,
            len,
        ) && in_range(out as int, n as int, len),
        MemoryMethod::XOR { a, b, out, len: n } => in_range(a as int, n as int, len) && in_range(
            b as int,
            n as int,
            len,
        ) && in_range(out as int, n as int, len),
        MemoryMethod::NOT { a, out, len: n } => in_range(a as int, n as int, len) && in_range(
            out as int,
            n as int,
            len,
        ),
        MemoryMethod::LSH { a, out, amount, len: n } => amount < 8 && in_range(a as int, n as int, len)
            && in_range(out as int, n as int, len),
        MemoryMethod::RSH { a, out, amount, len: n } => amount < 8 && in_range(a as int, n as int, len)
            && in_range(out as int, n as int, len),
        MemoryMethod::GROW { .. } => true,
        MemoryMethod::SHRINK { amount } => amount as usize <= isize::MAX,
        MemoryMethod::SET { address, .. } => address < len,
        MemoryMethod::SET_RANGE { address, values } => address + values.len() <= len,
        MemoryMethod::UNSET { address } => address < len,
    }
}

/// The bytes after `m`, when it succeeds (only `SHRINK` by more than the length fails).
pub open spec fn compute_effect(d: Seq<u8>, m: MemoryMethod) -> Seq<u8> {
    match m {
        MemoryMethod::AND { a, b, out, len } => byte_steps(d, 0, a as int, b as int, out as int, 0, len as nat),
        MemoryMethod::OR { a, b, out, len } => byte_steps(d, 1, a as int, b as int, out as int, 0, len as nat),
        MemoryMethod::XOR { a, b, out, len } => byte_steps(d, 2, a as int, b as int, out as int, 0, len as nat),
        MemoryMethod::NOT { a, out, len } => byte_steps(d, 3, a as int, a as int, out as int, 0, len as nat),
        MemoryMethod::LSH { a, out, amount, len } => byte_steps(
            d,
            4,
            a as int,
            a as int,
            out as int,
            amount,
            len as nat,
        ),
        MemoryMethod::RSH { a, out, amount, len } => byte_steps(
            d,
            5,
            a as int,
            a as int,
            out as int,
            amount,
            len as nat,
        ),
        MemoryMethod::GROW { amount } => d + Seq::new((amount as usize) as nat, |i: int| 0u8),
        MemoryMethod::SHRINK { amount } => d.subrange(0, d.len() - (amount as usize)),
        MemoryMethod::SET { address, value } => d.update(address as int, value),
        MemoryMethod::SET_RANGE { address, values } => d.subrange(0, address as int) + values@ + d.subrange(
            address + values.len(),
            d.len() as int,
        ),
        MemoryMethod::UNSET { address } => d.update(address as int, 0u8),
    }
}

/// Whether `m` fails on bytes `d`: only shrinking by more than the length does.
pub open spec fn compute_fails(d: Seq<u8>, m: MemoryMethod) -> bool {
    m matches MemoryMethod::SHRINK { amount } && (amount as usize) > d.len()
}

impl Memory {
    /// Apply a bitwise operation to `n` offsets of the memory, one offset after the other.
    fn apply(&mut self, kind: u8, a: usize, b: usize, out: usize, amount: u32, n: usize)
        requires
            kind <= 5,
            kind >= 4 ==> amount < 8,
            in_range(a as int, n as int, old(self).data.len() as int),
            in_range(b as int, n as int, old(self).data.len() as int),
            in_range(out as int, n as int, old(self).data.len() as int),
        ensures
            final(self).data@ == byte_steps(old(self).data@, kind as int, a as int, b as int, out as int, amount, n as nat),
    {
        let mut offset: usize = 0;
        while offset < n
            invariant
                offset <= n,
                kind <= 5,
                kind >= 4 ==> amount < 8,
                self.data.len() == old(self).data.len(),
                in_range(a as int, n as int, old(self).data.len() as int),
                in_range(b as int, n as int, old(self).data.len() as int),
                in_range(out as int, n as int, old(self).data.len() as int),
                self.data@ == byte_steps(old(self).data@, kind as int, a as int, b as int, out as int, amount, offset as nat),
            decreases n - offset,
        {
            let x = self.data[a + offset];
            let y = self.data[b + offset];
            let v = if kind == 0 {
                x & y
            } else if kind == 1 {
                x | y
            } else if kind == 2 {
                x ^ y
            } else if kind == 3 {
                !x
            } else if kind == 4 {
                x << amount
            } else {
                x >> amount
            };
            self.data.set(out + offset, v);
            offset = offset + 1;
        }
    }

    /// Apply a bitwise operation on ranges of bytes, or grow, shrink or write the memory.
    pub fn compute(&mut self, method: MemoryMethod) -> (r: Result<(), StrontiumError>)
        requires
            can_compute(old(self).data.len() as int, method),
        ensures
            compute_fails(old(self).data@, method) ==> r == Err::<(), StrontiumError>(StrontiumError::OutOfBounds)
                && final(self).data@ == old(self).data@,
            !compute_fails(old(self).data@, method) ==> r is Ok && final(self).data@ == compute_effect(
                old(self).data@,
                method,
            ),
    {
        match method {
            MemoryMethod::AND { a, b, out, len } => {
                self.apply(0, a as usize, b as usize, out as usize, 0, len);
            },
            MemoryMethod::OR { a, b, out, len } => {
                self.apply(1, a as usize, b as usize, out as usize, 0, len);
            },
            MemoryMethod::XOR { a, b, out, len } => {
                self.apply(2, a as usize, b as usize, out as usize, 0, len);
            },
            MemoryMethod::NOT { a, out, len } => {
                self.apply(3, a as usize, a as usize, out as usize, 0, len);
            },
            MemoryMethod::LSH { a, out, amount, len } => {
                self.apply(4, a as usize, a as usize, out as usize, amount, len);
            },
            MemoryMethod::RSH { a, out, amount, len } => {
                self.apply(5, a as usize, a as usize, out as usize, amount, len);
            },
            MemoryMethod::GROW { amount } => self.grow(amount as usize),
            MemoryMethod::SHRINK { amount } => self.shrink(amount as usize)?,
            MemoryMethod::SET { address, value } => self.set(address as usize, value),
            MemoryMethod::SET_RANGE { address, values } => self.set_range(address as usize, values),
            MemoryMethod::UNSET { address } => self.set(address as usize, 0),
        }
        Ok(())
    }
}

} // verus!
