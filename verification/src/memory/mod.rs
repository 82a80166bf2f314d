//! A memory of single bits.
use vstd::prelude::*;

verus! {

/// A generic, very low-level structure for data and code storage: an array of bits.
pub struct Memory {
    pub data: Vec<bool>,
}

/// An address in the bit memory.
pub type Address = usize;

/// A range of bit addresses, given by its first and last address.
#[derive(Debug, Clone, PartialEq)]
pub struct Range(pub Address, pub Address);

/// The bit that a single-bit operation computes: 0 is AND, 1 OR, 2 XOR and 3 NOT of the
/// first operand.
pub open spec fn bit_op(kind: int, x: bool, y: bool) -> bool {
    if kind == 0 {
        x && y
    } else if kind == 1 {
        x || y
    } else if kind == 2 {
        x != y
    } else {
        !x
    }
}

/// Whether the operands of a single-bit operation lie in a memory of `len` bits (NOT has
/// no second operand).
pub open spec fn operands_in_bounds(kind: int, a: int, b: int, out: int, len: int) -> bool {
    &&& 0 <= a < len
    &&& (kind == 3 || 0 <= b < len)
    &&& 0 <= out < len
}

/// The bits after applying a single-bit operation to offsets `0 .. n` of three ranges, one
/// offset after the other, and whether every offset succeeded. The first offset at which an
/// operand lies out of bounds stops the run with a failure and leaves the later offsets
/// undone; each offset reads the bits as the earlier offsets left them.
pub open spec fn bit_steps(d: Seq<bool>, kind: int, a: int, b: int, out: int, n: nat) -> (Seq<bool>, bool)
    decreases n,
{
    if n == 0 {
        (d, true)
    } else {
        let (prev, ok) = bit_steps(d, kind, a, b, out, (n - 1) as nat);
        let k = n - 1;
        if !ok {
            (prev, false)
        } else if operands_in_bounds(kind, a + k, b + k, out + k, d.len() as int) {
            (prev.update(out + k, bit_op(kind, prev[a + k], prev[b + k])), true)
        } else {
            (prev, false)
        }
    }
}

/// The error text of operands out of bounds.
pub open spec fn out_of_bounds_text() -> Seq<char> {
    "Target out of bounds"@
}

/// The error text of shrinking below zero.
pub open spec fn shrink_text() -> Seq<char> {
    "Cannot shrink to a buffer size lower than zero"@
}

proof fn lemma_bit_steps_len(d: Seq<bool>, kind: int, a: int, b: int, out: int, n: nat)
    ensures
        bit_steps(d, kind, a, b, out, n).0.len() == d.len(),
    decreases n,
{
    if n > 0 {
        lemma_bit_steps_len(d, kind, a, b, out, (n - 1) as nat);
    }
}

/// When every operand of every offset lies in bounds and the output range overlaps
/// neither input range, a range operation succeeds, writes each output bit from the
/// input bits as they were before, at the same offset and leaves every other bit as it was.
pub proof fn lemma_bit_steps_disjoint(d: Seq<bool>, kind: int, a: int, b: int, out: int, n: nat)
    requires
        0 <= a && a + n <= d.len(),
        0 <= b && b + n <= d.len(),
        0 <= out && out + n <= d.len(),
        out + n <= a || a + n <= out,
        out + n <= b || b + n <= out,
    ensures
        bit_steps(d, kind, a, b, out, n).1,
        bit_steps(d, kind, a, b, out, n).0.len() == d.len(),
        forall|k: int|
            0 <= k < n ==> #[trigger] bit_steps(d, kind, a, b, out, n).0[out + k] == bit_op(
                kind,
                d[a + k],
                d[b + k],
            ),
        forall|p: int|
            0 <= p < d.len() && !(out <= p < out + n) ==> #[trigger] bit_steps(d, kind, a, b, out, n).0[p]
                == d[p],
    decreases n,
{
    lemma_bit_steps_len(d, kind, a, b, out, n);
    if n > 0 {
        let m = (n - 1) as nat;
        lemma_bit_steps_disjoint(d, kind, a, b, out, m);
        let prev = bit_steps(d, kind, a, b, out, m).0;
        assert(prev[a + m] == d[a + m]);
        assert(prev[b + m] == d[b + m]);
    }
}

/// The bits that a left shift by `by` writes from the range `[a0, a1)`: the bits after the
/// first `by`, then `by` cleared bits.
pub open spec fn lshift_bits(d: Seq<bool>, by: int, a0: int, a1: int) -> Seq<bool> {
    d.subrange(a0 + by, a1) + Seq::new(by as nat, |i: int| false)
}

/// The bits that an arithmetic right shift by `by` writes from the range `[a0, a1)`: `by`
/// copies of the first bit, then the range without its last `by` bits (or nothing of it
/// when it is shorter than `by`).
pub open spec fn rshift_bits(d: Seq<bool>, by: int, a0: int, a1: int) -> Seq<bool> {
    let n = a1 - a0;
    let kept = if by < n { n - by } else { 0 };
    Seq::new(by as nat, |i: int| d[a0]) + d.subrange(a0, a0 + kept)
}

/// Whether writing `n` bits from `out0`, stopping after `out1`, stays within `len` bits:
/// the last written position is the smaller of `out1` and `out0 + n - 1`.
pub open spec fn write_fits(out0: int, out1: int, n: int, len: int) -> bool {
    out0 > out1 || n == 0 || (if out1 < out0 + n - 1 {
        out1
    } else {
        out0 + n - 1
    }) < len
}

/// The memory after writing `bits` from `out0`, stopping after position `out1`.
pub open spec fn write_bits(d: Seq<bool>, bits: Seq<bool>, out0: int, out1: int) -> Seq<bool> {
    Seq::new(
        d.len(),
        |p: int|
            if out0 <= p && p <= out1 && p - out0 < bits.len() {
                bits[p - out0]
            } else {
                d[p]
            },
    )
}

impl Memory {
    /// Create a new memory instance.
    pub fn new() -> (m: Memory)
        ensures
            m.data@ == Seq::<bool>::empty(),
    {
        Memory { data: Vec::new() }
    }

    /// Load a memory snapshot and drop the content from before.
    pub fn load(&mut self, vec: &mut Vec<bool>)
        ensures
            final(self).data@ == old(vec)@,
            final(vec)@ == old(vec)@,
    {
        self.data = vec.clone();
        assert(self.data@ =~= vec@);
    }

    /// Add a vector of bits to the container; the vector is left empty.
    pub fn append(&mut self, vec: &mut Vec<bool>)
        ensures
            final(self).data@ == old(self).data@ + old(vec)@,
            final(vec)@ == Seq::<bool>::empty(),
    {
        self.data.append(vec);
    }

    /// Return the contents of the container.
    pub fn dump(&mut self) -> (r: Vec<bool>)
        ensures
            r@ == old(self).data@,
            final(self).data@ == old(self).data@,
    {
        let r = self.data.clone();
        assert(r@ =~= self.data@);
        r
    }

    /// Set the given bit to 1.
    pub fn set(&mut self, a: usize)
        requires
            a < old(self).data.len(),
        ensures
            final(self).data@ == old(self).data@.update(a as int, true),
    {
        self.data.set(a, true);
    }

    /// Set the given bit to 0.
    pub fn unset(&mut self, a: usize)
        requires
            a < old(self).data.len(),
        ensures
            final(self).data@ == old(self).data@.update(a as int, false),
    {
        self.data.set(a, false);
    }

    /// Grow the container by `amount` cleared bits.
    pub fn grow(&mut self, amount: usize)
        ensures
            final(self).data@ == old(self).data@ + Seq::new(amount as nat, |i: int| false),
    {
        let mut zeros: Vec<bool> = Vec::new();
        let mut k: usize = 0;
        while k < amount
            invariant
                k <= amount,
                zeros@ == Seq::new(k as nat, |i: int| false),
            decreases amount - k,
        {
            zeros.push(false);
            k = k + 1;
            assert(zeros@ =~= Seq::new(k as nat, |i: int| false));
        }
        self.data.append(&mut zeros);
    }

    /// Shrink the container by `amount` bits; shrinking by more than its length fails and
    /// leaves it unchanged.
    pub fn shrink(&mut self, amount: usize) -> (r: Result<(), &'static str>)
        requires
            amount <= isize::MAX,
        ensures
            amount <= old(self).data.len() ==> r is Ok && final(self).data@ == old(self).data@.subrange(
                0,
                old(self).data.len() - amount,
            ),
            amount > old(self).data.len() ==> (r matches Err(m) && m@ == shrink_text())
                && final(self).data@ == old(self).data@,
    {
        let length = self.data.len();
        if amount <= length {
            self.data.truncate(length - amount);
            Ok(())
        } else {
            proof {
                reveal_strlit("Cannot shrink to a buffer size lower than zero");
            }
            Err("Cannot shrink to a buffer size lower than zero")
        }
    }

    /// Checks if an address lies within the container.
    fn addr_in_bounds(&self, address: Address) -> (r: bool)
        ensures
            r == (address < self.data.len()),
    {
        address < self.data.len()
    }

    /// Whether the given bit is 1.
    pub fn is_set(&self, address: Address) -> (r: bool)
        requires
            address < self.data.len(),
        ensures
            r == self.data@[address as int],
    {
        self.data[address]
    }

    /// Whether the given bit is 0.
    pub fn is_unset(&self, address: Address) -> (r: bool)
        requires
            address < self.data.len(),
        ensures
            r == !self.data@[address as int],
    {
        !self.data[address]
    }

    /// Apply a single-bit operation, or fail when an operand lies out of bounds.
    fn single(&mut self, kind: u8, a: Address, b: Address, out: Address) -> (r: Result<(), &'static str>)
        requires
            kind <= 3,
        ensures
            operands_in_bounds(kind as int, a as int, b as int, out as int, old(self).data.len() as int) ==> (r
                is Ok && final(self).data@ == old(self).data@.update(
                out as int,
                bit_op(kind as int, old(self).data@[a as int], old(self).data@[b as int]),
            )),
            !operands_in_bounds(kind as int, a as int, b as int, out as int, old(self).data.len() as int) ==> (
            r matches Err(m) && m@ == out_of_bounds_text() && final(self).data@ == old(self).data@),
    {
        if self.addr_in_bounds(a) && (kind == 3 || self.addr_in_bounds(b)) && self.addr_in_bounds(out) {
            let x = self.data[a];
            let v = if kind == 0 {
                x && self.data[b]
            } else if kind == 1 {
                x || self.data[b]
            } else if kind == 2 {
                (x && !self.data[b]) || (!x && self.data[b])
            } else {
                !x
            };
            self.data.set(out, v);
            Ok(())
        } else {
            proof {
                reveal_strlit("Target out of bounds");
            }
            Err("Target out of bounds")
        }
    }

    /// Perform a bitwise AND operation on a single bit.
    pub fn single_and(&mut self, a: Address, b: Address, out: Address) -> (r: Result<(), &'static str>)
        ensures
            operands_in_bounds(0, a as int, b as int, out as int, old(self).data.len() as int) ==> (r is Ok
                && final(self).data@ == old(self).data@.update(
                out as int,
                old(self).data@[a as int] && old(self).data@[b as int],
            )),
            !operands_in_bounds(0, a as int, b as int, out as int, old(self).data.len() as int) ==> (r matches Err(
                m,
            ) && m@ == out_of_bounds_text() && final(self).data@ == old(self).data@),
    {
        self.single(0, a, b, out)
    }

    /// Perform a bitwise OR operation on a single bit.
    pub fn single_or(&mut self, a: Address, b: Address, out: Address) -> (r: Result<(), &'static str>)
        ensures
            operands_in_bounds(1, a as int, b as int, out as int, old(self).data.len() as int) ==> (r is Ok
                && final(self).data@ == old(self).data@.update(
                out as int,
                old(self).data@[a as int] || old(self).data@[b as int],
            )),
            !operands_in_bounds(1, a as int, b as int, out as int, old(self).data.len() as int) ==> (r matches Err(
                m,
            ) && m@ == out_of_bounds_text() && final(self).data@ == old(self).data@),
    {
        self.single(1, a, b, out)
    }

    /// Perform a bitwise exclusive OR operation on a single bit.
    pub fn single_xor(&mut self, a: Address, b: Address, out: Address) -> (r: Result<(), &'static str>)
        ensures
            operands_in_bounds(2, a as int, b as int, out as int, old(self).data.len() as int) ==> (r is Ok
                && final(self).data@ == old(self).data@.update(
                out as int,
                old(self).data@[a as int] != old(self).data@[b as int],
            )),
            !operands_in_bounds(2, a as int, b as int, out as int, old(self).data.len() as int) ==> (r matches Err(
                m,
            ) && m@ == out_of_bounds_text() && final(self).data@ == old(self).data@),
    {
        self.single(2, a, b, out)
    }

    /// Perform a bitwise negation on a single bit.
    pub fn single_not(&mut self, a: Address, out: Address) -> (r: Result<(), &'static str>)
        ensures
            operands_in_bounds(3, a as int, a as int, out as int, old(self).data.len() as int) ==> (r is Ok
                && final(self).data@ == old(self).data@.update(out as int, !old(self).data@[a as int])),
            !operands_in_bounds(3, a as int, a as int, out as int, old(self).data.len() as int) ==> (r matches Err(
                m,
            ) && m@ == out_of_bounds_text() && final(self).data@ == old(self).data@),
    {
        self.single(3, a, a, out)
    }
}

/// Whether three range ends lie in a memory of `len` bits.
pub open spec fn ends_in_bounds(x: Range, y: Range, z: Range, len: int) -> bool {
    x.1 < len && y.1 < len && z.1 < len
}

impl Memory {
    /// Apply a single-bit operation to `n` offsets of three ranges, one offset after the
    /// other, stopping at the first offset with an operand out of bounds.
    fn run(&mut self, kind: u8, a: Address, b: Address, out: Address, n: usize) -> (r: Result<(), &'static str>)
        requires
            kind <= 3,
        ensures
            final(self).data@ == bit_steps(old(self).data@, kind as int, a as int, b as int, out as int, n as nat).0,
            r is Ok <==> bit_steps(old(self).data@, kind as int, a as int, b as int, out as int, n as nat).1,
            r matches Err(m) ==> m@ == out_of_bounds_text(),
    {
        let ghost d = self.data@;
        let mut offset: usize = 0;
        while offset < n
            invariant
                offset <= n,
                kind <= 3,
                d == old(self).data@,
                self.data.len() == d.len(),
                bit_steps(d, kind as int, a as int, b as int, out as int, offset as nat) == (self.data@, true),
                offset > 0 ==> a + offset <= d.len() && out + offset <= d.len() && (kind == 3 || b + offset
                    <= d.len()),
            decreases n - offset,
        {
            let bb = if kind == 3 { a + offset } else { b + offset };
            let r = self.single(kind, a + offset, bb, out + offset);
            proof {
                lemma_bit_steps_len(d, kind as int, a as int, b as int, out as int, offset as nat);
            }
            if r.is_err() {
                proof {
                    let k = offset as int;
                    assert(bit_steps(d, kind as int, a as int, b as int, out as int, (offset + 1) as nat) == (
                    self.data@, false));
                    lemma_bit_steps_stop(d, kind as int, a as int, b as int, out as int, (offset + 1) as nat, n as nat);
                }
                return r;
            }
            offset = offset + 1;
        }
        Ok(())
    }
}

/// Once a run of a range operation has failed, running it further changes nothing.
proof fn lemma_bit_steps_stop(d: Seq<bool>, kind: int, a: int, b: int, out: int, m: nat, n: nat)
    requires
        m <= n,
        !bit_steps(d, kind, a, b, out, m).1,
    ensures
        bit_steps(d, kind, a, b, out, n) == bit_steps(d, kind, a, b, out, m),
    decreases n - m,
{
    if m < n {
        lemma_bit_steps_stop(d, kind, a, b, out, m, (n - 1) as nat);
    }
}

impl Memory {
    /// Perform a bitwise AND on the bits of two ranges, for as many offsets as the first
    /// range's last address exceeds its first.
    pub fn range_and(&mut self, a: Range, b: Range, out: Range) -> (r: Result<(), &'static str>)
        requires
            ends_in_bounds(a, b, out, old(self).data.len() as int) ==> a.0 <= a.1,
        ensures
            ends_in_bounds(a, b, out, old(self).data.len() as int) ==> {
                let (bits, ok) = bit_steps(old(self).data@, 0, a.0 as int, b.0 as int, out.0 as int, (a.1 - a.0) as nat);
                &&& final(self).data@ == bits
                &&& (r is Ok <==> ok)
                &&& (r matches Err(m) ==> m@ == out_of_bounds_text())
            },
            !(ends_in_bounds(a, b, out, old(self).data.len() as int)) ==> (r matches Err(m) && m@ == out_of_bounds_text() && final(self).data@ == old(self).data@),
    {
        if self.addr_in_bounds(a.1) && self.addr_in_bounds(b.1) && self.addr_in_bounds(out.1) {
            let iterations = a.1 - a.0;
            self.run(0, a.0, b.0, out.0, iterations)
        } else {
            proof {
                reveal_strlit("Target out of bounds");
            }
            Err("Target out of bounds")
        }
    }

    /// Perform a bitwise OR on the bits of two ranges, for every address of the first range.
    pub fn range_or(&mut self, a: Range, b: Range, out: Range) -> (r: Result<(), &'static str>)
        requires
            ends_in_bounds(a, b, out, old(self).data.len() as int) ==> a.0 <= a.1,
        ensures
            ends_in_bounds(a, b, out, old(self).data.len() as int) ==> {
                let (bits, ok) = bit_steps(old(self).data@, 1, a.0 as int, b.0 as int, out.0 as int, (a.1 - a.0 + 1) as nat);
                &&& final(self).data@ == bits
                &&& (r is Ok <==> ok)
                &&& (r matches Err(m) ==> m@ == out_of_bounds_text())
            },
            !(ends_in_bounds(a, b, out, old(self).data.len() as int)) ==> (r matches Err(m) && m@ == out_of_bounds_text() && final(self).data@ == old(self).data@),
    {
        if self.addr_in_bounds(a.1) && self.addr_in_bounds(b.1) && self.addr_in_bounds(out.1) {
            let iterations = (a.1 - a.0) + 1;
            self.run(1, a.0, b.0, out.0, iterations)
        } else {
            proof {
                reveal_strlit("Target out of bounds");
            }
            Err("Target out of bounds")
        }
    }

    /// Perform a bitwise exclusive OR on the bits of two ranges, for every address of the
    /// first range.
    pub fn range_xor(&mut self, a: Range, b: Range, out: Range) -> (r: Result<(), &'static str>)
        requires
            ends_in_bounds(a, b, out, old(self).data.len() as int) ==> a.0 <= a.1,
        ensures
            ends_in_bounds(a, b, out, old(self).data.len() as int) ==> {
                let (bits, ok) = bit_steps(old(self).data@, 2, a.0 as int, b.0 as int, out.0 as int, (a.1 - a.0 + 1) as nat);
                &&& final(self).data@ == bits
                &&& (r is Ok <==> ok)
                &&& (r matches Err(m) ==> m@ == out_of_bounds_text())
            },
            !(ends_in_bounds(a, b, out, old(self).data.len() as int)) ==> (r matches Err(m) && m@ == out_of_bounds_text() && final(self).data@ == old(self).data@),
    {
        if self.addr_in_bounds(a.1) && self.addr_in_bounds(b.1) && self.addr_in_bounds(out.1) {
            let iterations = (a.1 - a.0) + 1;
            self.run(2, a.0, b.0, out.0, iterations)
        } else {
            proof {
                reveal_strlit("Target out of bounds");
            }
            Err("Target out of bounds")
        }
    }

    /// Perform a bitwise negation on every bit of a range.
    pub fn range_not(&mut self, a: Range, out: Range) -> (r: Result<(), &'static str>)
        requires
            ends_in_bounds(a, a, out, old(self).data.len() as int) ==> a.0 <= a.1,
        ensures
            ends_in_bounds(a, a, out, old(self).data.len() as int) ==> {
                let (bits, ok) = bit_steps(old(self).data@, 3, a.0 as int, a.0 as int, out.0 as int, (a.1 - a.0 + 1) as nat);
                &&& final(self).data@ == bits
                &&& (r is Ok <==> ok)
                &&& (r matches Err(m) ==> m@ == out_of_bounds_text())
            },
            !(ends_in_bounds(a, a, out, old(self).data.len() as int)) ==> (r matches Err(m) && m@ == out_of_bounds_text() && final(self).data@ == old(self).data@),
    {
        if self.addr_in_bounds(a.1) && self.addr_in_bounds(out.1) {
            let iterations = (a.1 - a.0) + 1;
            self.run(3, a.0, a.0, out.0, iterations)
        } else {
            proof {
                reveal_strlit("Target out of bounds");
            }
            Err("Target out of bounds")
        }
    }

    /// Write `bits` from `out.0`, stopping after `out.1`.
    fn write_from(&mut self, bits: &Vec<bool>, out: Range)
        requires
            write_fits(out.0 as int, out.1 as int, bits.len() as int, old(self).data.len() as int),
        ensures
            final(self).data@ == write_bits(old(self).data@, bits@, out.0 as int, out.1 as int),
    {
        let mut i: usize = 0;
        while i < bits.len() && out.0 <= out.1 && i <= out.1 - out.0
            invariant
                i <= bits.len(),
                self.data.len() == old(self).data.len(),
                write_fits(out.0 as int, out.1 as int, bits.len() as int, old(self).data.len() as int),
                forall|p: int|
                    0 <= p < self.data.len() ==> #[trigger] self.data@[p] == if out.0 <= p && p <= out.1 && p
                        - out.0 < i {
                        bits@[p - out.0]
                    } else {
                        old(self).data@[p]
                    },
            decreases bits.len() - i,
        {
            self.data.set(out.0 + i, bits[i]);
            i = i + 1;
        }
        assert(self.data@ =~= write_bits(old(self).data@, bits@, out.0 as int, out.1 as int));
    }

    /// Left-shift the bits of range `[a.0, a.1)` by `by` and write the result from `out.0`,
    /// stopping after `out.1`; fails when `a.1` or `out.1` lies out of bounds.
    pub fn lshift(&mut self, by: usize, a: Range, out: Range) -> (r: Result<(), &'static str>)
        requires
            a.1 < old(self).data.len() && out.1 < old(self).data.len() ==> a.0 <= a.1 && by <= a.1 - a.0,
        ensures
            a.1 < old(self).data.len() && out.1 < old(self).data.len() ==> r is Ok && final(self).data@
                == write_bits(
                old(self).data@,
                lshift_bits(old(self).data@, by as int, a.0 as int, a.1 as int),
                out.0 as int,
                out.1 as int,
            ),
            !(a.1 < old(self).data.len() && out.1 < old(self).data.len()) ==> (r matches Err(m) && m@
                == out_of_bounds_text() && final(self).data@ == old(self).data@),
    {
        if self.addr_in_bounds(a.1) && self.addr_in_bounds(out.1) {
            let ghost d = self.data@;
            let mut bits: Vec<bool> = vstd::slice::slice_to_vec(vstd::slice::slice_subrange(self.data.as_slice(), a.0, a.1));
            let mut k: usize = 0;
            while k < by
                invariant
                    k <= by,
                    a.0 <= a.1,
                    a.1 < d.len(),
                    by <= a.1 - a.0,
                    bits@ == d.subrange(a.0 + k, a.1 as int),
                decreases by - k,
            {
                bits.remove(0);
                k = k + 1;
            }
            let mut k: usize = 0;
            while k < by
                invariant
                    k <= by,
                    a.0 <= a.1,
                    a.1 < d.len(),
                    by <= a.1 - a.0,
                    bits@ == d.subrange(a.0 + by, a.1 as int) + Seq::new(k as nat, |i: int| false),
                decreases by - k,
            {
                bits.push(false);
                k = k + 1;
                assert(bits@ =~= d.subrange(a.0 + by, a.1 as int) + Seq::new(k as nat, |i: int| false));
            }
            self.write_from(&bits, out);
            Ok(())
        } else {
            proof {
                reveal_strlit("Target out of bounds");
            }
            Err("Target out of bounds")
        }
    }

    /// Perform an arithmetic (sign-preserving) right shift of the bits of range `[a.0, a.1)`
    /// by `by` and write the result from `out.0`, stopping after `out.1`.
    pub fn rshift(&mut self, by: usize, a: Range, out: Range)
        requires
            a.0 < a.1 <= old(self).data.len(),
            write_fits(
                out.0 as int,
                out.1 as int,
                rshift_bits(old(self).data@, by as int, a.0 as int, a.1 as int).len() as int,
                old(self).data.len() as int,
            ),
        ensures
            final(self).data@ == write_bits(
                old(self).data@,
                rshift_bits(old(self).data@, by as int, a.0 as int, a.1 as int),
                out.0 as int,
                out.1 as int,
            ),
    {
        let ghost d = self.data@;
        let mut bits: Vec<bool> = vstd::slice::slice_to_vec(vstd::slice::slice_subrange(self.data.as_slice(), a.0, a.1));
        let sign_bit = bits[0];
        let ghost n = (a.1 - a.0) as int;
        let mut k: usize = 0;
        while k < by
            invariant
                k <= by,
                a.0 < a.1 <= d.len(),
                n == a.1 - a.0,
                sign_bit == d[a.0 as int],
                bits@ == d.subrange(a.0 as int, a.0 + (if k < n { n - k } else { 0 })),
            decreases by - k,
        {
            bits.pop();
            k = k + 1;
        }
        let ghost kept = bits@;
        let mut k: usize = 0;
        while k < by
            invariant
                k <= by,
                bits@ == Seq::new(k as nat, |i: int| sign_bit) + kept,
            decreases by - k,
        {
            bits.insert(0, sign_bit);
            k = k + 1;
            assert(bits@ =~= Seq::new(k as nat, |i: int| sign_bit) + kept);
        }
        assert(bits@ =~= rshift_bits(d, by as int, a.0 as int, a.1 as int));
        self.write_from(&bits, out);
    }
}

} // verus!
