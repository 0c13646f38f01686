//! A most-significant-bit-first reader over a byte buffer.
//!
//! Compressed audio blocks store their header fields and delta codes as a
//! plain bit stream: bits are taken from each byte starting at its most
//! significant bit, independent of any byte ordering used elsewhere.

use vstd::prelude::*;
use vstd::arithmetic::div_mod::lemma_fundamental_div_mod_converse;

verus! {

/// 2^k as a mathematical integer.
pub open spec fn two_pow(k: nat) -> nat
    decreases k,
{
    if k == 0 {
        1
    } else {
        2 * two_pow((k - 1) as nat)
    }
}

pub proof fn lemma_two_pow_monotonic(a: nat, b: nat)
    requires
        a <= b,
    ensures
        two_pow(a) <= two_pow(b),
    decreases b,
{
    if a < b {
        lemma_two_pow_monotonic(a, (b - 1) as nat);
    }
}

/// Bit `i` of a byte buffer, counting from the most significant bit of
/// byte 0; either 0 or 1.
pub open spec fn bit_at(data: Seq<u8>, i: int) -> nat
    recommends
        0 <= i < data.len() * 8,
{
    ((data[i / 8] as nat) / two_pow((7 - i % 8) as nat)) % 2
}

/// The value of the `n` bits starting at bit position `pos`, read most
/// significant bit first.
pub open spec fn bits_at(data: Seq<u8>, pos: int, n: nat) -> nat
    decreases n,
{
    if n == 0 {
        0
    } else {
        bits_at(data, pos, (n - 1) as nat) * 2 + bit_at(data, pos + n - 1)
    }
}

pub proof fn lemma_bits_at_bound(data: Seq<u8>, pos: int, n: nat)
    ensures
        bits_at(data, pos, n) < two_pow(n),
    decreases n,
{
    if n > 0 {
        lemma_bits_at_bound(data, pos, (n - 1) as nat);
    }
}

/// 2^k for k up to 7, as a byte.
fn byte_pow2(k: u8) -> (r: u8)
    requires
        k <= 7,
    ensures
        r as nat == two_pow(k as nat),
        r >= 1,
{
    proof {
        reveal_with_fuel(two_pow, 9);
    }
    if k == 0 {
        1
    } else if k == 1 {
        2
    } else if k == 2 {
        4
    } else if k == 3 {
        8
    } else if k == 4 {
        16
    } else if k == 5 {
        32
    } else if k == 6 {
        64
    } else {
        128
    }
}

/// A cursor over the bits of a byte buffer, most significant bit of each
/// byte first.
pub struct BitReader<'a> {
    data: &'a [u8],
    byte: usize,
    bit: u8,
}

impl<'a> BitReader<'a> {
    /// The bytes this reader walks.
    pub closed spec fn bytes(self) -> Seq<u8> {
        self.data@
    }

    /// The position of the next unread bit.
    pub closed spec fn pos(self) -> int {
        8 * self.byte + self.bit
    }

    pub closed spec fn wf(self) -> bool {
        &&& self.bit < 8
        &&& self.byte <= self.data@.len()
        &&& self.byte == self.data@.len() ==> self.bit == 0
    }

    pub fn new(data: &'a [u8]) -> (r: BitReader<'a>)
        ensures
            r.wf(),
            r.bytes() == data@,
            r.pos() == 0,
    {
        BitReader { data, byte: 0, bit: 0 }
    }

    /// Whether at least `n` bits remain before the end of the buffer.
    pub fn has(&self, n: u64) -> (r: bool)
        requires
            self.wf(),
        ensures
            r <==> self.pos() + n <= 8 * self.bytes().len(),
    {
        let whole: u128 = 8 * ((self.data.len() - self.byte) as u128);
        (n as u128) <= whole - (self.bit as u128)
    }

    /// Read the next `n` bits as an unsigned value, most significant bit
    /// first, and advance past them.
    pub fn read(&mut self, n: u8) -> (r: u16)
        requires
            old(self).wf(),
            n <= 16,
            old(self).pos() + n <= 8 * old(self).bytes().len(),
        ensures
            final(self).wf(),
            final(self).bytes() == old(self).bytes(),
            final(self).pos() == old(self).pos() + n,
            r as nat == bits_at(old(self).bytes(), old(self).pos(), n as nat),
    {
        let ghost start = old(self).pos();
        let ghost data = old(self).bytes();
        let mut acc: u16 = 0;
        let mut k: u8 = 0;
        proof {
            reveal_with_fuel(two_pow, 18);
        }
        while k < n
            invariant
                k <= n,
                n <= 16,
                self.wf(),
                self.bytes() == data,
                self.pos() == start + k,
                start + n <= 8 * data.len(),
                acc as nat == bits_at(data, start, k as nat),
                (acc as nat) < two_pow(k as nat),
                two_pow(16) == 0x10000,
            decreases n - k,
        {
            proof {
                lemma_two_pow_monotonic((k + 1) as nat, 16);
                lemma_fundamental_div_mod_converse(
                    8 * self.byte + self.bit,
                    8,
                    self.byte as int,
                    self.bit as int,
                );
            }
            let b: u8 = (self.data[self.byte] / byte_pow2(7 - self.bit)) % 2;
            assert(b as nat == bit_at(data, start + k));
            acc = acc * 2 + (b as u16);
            if self.bit == 7 {
                self.bit = 0;
                self.byte = self.byte + 1;
            } else {
                self.bit = self.bit + 1;
            }
            k = k + 1;
        }
        acc
    }
}

} // verus!
