//! Bits of a codestream, least significant bit of each byte first.

use vstd::arithmetic::power2::{lemma_pow2_pos, lemma_pow2_strictly_increases, lemma_pow2_unfold, pow2};
use vstd::prelude::*;

verus! {

/// Why bits could not be read.
#[derive(Clone, Copy, Debug, PartialEq, Eq, Structural)]
pub enum BitError {
    UnexpectedEndOfBits,
}

/// Bits of `data`.
pub open spec fn bit_count(data: Seq<u8>) -> int {
    data.len() as int * 8
}

/// Bit `i` of `data`.
pub open spec fn bit_at(data: Seq<u8>, i: int) -> int {
    (data[i / 8] as int / pow2((i % 8) as nat) as int) % 2
}

/// The number that the `n` bits from `at` on spell, the first one least significant.
pub open spec fn bits_value(data: Seq<u8>, at: int, n: int) -> int
    decreases n,
{
    if n <= 0 {
        0
    } else {
        bits_value(data, at, n - 1) + bit_at(data, at + n - 1) * pow2((n - 1) as nat)
    }
}

/// `n` bits spell a number below the `n`th power of two.
pub proof fn lemma_bits_bound(data: Seq<u8>, at: int, n: int)
    requires
        0 <= n,
    ensures
        0 <= bits_value(data, at, n) < pow2(n as nat),
    decreases n,
{
    if n > 0 {
        lemma_bits_bound(data, at, n - 1);
        lemma_pow2_unfold(n as nat);
        let bit = bit_at(data, at + n - 1);
        let weight = pow2((n - 1) as nat);
        assert(bit == 0 || bit == 1);
        assert(bit * weight == 0 || bit * weight == weight) by (nonlinear_arith)
            requires
                bit == 0 || bit == 1,
        ;
    } else {
        vstd::arithmetic::power2::lemma2_to64();
    }
}

/// A position in a byte sequence, in bits.
#[derive(Clone, Copy, Debug)]
pub struct BitReader<'a> {
    pub data: &'a [u8],
    pub offset: u64,
}

/// Bit `place` of a byte.
fn byte_bit(byte: u8, place: u8) -> (bit: u8)
    requires
        place < 8,
    ensures
        bit == (byte as int / pow2(place as nat) as int) % 2,
{
    proof {
        vstd::arithmetic::power2::lemma2_to64();
    }
    match place {
        0 => byte % 2,
        1 => byte / 2 % 2,
        2 => byte / 4 % 2,
        3 => byte / 8 % 2,
        4 => byte / 16 % 2,
        5 => byte / 32 % 2,
        6 => byte / 64 % 2,
        _ => byte / 128 % 2,
    }
}

impl<'a> BitReader<'a> {
    /// The data are addressed by machine words and the position is inside them.
    pub open spec fn wf(&self) -> bool {
        &&& bit_count(self.data@) <= u64::MAX
        &&& self.offset <= bit_count(self.data@)
    }

    /// At the first bit of `data`.
    pub fn new(data: &'a [u8]) -> (reader: Self)
        requires
            data@.len() * 8 <= u64::MAX,
        ensures
            reader.wf(),
            reader.data == data,
            reader.offset == 0,
    {
        BitReader { data, offset: 0 }
    }

    /// Bits in front of the position.
    pub fn bit_offset(&self) -> (offset: u64)
        ensures
            offset == self.offset,
    {
        self.offset
    }

    /// Moves the position by `n` bits, or leaves it where that many are not there.
    pub fn skip_bits(&mut self, n: u64) -> (r: Result<(), BitError>)
        requires
            old(self).wf(),
        ensures
            final(self).wf(),
            final(self).data == old(self).data,
            if old(self).offset + n <= bit_count(old(self).data@) {
                r is Ok && final(self).offset == old(self).offset + n
            } else {
                r == Err::<(), BitError>(BitError::UnexpectedEndOfBits) && final(self).offset
                    == old(self).offset
            },
    {
        let left: u64 = self.data.len() as u64 * 8 - self.offset;
        if n > left {
            return Err(BitError::UnexpectedEndOfBits);
        }
        self.offset = self.offset + n;
        Ok(())
    }

    /// Moves the position to the next byte, unless it is at one. Whole bytes always hold the bits
    /// in between.
    pub fn align_to_byte(&mut self) -> (r: Result<(), BitError>)
        requires
            old(self).wf(),
        ensures
            final(self).wf(),
            final(self).data == old(self).data,
            r is Ok,
            final(self).offset % 8 == 0,
            old(self).offset <= final(self).offset < old(self).offset + 8,
    {
        let over: u64 = self.offset % 8;
        if over == 0 {
            return Ok(());
        }
        self.skip_bits(8 - over)
    }

    /// Reads `n` bits, or leaves the position where that many are not there.
    pub fn read_bits(&mut self, n: u32) -> (r: Result<u64, BitError>)
        requires
            old(self).wf(),
            n <= 32,
        ensures
            final(self).wf(),
            final(self).data == old(self).data,
            if old(self).offset + n <= bit_count(old(self).data@) {
                r matches Ok(value) && value == bits_value(
                    old(self).data@,
                    old(self).offset as int,
                    n as int,
                ) && final(self).offset == old(self).offset + n
            } else {
                r == Err::<u64, BitError>(BitError::UnexpectedEndOfBits) && final(self).offset
                    == old(self).offset
            },
    {
        let left: u64 = self.data.len() as u64 * 8 - self.offset;
        if n as u64 > left {
            return Err(BitError::UnexpectedEndOfBits);
        }
        let start: u64 = self.offset;
        let mut value: u64 = 0;
        let mut weight: u64 = 1;
        let mut k: u32 = 0;
        proof {
            vstd::arithmetic::power2::lemma2_to64();
        }
        while k < n
            invariant
                self.wf(),
                *self == *old(self),
                start == self.offset,
                k <= n <= 32,
                start + n <= bit_count(self.data@),
                weight == pow2(k as nat),
                value == bits_value(self.data@, start as int, k as int),
                value < pow2(k as nat),
            decreases n - k,
        {
            proof {
                lemma_pow2_unfold((k + 1) as nat);
                lemma_pow2_pos(k as nat);
                vstd::arithmetic::power2::lemma2_to64();
                if k < 32 {
                    lemma_pow2_strictly_increases(k as nat, 32);
                }
                if k + 1 < 33 {
                    lemma_pow2_strictly_increases((k + 1) as nat, 33);
                }
                lemma_bits_bound(self.data@, start as int, k + 1);
            }
            let at: u64 = start + k as u64;
            let bit: u8 = byte_bit(self.data[(at / 8) as usize], (at % 8) as u8);
            assert(bit == bit_at(self.data@, at as int));
            assert(bit * weight == 0 || bit * weight == weight) by (nonlinear_arith)
                requires
                    bit == 0 || bit == 1,
            ;
            value = value + bit as u64 * weight;
            weight = weight * 2;
            k = k + 1;
        }
        self.offset = start + n as u64;
        Ok(value)
    }

    /// Reads `n` bits that all lie in front of bit `end`, or leaves the position.
    pub fn read_bounded(&mut self, n: u32, end: u64) -> (r: Result<u64, BitError>)
        requires
            old(self).wf(),
            n <= 32,
        ensures
            final(self).wf(),
            final(self).data == old(self).data,
            if old(self).offset + n <= bit_count(old(self).data@) && old(self).offset + n <= end {
                r matches Ok(value) && value == bits_value(
                    old(self).data@,
                    old(self).offset as int,
                    n as int,
                ) && final(self).offset == old(self).offset + n
            } else {
                r == Err::<u64, BitError>(BitError::UnexpectedEndOfBits) && final(self).offset
                    == old(self).offset
            },
    {
        if self.offset > end || n as u64 > end - self.offset {
            return Err(BitError::UnexpectedEndOfBits);
        }
        self.read_bits(n)
    }
}

/// All bits of `from..to` are zero.
pub open spec fn zero_bits(data: Seq<u8>, from: int, to: int) -> bool {
    forall|i: int| from <= i < to ==> #[trigger] bit_at(data, i) == 0
}

/// Whether all bits of `from..to` are there and zero.
pub fn bits_are_zero(data: &[u8], from: u64, to: u64) -> (r: Result<bool, BitError>)
    requires
        data@.len() * 8 <= u64::MAX,
    ensures
        if from <= to && to > bit_count(data@) {
            r == Err::<bool, BitError>(BitError::UnexpectedEndOfBits)
        } else {
            r matches Ok(zero) && zero == zero_bits(data@, from as int, to as int)
        },
{
    if from > to {
        return Ok(true);
    }
    if to > data.len() as u64 * 8 {
        return Err(BitError::UnexpectedEndOfBits);
    }
    let mut i: u64 = from;
    while i < to
        invariant
            from <= i <= to,
            to <= bit_count(data@),
            data@.len() * 8 <= u64::MAX,
            zero_bits(data@, from as int, i as int),
        decreases to - i,
    {
        let bit: u8 = byte_bit(data[(i / 8) as usize], (i % 8) as u8);
        assert(bit == bit_at(data@, i as int));
        if bit != 0 {
            return Ok(false);
        }
        i = i + 1;
    }
    Ok(true)
}

/// A byte is the sum of its bits, each at its weight.
proof fn lemma_byte_digits(b: u8)
    ensures
        b == b as int % 2 + b as int / 2 % 2 * 2 + b as int / 4 % 2 * 4 + b as int / 8 % 2 * 8
            + b as int / 16 % 2 * 16 + b as int / 32 % 2 * 32 + b as int / 64 % 2 * 64 + b as int
            / 128 % 2 * 128,
{
    let x = b as int;
    let (x1, x2, x3, x4, x5, x6, x7) = (
        x / 2,
        x / 4,
        x / 8,
        x / 16,
        x / 32,
        x / 64,
        x / 128,
    );
    assert(x2 == x1 / 2 && x3 == x2 / 2 && x4 == x3 / 2 && x5 == x4 / 2 && x6 == x5 / 2 && x7 == x6
        / 2 && x7 / 2 == 0);
}

/// Eight bits from the start of a byte on spell that byte.
pub proof fn law_bits_spell_bytes(data: Seq<u8>, k: int)
    requires
        0 <= k < data.len(),
    ensures
        bits_value(data, 8 * k, 8) == data[k],
{
    vstd::arithmetic::power2::lemma2_to64();
    let byte = data[k] as int;
    let at = 8 * k;
    assert((at + 0) / 8 == k && (at + 0) % 8 == 0);
    assert(bit_at(data, at + 0) == byte / 1 % 2);
    assert((at + 1) / 8 == k && (at + 1) % 8 == 1);
    assert(bit_at(data, at + 1) == byte / 2 % 2);
    assert((at + 2) / 8 == k && (at + 2) % 8 == 2);
    assert(bit_at(data, at + 2) == byte / 4 % 2);
    assert((at + 3) / 8 == k && (at + 3) % 8 == 3);
    assert(bit_at(data, at + 3) == byte / 8 % 2);
    assert((at + 4) / 8 == k && (at + 4) % 8 == 4);
    assert(bit_at(data, at + 4) == byte / 16 % 2);
    assert((at + 5) / 8 == k && (at + 5) % 8 == 5);
    assert(bit_at(data, at + 5) == byte / 32 % 2);
    assert((at + 6) / 8 == k && (at + 6) % 8 == 6);
    assert(bit_at(data, at + 6) == byte / 64 % 2);
    assert((at + 7) / 8 == k && (at + 7) % 8 == 7);
    assert(bit_at(data, at + 7) == byte / 128 % 2);
    lemma_byte_digits(data[k]);
    assert(bits_value(data, at, 0) == 0);
    assert(bits_value(data, at, 1) == bits_value(data, at, 0) + byte / 1 % 2 * 1);
    assert(bits_value(data, at, 2) == bits_value(data, at, 1) + byte / 2 % 2 * 2);
    assert(bits_value(data, at, 3) == bits_value(data, at, 2) + byte / 4 % 2 * 4);
    assert(bits_value(data, at, 4) == bits_value(data, at, 3) + byte / 8 % 2 * 8);
    assert(bits_value(data, at, 5) == bits_value(data, at, 4) + byte / 16 % 2 * 16);
    assert(bits_value(data, at, 6) == bits_value(data, at, 5) + byte / 32 % 2 * 32);
    assert(bits_value(data, at, 7) == bits_value(data, at, 6) + byte / 64 % 2 * 64);
    assert(bits_value(data, at, 8) == bits_value(data, at, 7) + byte / 128 % 2 * 128);
}

/// The numbers of two runs of bits, one behind the other, make up the number of both: the second one
/// counts above the first.
pub proof fn law_bits_join(data: Seq<u8>, at: int, n: int, m: int)
    requires
        0 <= n,
        0 <= m,
    ensures
        bits_value(data, at, n + m) == bits_value(data, at, n) + pow2(n as nat) * bits_value(
            data,
            at + n,
            m,
        ),
    decreases m,
{
    if m > 0 {
        law_bits_join(data, at, n, m - 1);
        vstd::arithmetic::power2::lemma_pow2_adds(n as nat, (m - 1) as nat);
        let bit = bit_at(data, at + n + m - 1);
        let low = bits_value(data, at + n, m - 1);
        let (p, q) = (pow2(n as nat) as int, pow2((m - 1) as nat) as int);
        assert(p * (low + bit * q) == p * low + bit * (p * q)) by (nonlinear_arith);
    } else {
        assert(pow2(n as nat) * 0 == 0) by (nonlinear_arith);
    }
}

} // verus!
