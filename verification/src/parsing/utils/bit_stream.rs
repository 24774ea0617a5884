use vstd::prelude::*;
use crate::errors::Error;
use super::box_stream::BoxStream;
use vstd::arithmetic::div_mod::{lemma_fundamental_div_mod, lemma_mod_multiples_vanish};

verus! {

/// `2^k` for the bit positions of a byte.
pub open spec fn pow2_8(k: int) -> int
    decreases k,
{
    if k <= 0 {
        1
    } else {
        2 * pow2_8(k - 1)
    }
}

/// Bit `g` of `s`, counting from the most significant bit of `s[0]`.
pub open spec fn bit_at(s: Seq<u8>, g: int) -> int {
    (s[g / 8] as int / pow2_8(7 - g % 8)) % 2
}

/// The `n` bits of `s` from bit `g` on, most significant first, as a number.
pub open spec fn bits_value(s: Seq<u8>, g: int, n: nat) -> nat
    decreases n,
{
    if n == 0 {
        0
    } else {
        bits_value(s, g, (n - 1) as nat) * 2 + bit_at(s, g + n - 1) as nat
    }
}

/// `ceil(b / 8)`.
pub open spec fn bytes_for_bits(b: int) -> int {
    (b + 7) / 8
}

/// Reads bits, most significant first, from the bytes of a [`BoxStream`], taking a new
/// byte from the stream only when the bits of the previous one are used up.
pub struct BitStream {
    current: u8,
    available: u8,
    consumed_bytes: usize,
}

impl BitStream {
    /// Bits read so far.
    pub closed spec fn bit_pos(&self) -> int {
        self.consumed_bytes as int * 8 - self.available as int
    }

    /// Bytes taken from the stream so far.
    pub closed spec fn consumed(&self) -> int {
        self.consumed_bytes as int
    }

    /// The reader started at byte `start` of `stream`'s bytes and agrees with `stream`.
    pub closed spec fn inv(&self, stream: BoxStream, start: int) -> bool {
        &&& stream.wf()
        &&& 0 <= start
        &&& self.available <= 8
        &&& stream.position() == start + self.consumed_bytes
        &&& self.consumed_bytes == bytes_for_bits(self.bit_pos())
        &&& self.bit_pos() >= 0
        &&& self.available > 0 ==> self.available < 8 && self.current == stream.bytes()[stream.position()
            - 1]
    }

    /// What the agreement with the stream says of positions and counts.
    pub proof fn lemma_inv(&self, stream: BoxStream, start: int)
        requires
            self.inv(stream, start),
        ensures
            stream.wf(),
            stream.position() == start + self.consumed(),
            self.consumed() == bytes_for_bits(self.bit_pos()),
            self.bit_pos() >= 0,
    {
    }

    /// A reader that has read nothing yet.
    pub fn new() -> (b: Self)
        ensures
            b.bit_pos() == 0,
            b.consumed() == 0,
            forall|stream: BoxStream| stream.wf() ==> #[trigger] b.inv(stream, stream.position()),
    {
        BitStream { current: 0, available: 0, consumed_bytes: 0 }
    }

    /// Bytes taken from the stream so far.
    pub fn get_consumed_bytes(&self) -> (r: usize)
        ensures
            r == self.consumed(),
    {
        self.consumed_bytes
    }

    /// Reads `length` bits, most significant first; only the last 8 of them are kept.
    pub fn read_u8(&mut self, stream: &mut BoxStream, length: usize, Ghost(start): Ghost<int>) -> (r:
        Result<u8, Error>)
        requires
            old(self).inv(*old(stream), start),
        ensures
            old(stream).same_bytes(*final(stream)),
            r is Ok <==> start * 8 + old(self).bit_pos() + length <= old(stream).bytes().len() * 8,
            r matches Ok(v) ==> {
                &&& v as int == bits_value(
                    old(stream).bytes(),
                    start * 8 + old(self).bit_pos(),
                    length as nat,
                ) % 0x100
                &&& final(self).inv(*final(stream), start)
                &&& final(self).bit_pos() == old(self).bit_pos() + length
            },
            r matches Err(e) ==> e.is_io(),
    {
        let ghost s = old(stream).bytes();
        let ghost g = start * 8 + old(self).bit_pos();
        let mut bits: u8 = 0;
        let mut i: usize = 0;
        while i < length
            invariant
                old(stream).same_bytes(*stream),
                s == old(stream).bytes(),
                g == start * 8 + old(self).bit_pos(),
                self.inv(*stream, start),
                i <= length,
                self.bit_pos() == old(self).bit_pos() + i,
                bits as int == bits_value(s, g, i as nat) % 0x100,
            decreases length - i,
        {
            let b = self.peek(stream, Ghost(start))?;
            proof {
                lemma_shift_or_u8(bits, b);
                lemma_step_mod(bits_value(s, g, i as nat) as int, b as int, 0x100);
            }
            bits = (bits << 1u8) | (b as u8);
            i = i + 1;
        }
        Ok(bits)
    }

    /// Reads `length` bits, most significant first; only the last 16 of them are kept.
    pub fn read_u16(&mut self, stream: &mut BoxStream, length: usize, Ghost(start): Ghost<int>) -> (r:
        Result<u16, Error>)
        requires
            old(self).inv(*old(stream), start),
        ensures
            old(stream).same_bytes(*final(stream)),
            r is Ok <==> start * 8 + old(self).bit_pos() + length <= old(stream).bytes().len() * 8,
            r matches Ok(v) ==> {
                &&& v as int == bits_value(
                    old(stream).bytes(),
                    start * 8 + old(self).bit_pos(),
                    length as nat,
                ) % 0x10000
                &&& final(self).inv(*final(stream), start)
                &&& final(self).bit_pos() == old(self).bit_pos() + length
            },
            r matches Err(e) ==> e.is_io(),
    {
        let ghost s = old(stream).bytes();
        let ghost g = start * 8 + old(self).bit_pos();
        let mut bits: u16 = 0;
        let mut i: usize = 0;
        while i < length
            invariant
                old(stream).same_bytes(*stream),
                s == old(stream).bytes(),
                g == start * 8 + old(self).bit_pos(),
                self.inv(*stream, start),
                i <= length,
                self.bit_pos() == old(self).bit_pos() + i,
                bits as int == bits_value(s, g, i as nat) % 0x10000,
            decreases length - i,
        {
            let b = self.peek(stream, Ghost(start))?;
            proof {
                lemma_shift_or_u16(bits, b);
                lemma_step_mod(bits_value(s, g, i as nat) as int, b as int, 0x10000);
            }
            bits = (bits << 1u16) | (b as u16);
            i = i + 1;
        }
        Ok(bits)
    }

    /// Reads `length` bits, most significant first; only the last 32 of them are kept.
    pub fn read_u32(&mut self, stream: &mut BoxStream, length: usize, Ghost(start): Ghost<int>) -> (r:
        Result<u32, Error>)
        requires
            old(self).inv(*old(stream), start),
        ensures
            old(stream).same_bytes(*final(stream)),
            r is Ok <==> start * 8 + old(self).bit_pos() + length <= old(stream).bytes().len() * 8,
            r matches Ok(v) ==> {
                &&& v as int == bits_value(
                    old(stream).bytes(),
                    start * 8 + old(self).bit_pos(),
                    length as nat,
                ) % 0x1_0000_0000
                &&& final(self).inv(*final(stream), start)
                &&& final(self).bit_pos() == old(self).bit_pos() + length
            },
            r matches Err(e) ==> e.is_io(),
    {
        let ghost s = old(stream).bytes();
        let ghost g = start * 8 + old(self).bit_pos();
        let mut bits: u32 = 0;
        let mut i: usize = 0;
        while i < length
            invariant
                old(stream).same_bytes(*stream),
                s == old(stream).bytes(),
                g == start * 8 + old(self).bit_pos(),
                self.inv(*stream, start),
                i <= length,
                self.bit_pos() == old(self).bit_pos() + i,
                bits as int == bits_value(s, g, i as nat) % 0x1_0000_0000,
            decreases length - i,
        {
            let b = self.peek(stream, Ghost(start))?;
            proof {
                lemma_shift_or_u32(bits, b);
                lemma_step_mod(bits_value(s, g, i as nat) as int, b as int, 0x1_0000_0000);
            }
            bits = (bits << 1u32) | (b as u32);
            i = i + 1;
        }
        Ok(bits)
    }

    /// Reads one bit.
    fn peek(&mut self, stream: &mut BoxStream, Ghost(start): Ghost<int>) -> (r: Result<u8, Error>)
        requires
            old(self).inv(*old(stream), start),
        ensures
            old(stream).same_bytes(*final(stream)),
            r is Ok <==> start * 8 + old(self).bit_pos() + 1 <= old(stream).bytes().len() * 8,
            r matches Ok(b) ==> {
                &&& b as int == bit_at(old(stream).bytes(), start * 8 + old(self).bit_pos())
                &&& final(self).inv(*final(stream), start)
                &&& final(self).bit_pos() == old(self).bit_pos() + 1
            },
            r matches Err(e) ==> e.is_io(),
    {
        let ghost s = old(stream).bytes();
        let ghost g = start * 8 + self.bit_pos();
        if self.available == 0 {
            let byte = stream.read_u8()?;
            self.current = byte;
            self.available = 8;
            self.consumed_bytes = self.consumed_bytes + 1;
        }
        proof {
            lemma_bit_of_byte(self.current, self.available as int);
            assert(g / 8 == stream.position() - 1);
            assert(7 - g % 8 == self.available - 1);
        }
        let b = (self.current >> (self.available - 1)) & 1;
        self.available = self.available - 1;
        Ok(b)
    }
}

/// A value of `n` bits is below `2^n`.
pub proof fn lemma_bits_value_bound(s: Seq<u8>, g: int, n: nat)
    ensures
        bits_value(s, g, n) < pow2_8(n as int),
    decreases n,
{
    if n > 0 {
        lemma_bits_value_bound(s, g, (n - 1) as nat);
    }
}

/// Taking one more bit keeps the value modulo `m`.
proof fn lemma_step_mod(x: int, b: int, m: int)
    requires
        m > 0,
    ensures
        (2 * (x % m) + b) % m == (2 * x + b) % m,
{
    lemma_fundamental_div_mod(x, m);
    let q = x / m;
    let r = x % m;
    assert(2 * x + b == m * (2 * q) + (2 * r + b)) by (nonlinear_arith)
        requires
            x == m * q + r,
    ;
    lemma_mod_multiples_vanish(2 * q, 2 * r + b, m);
}

/// Shifting in one bit doubles modulo `2^8`.
proof fn lemma_shift_or_u8(x: u8, b: u8)
    requires
        b <= 1,
    ensures
        ((x << 1u8) | b) as int == (2 * x + b) % 0x100,
{
    assert(((x << 1u8) | b) as int == (2 * x + b) % 0x100) by (bit_vector)
        requires
            b <= 1,
    ;
}

/// Shifting in one bit doubles modulo `2^16`.
proof fn lemma_shift_or_u16(x: u16, b: u8)
    requires
        b <= 1,
    ensures
        ((x << 1u16) | (b as u16)) as int == (2 * x + b) % 0x10000,
{
    assert(((x << 1u16) | (b as u16)) as int == (2 * x + b) % 0x10000) by (bit_vector)
        requires
            b <= 1,
    ;
}

/// Shifting in one bit doubles modulo `2^32`.
proof fn lemma_shift_or_u32(x: u32, b: u8)
    requires
        b <= 1,
    ensures
        ((x << 1u32) | (b as u32)) as int == (2 * x + b) % 0x1_0000_0000,
{
    assert(((x << 1u32) | (b as u32)) as int == (2 * x + b) % 0x1_0000_0000) by (bit_vector)
        requires
            b <= 1,
    ;
}

/// The bit that `peek` extracts from a byte is the one `bit_at` names.
proof fn lemma_bit_of_byte(c: u8, a: int)
    requires
        1 <= a <= 8,
    ensures
        ((c >> ((a - 1) as u8)) & 1) as int == (c as int / pow2_8(a - 1)) % 2,
{
    reveal_with_fuel(pow2_8, 9);
    let k = (a - 1) as u8;
    assert(k < 8);
    assert((c >> k) & 1 == (c / (1u8 << k)) % 2) by (bit_vector)
        requires
            k < 8,
    ;
    assert((k == 0 ==> (1u8 << k) == 1) && (k == 1 ==> (1u8 << k) == 2) && (k == 2 ==> (1u8 << k)
        == 4) && (k == 3 ==> (1u8 << k) == 8) && (k == 4 ==> (1u8 << k) == 16) && (k == 5 ==> (1u8
        << k) == 32) && (k == 6 ==> (1u8 << k) == 64) && (k == 7 ==> (1u8 << k) == 128))
        by (bit_vector);
}

} // verus!
