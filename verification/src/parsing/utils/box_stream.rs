use vstd::prelude::*;
use crate::errors::{Error, io_error};
use super::box_type::BoxType;

verus! {

/// Big-endian value of the `n` bytes of `s` that start at `p`.
pub open spec fn be_value(s: Seq<u8>, p: int, n: nat) -> nat
    decreases n,
{
    if n == 0 {
        0
    } else {
        be_value(s, p, (n - 1) as nat) * 256 + s[p + n - 1] as nat
    }
}

/// `256` to the power `n`.
pub open spec fn pow256(n: nat) -> nat
    decreases n,
{
    if n == 0 {
        1
    } else {
        pow256((n - 1) as nat) * 256
    }
}

/// Big-endian 16-bit value at `p`.
pub open spec fn be16(s: Seq<u8>, p: int) -> u16 {
    be_value(s, p, 2) as u16
}

/// Big-endian 32-bit value at `p`.
pub open spec fn be32(s: Seq<u8>, p: int) -> u32 {
    be_value(s, p, 4) as u32
}

/// Big-endian 64-bit value at `p`.
pub open spec fn be64(s: Seq<u8>, p: int) -> u64 {
    be_value(s, p, 8) as u64
}

/// Little-endian 32-bit value at `p`: the four characters of a box type.
pub open spec fn le32(s: Seq<u8>, p: int) -> u32 {
    (s[p] as int + s[p + 1] as int * 0x100 + s[p + 2] as int * 0x10000 + s[p + 3] as int
        * 0x1000000) as u32
}

/// A box header at `p`: its type, its total size and the size of the header itself.
/// A 32-bit size of 1 announces a 64-bit size; a size of 0 means "up to the end of the parent".
pub open spec fn spec_box_header(s: Seq<u8>, p: int, parent_size: usize) -> Option<
    (BoxType, usize, usize),
> {
    if p < 0 || p + 8 > s.len() {
        None
    } else {
        let size32 = be32(s, p);
        let typ = BoxType(le32(s, p + 4));
        if size32 == 1 {
            if p + 16 > s.len() {
                None
            } else {
                Some((typ, be64(s, p + 8) as usize, 16))
            }
        } else if size32 == 0 {
            Some((typ, parent_size, 8))
        } else {
            Some((typ, size32 as usize, 8))
        }
    }
}

/// A box starts with its 32-bit big-endian size and its four-character type. A size of 1
/// is followed by the 64-bit size, for a 16-byte header; a size of 0 makes the box run to
/// the end of its parent; any other size is the box's own, for an 8-byte header.
pub proof fn lemma_box_header_layout(s: Seq<u8>, p: int, parent_size: usize)
    requires
        0 <= p,
        p + 8 <= s.len(),
    ensures
        be32(s, p) == 1 && p + 16 <= s.len() ==> spec_box_header(s, p, parent_size) == Some(
            (BoxType(le32(s, p + 4)), be64(s, p + 8) as usize, 16usize),
        ),
        be32(s, p) == 1 && p + 16 > s.len() ==> spec_box_header(s, p, parent_size) is None,
        be32(s, p) == 0 ==> spec_box_header(s, p, parent_size) == Some(
            (BoxType(le32(s, p + 4)), parent_size, 8usize),
        ),
        be32(s, p) > 1 ==> spec_box_header(s, p, parent_size) == Some(
            (BoxType(le32(s, p + 4)), be32(s, p) as usize, 8usize),
        ),
{
}

/// Every big-endian value of `n` bytes is below `256^n`.
pub proof fn lemma_be_value_bound(s: Seq<u8>, p: int, n: nat)
    ensures
        be_value(s, p, n) < pow256(n),
    decreases n,
{
    if n > 0 {
        lemma_be_value_bound(s, p, (n - 1) as nat);
    }
}

/// A cursor over the bytes of an MP4 stream.
pub struct BoxStream<'a> {
    data: &'a [u8],
    pos: usize,
}

impl<'a> BoxStream<'a> {
    /// The bytes the cursor walks over.
    pub closed spec fn bytes(&self) -> Seq<u8> {
        self.data@
    }

    /// The index of the next byte to be read.
    pub closed spec fn position(&self) -> int {
        self.pos as int
    }

    /// The cursor lies within its bytes.
    pub open spec fn wf(&self) -> bool {
        &&& 0 <= self.position() <= self.bytes().len()
        &&& self.bytes().len() <= usize::MAX
    }

    /// Number of bytes left to read.
    pub open spec fn remaining(&self) -> int {
        self.bytes().len() - self.position()
    }

    /// `next` is `self` advanced by `n` bytes.
    pub open spec fn advanced(self, next: Self, n: int) -> bool {
        &&& next.wf()
        &&& next.bytes() == self.bytes()
        &&& next.position() == self.position() + n
    }

    /// `next` walks over the same bytes as `self`.
    pub open spec fn same_bytes(self, next: Self) -> bool {
        &&& next.wf()
        &&& next.bytes() == self.bytes()
        &&& next.position() >= self.position()
    }

    /// `next` is `self` after a failed read: the rest of the bytes were consumed.
    pub open spec fn exhausted(self, next: Self) -> bool {
        &&& next.wf()
        &&& next.bytes() == self.bytes()
        &&& next.position() == self.bytes().len()
    }

    /// A cursor at the start of `data`.
    pub fn new(data: &'a [u8]) -> (s: Self)
        ensures
            s.wf(),
            s.bytes() == data@,
            s.position() == 0,
    {
        let _ = data.len();
        BoxStream { data, pos: 0 }
    }

    /// The index of the next byte to be read.
    pub fn get_position(&self) -> (p: usize)
        ensures
            p == self.position(),
    {
        self.pos
    }

    /// Consumes the rest of the bytes and reports an unexpected end of input.
    fn fail_eof(&mut self) -> (e: Error)
        requires
            old(self).wf(),
        ensures
            old(self).exhausted(*final(self)),
            e.is_io(),
    {
        self.pos = self.data.len();
        io_error("early eof")
    }

    /// Reads one byte.
    pub fn read_u8(&mut self) -> (r: Result<u8, Error>)
        requires
            old(self).wf(),
        ensures
            r is Ok <==> old(self).remaining() >= 1,
            r matches Ok(v) ==> v == old(self).bytes()[old(self).position()] && old(self).advanced(
                *final(self),
                1,
            ),
            r matches Err(e) ==> e.is_io() && old(self).exhausted(*final(self)),
    {
        if self.pos < self.data.len() {
            let v = self.data[self.pos];
            self.pos = self.pos + 1;
            Ok(v)
        } else {
            Err(self.fail_eof())
        }
    }

    /// Reads `n` bytes as a big-endian number.
    fn read_be(&mut self, n: usize) -> (r: Result<u64, Error>)
        requires
            old(self).wf(),
            n <= 8,
        ensures
            r is Ok <==> old(self).remaining() >= n,
            r matches Ok(v) ==> v == be_value(old(self).bytes(), old(self).position(), n as nat)
                && old(self).advanced(*final(self), n as int),
            r matches Err(e) ==> e.is_io() && old(self).exhausted(*final(self)),
    {
        if self.data.len() - self.pos < n {
            return Err(self.fail_eof());
        }
        let ghost s = self.data@;
        let start = self.pos;
        let mut acc: u64 = 0;
        let mut i: usize = 0;
        while i < n
            invariant
                self.data@ == s,
                start + n <= s.len(),
                i <= n <= 8,
                self.pos == start + i,
                acc == be_value(s, start as int, i as nat),
            decreases n - i,
        {
            proof {
                lemma_be_value_bound(s, start as int, i as nat);
                lemma_pow256_le(i as nat, 7);
            }
            let b = self.data[self.pos];
            acc = acc * 256 + b as u64;
            self.pos = self.pos + 1;
            i = i + 1;
        }
        Ok(acc)
    }

    /// Reads a big-endian 16-bit number.
    pub fn read_u16(&mut self) -> (r: Result<u16, Error>)
        requires
            old(self).wf(),
        ensures
            r is Ok <==> old(self).remaining() >= 2,
            r matches Ok(v) ==> v == be16(old(self).bytes(), old(self).position())
                && old(self).advanced(*final(self), 2),
            r matches Err(e) ==> e.is_io() && old(self).exhausted(*final(self)),
    {
        let v = self.read_be(2)?;
        proof {
            lemma_be_value_bound(old(self).bytes(), old(self).position(), 2);
            reveal_with_fuel(pow256, 3);
        }
        Ok(v as u16)
    }

    /// Reads a big-endian 24-bit number.
    pub fn read_u24(&mut self) -> (r: Result<u32, Error>)
        requires
            old(self).wf(),
        ensures
            r is Ok <==> old(self).remaining() >= 3,
            r matches Ok(v) ==> v == be_value(old(self).bytes(), old(self).position(), 3)
                && old(self).advanced(*final(self), 3),
            r matches Err(e) ==> e.is_io() && old(self).exhausted(*final(self)),
    {
        let v = self.read_be(3)?;
        proof {
            lemma_be_value_bound(old(self).bytes(), old(self).position(), 3);
            reveal_with_fuel(pow256, 4);
        }
        Ok(v as u32)
    }

    /// Reads a big-endian 32-bit number.
    pub fn read_u32(&mut self) -> (r: Result<u32, Error>)
        requires
            old(self).wf(),
        ensures
            r is Ok <==> old(self).remaining() >= 4,
            r matches Ok(v) ==> v == be32(old(self).bytes(), old(self).position())
                && old(self).advanced(*final(self), 4),
            r matches Err(e) ==> e.is_io() && old(self).exhausted(*final(self)),
    {
        let v = self.read_be(4)?;
        proof {
            lemma_be_value_bound(old(self).bytes(), old(self).position(), 4);
            reveal_with_fuel(pow256, 5);
        }
        Ok(v as u32)
    }

    /// Reads a big-endian 64-bit number.
    pub fn read_u64(&mut self) -> (r: Result<u64, Error>)
        requires
            old(self).wf(),
        ensures
            r is Ok <==> old(self).remaining() >= 8,
            r matches Ok(v) ==> v == be64(old(self).bytes(), old(self).position())
                && old(self).advanced(*final(self), 8),
            r matches Err(e) ==> e.is_io() && old(self).exhausted(*final(self)),
    {
        self.read_be(8)
    }

    /// Reads the four characters of a box type (stored least significant byte first).
    pub fn read_box_type(&mut self) -> (r: Result<BoxType, Error>)
        requires
            old(self).wf(),
        ensures
            r is Ok <==> old(self).remaining() >= 4,
            r matches Ok(t) ==> t == BoxType(le32(old(self).bytes(), old(self).position()))
                && old(self).advanced(*final(self), 4),
            r matches Err(e) ==> e.is_io() && old(self).exhausted(*final(self)),
    {
        if self.data.len() - self.pos < 4 {
            return Err(self.fail_eof());
        }
        let p = self.pos;
        let v = self.data[p] as u32 + self.data[p + 1] as u32 * 0x100 + self.data[p + 2] as u32
            * 0x10000 + self.data[p + 3] as u32 * 0x1000000;
        self.pos = p + 4;
        Ok(BoxType(v))
    }

    /// Reads `n` bytes.
    pub fn read_exact(&mut self, n: usize) -> (r: Result<Vec<u8>, Error>)
        requires
            old(self).wf(),
        ensures
            r is Ok <==> old(self).remaining() >= n,
            r matches Ok(v) ==> v@ == old(self).bytes().subrange(
                old(self).position(),
                old(self).position() + n,
            ) && old(self).advanced(*final(self), n as int),
            r matches Err(e) ==> e.is_io() && old(self).exhausted(*final(self)),
    {
        if self.data.len() - self.pos < n {
            return Err(self.fail_eof());
        }
        let ghost s = self.data@;
        let start = self.pos;
        let mut v: Vec<u8> = Vec::with_capacity(n);
        let mut i: usize = 0;
        while i < n
            invariant
                self.data@ == s,
                start + n <= s.len(),
                i <= n,
                self.pos == start + i,
                v@ == s.subrange(start as int, start + i),
            decreases n - i,
        {
            v.push(self.data[self.pos]);
            self.pos = self.pos + 1;
            i = i + 1;
            assert(v@ =~= s.subrange(start as int, start + i));
        }
        Ok(v)
    }

    /// Skips `n` bytes.
    pub fn skip_bytes(&mut self, n: usize) -> (r: Result<(), Error>)
        requires
            old(self).wf(),
        ensures
            r is Ok <==> old(self).remaining() >= n,
            r is Ok ==> old(self).advanced(*final(self), n as int),
            r matches Err(e) ==> e.is_io() && old(self).exhausted(*final(self)),
    {
        if self.data.len() - self.pos < n {
            return Err(self.fail_eof());
        }
        self.pos = self.pos + n;
        Ok(())
    }

    /// Reads a box header. Returns the box type, the size of the whole box and the size of
    /// the header; a box whose size field is 0 extends over `parent_size` bytes.
    pub fn read_box_common_header(&mut self, parent_size: usize) -> (r: Result<
        (BoxType, usize, usize),
        Error,
    >)
        requires
            old(self).wf(),
        ensures
            r is Ok <==> spec_box_header(old(self).bytes(), old(self).position(), parent_size)
                is Some,
            r matches Ok(h) ==> Some(h) == spec_box_header(
                old(self).bytes(),
                old(self).position(),
                parent_size,
            ) && old(self).advanced(*final(self), h.2 as int),
            r matches Err(e) ==> e.is_io() && old(self).exhausted(*final(self)),
    {
        let size32 = self.read_u32()?;
        let typ = self.read_box_type()?;
        if size32 == 1 {
            let size64 = self.read_u64()?;
            Ok((typ, size64 as usize, 16))
        } else if size32 == 0 {
            Ok((typ, parent_size, 8))
        } else {
            Ok((typ, size32 as usize, 8))
        }
    }

    /// Reads the version byte and the three flag bytes of a full box.
    pub fn read_box_version_flag_header(&mut self) -> (r: Result<(u8, [u8; 3]), Error>)
        requires
            old(self).wf(),
        ensures
            r is Ok <==> old(self).remaining() >= 4,
            r matches Ok(h) ==> {
                let s = old(self).bytes();
                let p = old(self).position();
                &&& h.0 == s[p]
                &&& h.1@ == s.subrange(p + 1, p + 4)
                &&& old(self).advanced(*final(self), 4)
            },
            r matches Err(e) ==> e.is_io() && old(self).exhausted(*final(self)),
    {
        let version = self.read_u8()?;
        let f0 = self.read_u8()?;
        let f1 = self.read_u8()?;
        let f2 = self.read_u8()?;
        let flag = [f0, f1, f2];
        assert(flag@ =~= old(self).bytes().subrange(old(self).position() + 1, old(self).position() + 4));
        Ok((version, flag))
    }

    /// Reads the header of a sample entry: six reserved bytes and the data reference index.
    pub fn read_sample_header(&mut self) -> (r: Result<u16, Error>)
        requires
            old(self).wf(),
        ensures
            r is Ok <==> old(self).remaining() >= 8,
            r matches Ok(v) ==> v == be16(old(self).bytes(), old(self).position() + 6)
                && old(self).advanced(*final(self), 8),
            r matches Err(e) ==> e.is_io() && old(self).exhausted(*final(self)),
    {
        self.skip_bytes(6)?;
        self.read_u16()
    }
}

/// `256^i` grows with `i`.
pub proof fn lemma_pow256_le(i: nat, j: nat)
    requires
        i <= j,
    ensures
        pow256(i) <= pow256(j),
        j <= 7 ==> pow256(j) <= 0x100000000000000,
    decreases j,
{
    reveal_with_fuel(pow256, 8);
    if i < j {
        lemma_pow256_le(i, (j - 1) as nat);
    }
}

} // verus!
