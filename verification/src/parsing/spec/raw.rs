use vstd::prelude::*;
use crate::errors::Error;
use crate::parsing::utils::box_stream::BoxStream;

verus! {

/// `elst`
pub const ELST: u32 = 0x74736c65;

/// `stts`
pub const STTS: u32 = 0x73747473;

/// `stsc`
pub const STSC: u32 = 0x63737473;

/// `stsz`
pub const STSZ: u32 = 0x7a737473;

/// `meta`
pub const META: u32 = 0x6174656d;

/// `mehd`
pub const MEHD: u32 = 0x6468656d;

/// `sbgp`
pub const SBGP: u32 = 0x70676273;

/// A box whose payload is kept as bytes without being interpreted.
pub struct UninterpretedBox {
    pub payload: Vec<u8>,
}

impl UninterpretedBox {
    /// Where parsing a payload of `size` bytes at `p` ends, if it succeeds.
    pub open spec fn spec_end(s: Seq<u8>, p: int, size: int) -> Option<int> {
        if p + size <= s.len() {
            Some(p + size)
        } else {
            None
        }
    }

    /// The box holds the payload bytes stored at `p`.
    pub open spec fn parsed_from(&self, s: Seq<u8>, p: int, size: int) -> bool {
        self.payload@ == s.subrange(p, p + size)
    }

    /// Reads a payload of `size` bytes.
    pub fn parse(stream: &mut BoxStream, size: usize) -> (r: Result<Self, Error>)
        requires
            old(stream).wf(),
        ensures
            old(stream).same_bytes(*final(stream)),
            r is Ok <==> Self::spec_end(old(stream).bytes(), old(stream).position(), size as int)
                is Some,
            r matches Ok(b) ==> Some(final(stream).position()) == Self::spec_end(
                old(stream).bytes(),
                old(stream).position(),
                size as int,
            ) && b.parsed_from(old(stream).bytes(), old(stream).position(), size as int),
            r matches Err(e) ==> e.is_io(),
    {
        let payload = stream.read_exact(size)?;
        Ok(UninterpretedBox { payload })
    }
}

} // verus!
