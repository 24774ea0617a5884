use vstd::prelude::*;
use crate::errors::Error;
use crate::parsing::utils::box_stream::BoxStream;

verus! {

/// `mdat`
pub const MDAT: u32 = 0x7461646d;

/// Media data box: the raw sample bytes.
pub struct MediaDataBox {
    pub data: Vec<u8>,
}

impl MediaDataBox {
    /// Where parsing a payload of `size` bytes at `p` ends, if it succeeds.
    pub open spec fn spec_end(s: Seq<u8>, p: int, size: int) -> Option<int> {
        if p + size <= s.len() {
            Some(p + size)
        } else {
            None
        }
    }

    /// The box holds the payload bytes stored at `p`.
    pub open spec fn parsed_from(&self, s: Seq<u8>, p: int, size: int) -> bool {
        self.data@ == s.subrange(p, p + size)
    }

    /// Reads the payload of a `mdat` box of `size` bytes.
    pub fn parse(stream: &mut BoxStream, size: usize) -> (r: Result<Self, Error>)
        requires
            old(stream).wf(),
        ensures
            old(stream).same_bytes(*final(stream)),
            r is Ok <==> Self::spec_end(old(stream).bytes(), old(stream).position(), size as int)
                is Some,
            r matches Ok(b) ==> Some(final(stream).position()) == Self::spec_end(
                old(stream).bytes(),
                old(stream).position(),
                size as int,
            ) && b.parsed_from(old(stream).bytes(), old(stream).position(), size as int),
            r matches Err(e) ==> e.is_io(),
    {
        let data = stream.read_exact(size)?;
        Ok(MediaDataBox { data })
    }

    /// The payload bytes.
    pub fn into_data(self) -> (d: Vec<u8>)
        ensures
            d@ == self.data@,
    {
        self.data
    }
}

} // verus!
