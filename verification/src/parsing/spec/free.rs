use vstd::prelude::*;
use crate::errors::Error;
use crate::parsing::utils::box_stream::BoxStream;

verus! {

/// `free`
pub const FREE: u32 = 0x65657266;

/// Free space box: padding whose payload is skipped.
pub struct FreeSpaceBox {}

impl FreeSpaceBox {
    /// Where parsing a payload of `size` bytes at `p` ends, if it succeeds.
    pub open spec fn spec_end(s: Seq<u8>, p: int, size: int) -> Option<int> {
        if p + size <= s.len() {
            Some(p + size)
        } else {
            None
        }
    }

    /// Skips the payload of a `free` box of `size` bytes.
    pub fn parse(stream: &mut BoxStream, size: usize) -> (r: Result<Self, Error>)
        requires
            old(stream).wf(),
        ensures
            old(stream).same_bytes(*final(stream)),
            r is Ok <==> Self::spec_end(old(stream).bytes(), old(stream).position(), size as int)
                is Some,
            r is Ok ==> Some(final(stream).position()) == Self::spec_end(
                old(stream).bytes(),
                old(stream).position(),
                size as int,
            ),
            r matches Err(e) ==> e.is_io(),
    {
        stream.skip_bytes(size)?;
        Ok(FreeSpaceBox {})
    }
}

} // verus!
