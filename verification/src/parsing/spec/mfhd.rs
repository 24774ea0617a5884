use vstd::prelude::*;
use crate::errors::Error;
use crate::parsing::utils::box_stream::{BoxStream, be32};

verus! {

/// `mfhd`
pub const MFHD: u32 = 0x6468666d;

/// Movie fragment header box.
pub struct MovieFragmentHeaderBox {
    pub sequence_number: u32,
}

impl MovieFragmentHeaderBox {
    /// The box stored at `p` and where it ends, if it can be read.
    pub open spec fn spec_parse(s: Seq<u8>, p: int) -> Option<(Self, int)> {
        if p + 8 > s.len() {
            None
        } else {
            Some((MovieFragmentHeaderBox { sequence_number: be32(s, p + 4) }, p + 8))
        }
    }

    /// Parses the payload of a `mfhd` box.
    pub fn parse(stream: &mut BoxStream, size: usize) -> (r: Result<Self, Error>)
        requires
            old(stream).wf(),
        ensures
            old(stream).same_bytes(*final(stream)),
            r is Ok <==> Self::spec_parse(old(stream).bytes(), old(stream).position()) is Some,
            r matches Ok(b) ==> Self::spec_parse(old(stream).bytes(), old(stream).position())
                == Some((b, final(stream).position())),
            r matches Err(e) ==> e.is_io(),
    {
        let _ = stream.read_box_version_flag_header()?;
        let sequence_number = stream.read_u32()?;
        Ok(MovieFragmentHeaderBox { sequence_number })
    }
}

} // verus!
