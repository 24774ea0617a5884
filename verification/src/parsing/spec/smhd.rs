use vstd::prelude::*;
use crate::errors::Error;
use crate::parsing::utils::box_stream::{BoxStream, be16};

verus! {

/// `smhd`
pub const SMHD: u32 = 0x64686d73;

/// Sound media header box.
pub struct SoundMediaHeaderBox {
    pub balance: u16,
}

impl SoundMediaHeaderBox {
    /// The box stored at `p` and where it ends, if it can be read.
    pub open spec fn spec_parse(s: Seq<u8>, p: int) -> Option<(Self, int)> {
        if p + 8 > s.len() {
            None
        } else {
            Some((SoundMediaHeaderBox { balance: be16(s, p + 4) }, p + 8))
        }
    }

    /// Parses the payload of a `smhd` box.
    pub fn parse(stream: &mut BoxStream, size: usize) -> (r: Result<Self, Error>)
        requires
            old(stream).wf(),
        ensures
            old(stream).same_bytes(*final(stream)),
            r is Ok <==> Self::spec_parse(old(stream).bytes(), old(stream).position()) is Some,
            r matches Ok(b) ==> Self::spec_parse(old(stream).bytes(), old(stream).position())
                == Some((b, final(stream).position())),
            r matches Err(e) ==> e.is_io(),
    {
        let _ = stream.read_box_version_flag_header()?;
        let balance = stream.read_u16()?;
        stream.skip_bytes(2)?;
        Ok(SoundMediaHeaderBox { balance })
    }
}

} // verus!
