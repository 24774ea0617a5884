use vstd::prelude::*;
use crate::errors::{Error, io_error, io_error_with_type};
use crate::parsing::utils::box_stream::{BoxStream, be32};

verus! {

/// `trep`
pub const TREP: u32 = 0x70657274;

/// Track extension properties box. No child box type is known, so a box with children is
/// refused.
pub struct TrackExtensionPropertiesBox {
    pub track_id: u32,
}

impl TrackExtensionPropertiesBox {
    /// The box stored at `p` for a payload of `size` bytes and where it ends, if it can be
    /// read: only a box without children is accepted.
    pub open spec fn spec_parse(s: Seq<u8>, p: int, size: int) -> Option<(Self, int)> {
        if p < 0 || p + 8 > s.len() || size != 8 {
            None
        } else {
            Some((TrackExtensionPropertiesBox { track_id: be32(s, p + 4) }, p + 8))
        }
    }

    /// Parses the payload of a `trep` box of `size` bytes.
    pub fn parse(stream: &mut BoxStream, size: usize) -> (r: Result<Self, Error>)
        requires
            old(stream).wf(),
        ensures
            old(stream).same_bytes(*final(stream)),
            r is Ok <==> Self::spec_parse(old(stream).bytes(), old(stream).position(), size as int)
                is Some,
            r matches Ok(b) ==> Self::spec_parse(
                old(stream).bytes(),
                old(stream).position(),
                size as int,
            ) == Some((b, final(stream).position())),
            r matches Err(e) ==> e.is_io(),
    {
        let _ = stream.read_box_version_flag_header()?;
        let track_id = stream.read_u32()?;
        if size < 8 {
            return Err(io_error("invalid box size"));
        }
        let rest = size - 8;
        if rest > 0 {
            let (typ, _, _) = stream.read_box_common_header(rest)?;
            return Err(io_error_with_type("unknown trep box type: ", typ));
        }
        Ok(TrackExtensionPropertiesBox { track_id })
    }
}

} // verus!
