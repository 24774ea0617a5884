use vstd::prelude::*;
use crate::errors::Error;
use crate::parsing::utils::box_stream::{BoxStream, be32};

verus! {

/// `trex`
pub const TREX: u32 = 0x78657274;

/// Track extends box: the defaults that the fragments of a track use.
pub struct TrackExtendsBox {
    pub track_id: u32,
    pub default_sample_description_index: u32,
    pub default_sample_duration: u32,
    pub default_sample_size: u32,
    pub default_sample_flags: u32,
}

impl TrackExtendsBox {
    /// The box stored at `p` and where it ends, if it can be read.
    pub open spec fn spec_parse(s: Seq<u8>, p: int) -> Option<(Self, int)> {
        if p + 24 > s.len() {
            None
        } else {
            Some(
                (
                    TrackExtendsBox {
                        track_id: be32(s, p + 4),
                        default_sample_description_index: be32(s, p + 8),
                        default_sample_duration: be32(s, p + 12),
                        default_sample_size: be32(s, p + 16),
                        default_sample_flags: be32(s, p + 20),
                    },
                    p + 24,
                ),
            )
        }
    }

    /// Parses the payload of a `trex` box.
    pub fn parse(stream: &mut BoxStream, size: usize) -> (r: Result<Self, Error>)
        requires
            old(stream).wf(),
        ensures
            old(stream).same_bytes(*final(stream)),
            r is Ok <==> Self::spec_parse(old(stream).bytes(), old(stream).position()) is Some,
            r matches Ok(b) ==> Self::spec_parse(old(stream).bytes(), old(stream).position())
                == Some((b, final(stream).position())),
            r matches Err(e) ==> e.is_io(),
    {
        let _ = stream.read_box_version_flag_header()?;
        let track_id = stream.read_u32()?;
        let default_sample_description_index = stream.read_u32()?;
        let default_sample_duration = stream.read_u32()?;
        let default_sample_size = stream.read_u32()?;
        let default_sample_flags = stream.read_u32()?;
        Ok(
            TrackExtendsBox {
                track_id,
                default_sample_description_index,
                default_sample_duration,
                default_sample_size,
                default_sample_flags,
            },
        )
    }

    /// The sample duration that fragments of the track use by default.
    pub fn get_default_sample_duration(&self) -> (r: u32)
        ensures
            r == self.default_sample_duration,
    {
        self.default_sample_duration
    }
}

} // verus!
