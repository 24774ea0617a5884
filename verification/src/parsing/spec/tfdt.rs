use vstd::prelude::*;
use crate::errors::Error;
use crate::parsing::utils::box_stream::{BoxStream, be32, be64};

verus! {

/// `tfdt`
pub const TFDT: u32 = 0x74646674;

/// Track fragment decode time box: the decode time of the first sample of a fragment.
pub struct TrackFragmentBaseMediaDecodeTimeBox {
    pub base_media_decode_time: u64,
}

impl TrackFragmentBaseMediaDecodeTimeBox {
    /// The box stored at `p` and where it ends, if it can be read.
    pub open spec fn spec_parse(s: Seq<u8>, p: int) -> Option<(Self, int)> {
        if p + 4 > s.len() {
            None
        } else if s[p] == 1 {
            if p + 12 > s.len() {
                None
            } else {
                Some(
                    (TrackFragmentBaseMediaDecodeTimeBox { base_media_decode_time: be64(s, p + 4) }, p
                        + 12),
                )
            }
        } else if p + 8 > s.len() {
            None
        } else {
            Some(
                (
                    TrackFragmentBaseMediaDecodeTimeBox {
                        base_media_decode_time: be32(s, p + 4) as u64,
                    },
                    p + 8,
                ),
            )
        }
    }

    /// What a decode time box holds: right after its version and flags, the decode time of
    /// the fragment's first sample, 64 bits wide in version 1 and 32 bits wide in any other
    /// version, and nothing after it.
    pub proof fn lemma_layout(s: Seq<u8>, p: int, b: Self, e: int)
        requires
            Self::spec_parse(s, p) == Some((b, e)),
        ensures
            s[p] == 1 ==> b.base_media_decode_time == be64(s, p + 4) && e == p + 12,
            s[p] != 1 ==> b.base_media_decode_time == be32(s, p + 4) && e == p + 8,
    {
    }

    /// Parses the payload of a `tfdt` box.
    pub fn parse(stream: &mut BoxStream, size: usize) -> (r: Result<Self, Error>)
        requires
            old(stream).wf(),
        ensures
            old(stream).same_bytes(*final(stream)),
            r is Ok <==> Self::spec_parse(old(stream).bytes(), old(stream).position()) is Some,
            r matches Ok(b) ==> Self::spec_parse(old(stream).bytes(), old(stream).position())
                == Some((b, final(stream).position())),
            r matches Err(e) ==> e.is_io(),
    {
        let (version, _) = stream.read_box_version_flag_header()?;
        let base_media_decode_time = if version == 1 {
            stream.read_u64()?
        } else {
            stream.read_u32()? as u64
        };
        Ok(TrackFragmentBaseMediaDecodeTimeBox { base_media_decode_time })
    }

    /// The decode time of the first sample of the fragment.
    pub fn get_base_media_decode_time(&self) -> (r: u64)
        ensures
            r == self.base_media_decode_time,
    {
        self.base_media_decode_time
    }
}

} // verus!
