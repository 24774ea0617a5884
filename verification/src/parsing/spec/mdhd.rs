use vstd::prelude::*;
use crate::errors::Error;
use crate::parsing::utils::box_stream::{BoxStream, be16, be32, be64};
use super::mvhd::{read_times, spec_times, times_len};

verus! {

/// `mdhd`
pub const MDHD: u32 = 0x6468646d;

/// Media header box: the time scale and duration of a track's media.
pub struct MediaHeaderBox {
    pub creation_time: u64,
    pub modification_time: u64,
    pub timescale: u32,
    pub duration: u64,
    pub language: u16,
}

impl MediaHeaderBox {
    /// The box stored at `p` and where it ends, if it can be read.
    pub open spec fn spec_parse(s: Seq<u8>, p: int) -> Option<(Self, int)> {
        if p + 4 > s.len() {
            None
        } else {
            let version = s[p];
            let t = spec_times(s, p + 4, version);
            let q = p + 4 + times_len(version);
            if q + 4 > s.len() {
                None
            } else {
                Some(
                    (
                        MediaHeaderBox {
                            creation_time: t.0,
                            modification_time: t.1,
                            timescale: t.2,
                            duration: t.3,
                            language: be16(s, q),
                        },
                        q + 4,
                    ),
                )
            }
        }
    }

    /// Where a media header keeps its times: after the version and flags (4 bytes), the
    /// creation and modification times, then the time scale, then the duration. In version
    /// 1 the three times are 64 bits wide and the time scale 32 bits; in any other version
    /// all four are 32 bits wide. The language code follows.
    pub proof fn lemma_layout(s: Seq<u8>, p: int, b: Self, e: int)
        requires
            Self::spec_parse(s, p) == Some((b, e)),
        ensures
            s[p] == 1 ==> b.creation_time == be64(s, p + 4) && b.modification_time == be64(
                s,
                p + 12,
            ) && b.timescale == be32(s, p + 20) && b.duration == be64(s, p + 24) && b.language
                == be16(s, p + 32) && e == p + 36,
            s[p] != 1 ==> b.creation_time == be32(s, p + 4) && b.modification_time == be32(
                s,
                p + 8,
            ) && b.timescale == be32(s, p + 12) && b.duration == be32(s, p + 16) && b.language
                == be16(s, p + 20) && e == p + 24,
    {
    }

    /// Parses the payload of a `mdhd` box.
    pub fn parse(stream: &mut BoxStream, size: usize) -> (r: Result<Self, Error>)
        requires
            old(stream).wf(),
        ensures
            old(stream).same_bytes(*final(stream)),
            r is Ok <==> Self::spec_parse(old(stream).bytes(), old(stream).position()) is Some,
            r matches Ok(b) ==> Self::spec_parse(old(stream).bytes(), old(stream).position())
                == Some((b, final(stream).position())),
            r matches Err(e) ==> e.is_io(),
    {
        let (version, _) = stream.read_box_version_flag_header()?;
        let (creation_time, modification_time, timescale, duration) = read_times(
            stream,
            version,
        )?;
        let language = stream.read_u16()?;
        stream.skip_bytes(2)?;
        Ok(MediaHeaderBox { creation_time, modification_time, timescale, duration, language })
    }

    /// The number of time units per second.
    pub fn get_timescale(&self) -> (r: u32)
        ensures
            r == self.timescale,
    {
        self.timescale
    }

    /// The duration of the media, in time units.
    pub fn get_duration(&self) -> (r: u64)
        ensures
            r == self.duration,
    {
        self.duration
    }
}

} // verus!
