use vstd::prelude::*;
use crate::errors::Error;
use crate::parsing::utils::box_stream::{BoxStream, be32, be64};
use crate::parsing::utils::flag::{check_flag, lemma_and_zero};

verus! {

/// `tfhd`
pub const TFHD: u32 = 0x64686674;

const FLAG_BASE_DATA_OFFSET: [u8; 3] = [0x00, 0x00, 0x01];
const FLAG_SAMPLE_DESCRIPTION_INDEX: [u8; 3] = [0x00, 0x00, 0x02];
const FLAG_DEFAULT_DURATION: [u8; 3] = [0x00, 0x00, 0x08];
const FLAG_DEFAULT_SIZE: [u8; 3] = [0x00, 0x00, 0x10];
const FLAG_DEFAULT_FLAGS: [u8; 3] = [0x00, 0x00, 0x20];

/// Reads a big-endian 32-bit number when `present`, else gives 0 and reads nothing.
pub fn read_optional_u32(stream: &mut BoxStream, present: bool) -> (r: Result<u32, Error>)
    requires
        old(stream).wf(),
    ensures
        old(stream).same_bytes(*final(stream)),
        r is Ok <==> (!present || old(stream).remaining() >= 4),
        r matches Ok(v) ==> v == (if present {
            be32(old(stream).bytes(), old(stream).position())
        } else {
            0
        }) && final(stream).position() == old(stream).position() + (if present {
            4int
        } else {
            0int
        }),
        r matches Err(e) ==> e.is_io(),
{
    if present {
        stream.read_u32()
    } else {
        Ok(0)
    }
}

/// The optional 32-bit field at `q`, and the position after it.
pub open spec fn opt32(s: Seq<u8>, q: int, present: bool) -> (u32, int) {
    if present {
        (be32(s, q), q + 4)
    } else {
        (0, q)
    }
}

/// Track fragment header box: defaults that override those of the track for one fragment.
pub struct TrackFragmentHeaderBox {
    pub track_id: u32,
    pub base_data_offset: u64,
    pub sample_description_index: u32,
    pub default_sample_duration: u32,
    pub default_sample_size: u32,
    pub default_sample_flags: u32,
}

impl TrackFragmentHeaderBox {
    /// The box stored at `p` and where it ends, if it can be read.
    pub open spec fn spec_parse(s: Seq<u8>, p: int) -> Option<(Self, int)> {
        if p + 8 > s.len() {
            None
        } else {
            let f = s[p + 3];
            let has_base = (f & 0x01) != 0;
            let q0 = p + 8;
            let q1 = if has_base {
                q0 + 8
            } else {
                q0
            };
            let d = opt32(s, q1, (f & 0x02) != 0);
            let dur = opt32(s, d.1, (f & 0x08) != 0);
            let sz = opt32(s, dur.1, (f & 0x10) != 0);
            let fl = opt32(s, sz.1, (f & 0x20) != 0);
            if fl.1 > s.len() {
                None
            } else {
                Some(
                    (
                        TrackFragmentHeaderBox {
                            track_id: be32(s, p + 4),
                            base_data_offset: if has_base {
                                be64(s, q0)
                            } else {
                                0
                            },
                            sample_description_index: d.0,
                            default_sample_duration: dur.0,
                            default_sample_size: sz.0,
                            default_sample_flags: fl.0,
                        },
                        fl.1,
                    ),
                )
            }
        }
    }

    /// Where a track fragment header keeps its default sample duration: after the version
    /// and flags and the track id (8 bytes), the 64-bit base data offset when flag `0x01`
    /// is set and the 32-bit sample description index when flag `0x02` is set, it is the
    /// 32-bit value that follows when flag `0x08` is set; without that flag it is 0.
    pub proof fn lemma_default_duration_layout(s: Seq<u8>, p: int, b: Self, e: int)
        requires
            Self::spec_parse(s, p) == Some((b, e)),
        ensures
            b.track_id == be32(s, p + 4),
            (s[p + 3] & 0x08) != 0 ==> b.default_sample_duration == be32(
                s,
                p + 8 + (if (s[p + 3] & 0x01) != 0 {
                    8int
                } else {
                    0int
                }) + (if (s[p + 3] & 0x02) != 0 {
                    4int
                } else {
                    0int
                }),
            ),
            (s[p + 3] & 0x08) == 0 ==> b.default_sample_duration == 0,
    {
    }

    /// Parses the payload of a `tfhd` box.
    pub fn parse(stream: &mut BoxStream, size: usize) -> (r: Result<Self, Error>)
        requires
            old(stream).wf(),
        ensures
            old(stream).same_bytes(*final(stream)),
            r is Ok <==> Self::spec_parse(old(stream).bytes(), old(stream).position()) is Some,
            r matches Ok(b) ==> Self::spec_parse(old(stream).bytes(), old(stream).position())
                == Some((b, final(stream).position())),
            r matches Err(e) ==> e.is_io(),
    {
        let (_, flag) = stream.read_box_version_flag_header()?;
        let track_id = stream.read_u32()?;
        let ghost s = old(stream).bytes();
        let ghost p = old(stream).position();
        let ghost f = s[p + 3];
        assert(flag[2] == f);
        assert(flag[0] == s[p + 1] && flag[1] == s[p + 2]);
        let has_base = check_flag(&flag, &FLAG_BASE_DATA_OFFSET);
        let has_index = check_flag(&flag, &FLAG_SAMPLE_DESCRIPTION_INDEX);
        let has_duration = check_flag(&flag, &FLAG_DEFAULT_DURATION);
        let has_size = check_flag(&flag, &FLAG_DEFAULT_SIZE);
        let has_flags = check_flag(&flag, &FLAG_DEFAULT_FLAGS);
        proof {
            lemma_and_zero(flag[0]);
            lemma_and_zero(flag[1]);
        }
        let base_data_offset = if has_base {
            stream.read_u64()?
        } else {
            0
        };
        let sample_description_index = read_optional_u32(stream, has_index)?;
        let default_sample_duration = read_optional_u32(stream, has_duration)?;
        let default_sample_size = read_optional_u32(stream, has_size)?;
        let default_sample_flags = read_optional_u32(stream, has_flags)?;
        Ok(
            TrackFragmentHeaderBox {
                track_id,
                base_data_offset,
                sample_description_index,
                default_sample_duration,
                default_sample_size,
                default_sample_flags,
            },
        )
    }

    /// The sample duration that this fragment uses by default (0 when it sets none).
    pub fn get_default_sample_duration(&self) -> (r: u32)
        ensures
            r == self.default_sample_duration,
    {
        self.default_sample_duration
    }
}

} // verus!
