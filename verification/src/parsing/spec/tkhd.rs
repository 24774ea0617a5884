use vstd::prelude::*;
use crate::errors::Error;
use crate::parsing::utils::box_stream::{BoxStream, be16, be32, be64};
use super::mvhd::{read_matrix, spec_matrix};

verus! {

/// `tkhd`
pub const TKHD: u32 = 0x64686b74;

/// Track header box.
pub struct TrackHeaderBox {
    pub creation_time: u64,
    pub modification_time: u64,
    pub track_id: u32,
    pub duration: u64,
    pub layer: u16,
    pub alternate_group: u16,
    pub volume: u16,
    pub matrix: [u32; 9],
    pub width: u32,
    pub height: u32,
}

impl TrackHeaderBox {
    /// The box stored at `p` and where it ends, if it can be read.
    pub open spec fn spec_parse(s: Seq<u8>, p: int) -> Option<(Self, int)> {
        if p + 4 > s.len() {
            None
        } else {
            let v1 = s[p] == 1;
            let q = if v1 {
                p + 36
            } else {
                p + 24
            };
            if q + 60 > s.len() {
                None
            } else {
                Some(
                    (
                        TrackHeaderBox {
                            creation_time: if v1 {
                                be64(s, p + 4)
                            } else {
                                be32(s, p + 4) as u64
                            },
                            modification_time: if v1 {
                                be64(s, p + 12)
                            } else {
                                be32(s, p + 8) as u64
                            },
                            track_id: if v1 {
                                be32(s, p + 20)
                            } else {
                                be32(s, p + 12)
                            },
                            duration: if v1 {
                                be64(s, p + 28)
                            } else {
                                be32(s, p + 20) as u64
                            },
                            layer: be16(s, q + 8),
                            alternate_group: be16(s, q + 10),
                            volume: be16(s, q + 12) >> 8u16,
                            matrix: spec_matrix(s, q + 16),
                            width: be32(s, q + 52),
                            height: be32(s, q + 56),
                        },
                        q + 60,
                    ),
                )
            }
        }
    }

    /// Parses the payload of a `tkhd` box.
    pub fn parse(stream: &mut BoxStream, size: usize) -> (r: Result<Self, Error>)
        requires
            old(stream).wf(),
        ensures
            old(stream).same_bytes(*final(stream)),
            r is Ok <==> Self::spec_parse(old(stream).bytes(), old(stream).position()) is Some,
            r matches Ok(b) ==> Self::spec_parse(old(stream).bytes(), old(stream).position())
                == Some((b, final(stream).position())),
            r matches Err(e) ==> e.is_io(),
    {
        let (version, _) = stream.read_box_version_flag_header()?;
        let (creation_time, modification_time, track_id, duration) = if version == 1 {
            let c = stream.read_u64()?;
            let m = stream.read_u64()?;
            let t = stream.read_u32()?;
            stream.skip_bytes(4)?;
            let d = stream.read_u64()?;
            (c, m, t, d)
        } else {
            let c = stream.read_u32()?;
            let m = stream.read_u32()?;
            let t = stream.read_u32()?;
            stream.skip_bytes(4)?;
            let d = stream.read_u32()?;
            (c as u64, m as u64, t, d as u64)
        };
        stream.skip_bytes(8)?;
        let layer = stream.read_u16()?;
        let alternate_group = stream.read_u16()?;
        let volume = stream.read_u16()? >> 8u16;
        stream.skip_bytes(2)?;
        let matrix = read_matrix(stream)?;
        let width = stream.read_u32()?;
        let height = stream.read_u32()?;
        Ok(
            TrackHeaderBox {
                creation_time,
                modification_time,
                track_id,
                duration,
                layer,
                alternate_group,
                volume,
                matrix,
                width,
                height,
            },
        )
    }

    /// The identifier of the track.
    pub fn get_track_id(&self) -> (r: u32)
        ensures
            r == self.track_id,
    {
        self.track_id
    }

    /// The duration of the track.
    pub fn get_duration(&self) -> (r: u64)
        ensures
            r == self.duration,
    {
        self.duration
    }
}

} // verus!
