use vstd::prelude::*;
use crate::errors::Error;
use crate::parsing::utils::box_stream::{BoxStream, be16, be32, be64};

verus! {

/// `mvhd`
pub const MVHD: u32 = 0x6468766d;

/// The nine big-endian 32-bit values of a transformation matrix stored at `q`.
pub open spec fn spec_matrix(s: Seq<u8>, q: int) -> [u32; 9] {
    [
        be32(s, q),
        be32(s, q + 4),
        be32(s, q + 8),
        be32(s, q + 12),
        be32(s, q + 16),
        be32(s, q + 20),
        be32(s, q + 24),
        be32(s, q + 28),
        be32(s, q + 32),
    ]
}

/// Reads a transformation matrix of nine big-endian 32-bit values.
pub fn read_matrix(stream: &mut BoxStream) -> (r: Result<[u32; 9], Error>)
    requires
        old(stream).wf(),
    ensures
        old(stream).same_bytes(*final(stream)),
        r is Ok <==> old(stream).remaining() >= 36,
        r matches Ok(m) ==> m == spec_matrix(old(stream).bytes(), old(stream).position())
            && final(stream).position() == old(stream).position() + 36,
        r matches Err(e) ==> e.is_io(),
{
    let m0 = stream.read_u32()?;
    let m1 = stream.read_u32()?;
    let m2 = stream.read_u32()?;
    let m3 = stream.read_u32()?;
    let m4 = stream.read_u32()?;
    let m5 = stream.read_u32()?;
    let m6 = stream.read_u32()?;
    let m7 = stream.read_u32()?;
    let m8 = stream.read_u32()?;
    Ok([m0, m1, m2, m3, m4, m5, m6, m7, m8])
}

/// Reads the four times of a full box header of version 1 (64-bit creation time,
/// modification time and duration around a 32-bit value) or of another version
/// (four 32-bit values).
pub fn read_times(stream: &mut BoxStream, version: u8) -> (r: Result<(u64, u64, u32, u64), Error>)
    requires
        old(stream).wf(),
    ensures
        old(stream).same_bytes(*final(stream)),
        r is Ok <==> old(stream).remaining() >= times_len(version),
        r matches Ok(t) ==> t == spec_times(old(stream).bytes(), old(stream).position(), version)
            && final(stream).position() == old(stream).position() + times_len(version),
        r matches Err(e) ==> e.is_io(),
{
    if version == 1 {
        let c = stream.read_u64()?;
        let m = stream.read_u64()?;
        let t = stream.read_u32()?;
        let d = stream.read_u64()?;
        Ok((c, m, t, d))
    } else {
        let c = stream.read_u32()?;
        let m = stream.read_u32()?;
        let t = stream.read_u32()?;
        let d = stream.read_u32()?;
        Ok((c as u64, m as u64, t, d as u64))
    }
}

/// Length of the four times of a header of the given version.
pub open spec fn times_len(version: u8) -> int {
    if version == 1 {
        28
    } else {
        16
    }
}

/// The four times stored at `q` for a header of the given version.
pub open spec fn spec_times(s: Seq<u8>, q: int, version: u8) -> (u64, u64, u32, u64) {
    if version == 1 {
        (be64(s, q), be64(s, q + 8), be32(s, q + 16), be64(s, q + 20))
    } else {
        (be32(s, q) as u64, be32(s, q + 4) as u64, be32(s, q + 8), be32(s, q + 12) as u64)
    }
}

/// Movie header box.
pub struct MovieHeaderBox {
    pub creation_time: u64,
    pub modification_time: u64,
    pub timescale: u32,
    pub duration: u64,
    pub rate: u32,
    pub volume: u16,
    pub matrix: [u32; 9],
    pub next_track_id: u32,
}

impl MovieHeaderBox {
    /// The box stored at `p` and where it ends, if it can be read.
    pub open spec fn spec_parse(s: Seq<u8>, p: int) -> Option<(Self, int)> {
        if p + 4 > s.len() {
            None
        } else {
            let version = s[p];
            let t = spec_times(s, p + 4, version);
            let q = p + 4 + times_len(version);
            if q + 80 > s.len() {
                None
            } else {
                Some(
                    (
                        MovieHeaderBox {
                            creation_time: t.0,
                            modification_time: t.1,
                            timescale: t.2,
                            duration: t.3,
                            rate: be32(s, q),
                            volume: be16(s, q + 4) >> 8u16,
                            matrix: spec_matrix(s, q + 16),
                            next_track_id: be32(s, q + 76),
                        },
                        q + 80,
                    ),
                )
            }
        }
    }

    /// Where a movie header keeps its times: after the version and flags (4 bytes), the
    /// creation and modification times, then the time scale, then the duration. In version
    /// 1 the three times are 64 bits wide and the time scale 32 bits; in any other version
    /// all four are 32 bits wide. The rate follows.
    pub proof fn lemma_layout(s: Seq<u8>, p: int, b: Self, e: int)
        requires
            Self::spec_parse(s, p) == Some((b, e)),
        ensures
            s[p] == 1 ==> b.creation_time == be64(s, p + 4) && b.modification_time == be64(
                s,
                p + 12,
            ) && b.timescale == be32(s, p + 20) && b.duration == be64(s, p + 24) && b.rate
                == be32(s, p + 32),
            s[p] != 1 ==> b.creation_time == be32(s, p + 4) && b.modification_time == be32(
                s,
                p + 8,
            ) && b.timescale == be32(s, p + 12) && b.duration == be32(s, p + 16) && b.rate
                == be32(s, p + 20),
    {
    }

    /// Parses the payload of a `mvhd` box.
    pub fn parse(stream: &mut BoxStream, size: usize) -> (r: Result<Self, Error>)
        requires
            old(stream).wf(),
        ensures
            old(stream).same_bytes(*final(stream)),
            r is Ok <==> Self::spec_parse(old(stream).bytes(), old(stream).position()) is Some,
            r matches Ok(b) ==> Self::spec_parse(old(stream).bytes(), old(stream).position())
                == Some((b, final(stream).position())),
            r matches Err(e) ==> e.is_io(),
    {
        let (version, _) = stream.read_box_version_flag_header()?;
        let (creation_time, modification_time, timescale, duration) = read_times(
            stream,
            version,
        )?;
        let rate = stream.read_u32()?;
        let volume = stream.read_u16()? >> 8u16;
        stream.skip_bytes(10)?;
        let matrix = read_matrix(stream)?;
        stream.skip_bytes(24)?;
        let next_track_id = stream.read_u32()?;
        Ok(
            MovieHeaderBox {
                creation_time,
                modification_time,
                timescale,
                duration,
                rate,
                volume,
                matrix,
                next_track_id,
            },
        )
    }
}

} // verus!
