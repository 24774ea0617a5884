use vstd::prelude::*;
use crate::errors::{Error, io_error};
use crate::parsing::utils::box_stream::{BoxStream, be32};
use crate::parsing::utils::flag::{check_flag, lemma_and_zero};
use super::tfhd::{opt32, read_optional_u32};

verus! {

const FLAG_DATA_OFFSET: [u8; 3] = [0x00, 0x00, 0x01];
const FLAG_FIRST_FLAG: [u8; 3] = [0x00, 0x00, 0x04];
const FLAG_DURATION: [u8; 3] = [0x00, 0x01, 0x00];
const FLAG_SIZE: [u8; 3] = [0x00, 0x02, 0x00];
const FLAG_FLAGS: [u8; 3] = [0x00, 0x04, 0x00];
const FLAG_CTS_OFFSET: [u8; 3] = [0x00, 0x08, 0x00];

/// `trun`
pub const TRUN: u32 = 0x6e757274;

/// 1 when `b` holds, else 0.
pub open spec fn one_if(b: bool) -> int {
    if b {
        1
    } else {
        0
    }
}

/// Which per-sample fields a track run stores, as given by its flags.
pub struct RunLayout {
    pub duration: bool,
    pub size: bool,
    pub flags: bool,
    pub cts: bool,
}

impl RunLayout {
    /// The layout given by the middle flag byte `f1`.
    pub open spec fn from_flags(f1: u8) -> RunLayout {
        RunLayout {
            duration: (f1 & 0x01) != 0,
            size: (f1 & 0x02) != 0,
            flags: (f1 & 0x04) != 0,
            cts: (f1 & 0x08) != 0,
        }
    }

    /// Bytes per sample record.
    pub open spec fn record_len(self) -> int {
        4 * (one_if(self.duration) + one_if(self.size) + one_if(self.flags) + one_if(self.cts))
    }

    /// Offset of the size field in a record.
    pub open spec fn size_off(self) -> int {
        4 * one_if(self.duration)
    }

    /// Offset of the flags field in a record.
    pub open spec fn flags_off(self) -> int {
        4 * (one_if(self.duration) + one_if(self.size))
    }

    /// Offset of the composition time offset field in a record.
    pub open spec fn cts_off(self) -> int {
        4 * (one_if(self.duration) + one_if(self.size) + one_if(self.flags))
    }
}

/// Reads one sample record: the fields that `layout` says are present, each 0 when absent.
fn read_record(
    stream: &mut BoxStream,
    has_duration: bool,
    has_size: bool,
    has_flags: bool,
    has_cts: bool,
) -> (r: Result<(u32, u32, u32, u32), Error>)
    requires
        old(stream).wf(),
    ensures
        old(stream).same_bytes(*final(stream)),
        ({
            let l = RunLayout { duration: has_duration, size: has_size, flags: has_flags, cts: has_cts };
            let s = old(stream).bytes();
            let q = old(stream).position();
            &&& r is Ok <==> old(stream).remaining() >= l.record_len()
            &&& r matches Ok(v) ==> {
                &&& final(stream).position() == q + l.record_len()
                &&& v.0 == opt32(s, q, has_duration).0
                &&& v.1 == opt32(s, q + l.size_off(), has_size).0
                &&& v.2 == opt32(s, q + l.flags_off(), has_flags).0
                &&& v.3 == opt32(s, q + l.cts_off(), has_cts).0
            }
        }),
        r matches Err(e) ==> e.is_io(),
{
    let d = read_optional_u32(stream, has_duration)?;
    let z = read_optional_u32(stream, has_size)?;
    let f = read_optional_u32(stream, has_flags)?;
    let c = read_optional_u32(stream, has_cts)?;
    Ok((d, z, f, c))
}

/// Track run box: the durations, sizes, flags and composition offsets of the samples of
/// a fragment.
pub struct TrackRunBox {
    pub sample_count: u32,
    pub data_offset: u32,
    pub first_sample_flags: u32,
    pub sample_duration: Vec<u32>,
    pub sample_size: Vec<u32>,
    pub sample_flags: Vec<u32>,
    pub sample_composition_time_offset: Vec<u32>,
}

/// The positions and remaining sizes met while parsing a track run payload.
pub struct RunShape {
    pub layout: RunLayout,
    pub count: int,
    pub read_offset: bool,
    pub read_first: bool,
    /// Where the sample records start.
    pub records: int,
    /// Payload bytes left after the optional fields.
    pub rest: int,
}

impl TrackRunBox {
    /// The shape of the payload of `size` bytes at `p`.
    pub open spec fn shape(s: Seq<u8>, p: int, size: int) -> RunShape {
        let f2 = s[p + 3];
        let rest0 = size - 8;
        let read_offset = rest0 > 0 && (f2 & 0x01) != 0;
        let rest1 = rest0 - 4 * one_if(read_offset);
        let read_first = rest1 > 0 && (f2 & 0x04) != 0;
        RunShape {
            layout: RunLayout::from_flags(s[p + 2]),
            count: be32(s, p + 4) as int,
            read_offset,
            read_first,
            records: p + 8 + 4 * one_if(read_offset) + 4 * one_if(read_first),
            rest: rest1 - 4 * one_if(read_first),
        }
    }

    /// Number of sample records stored (none when no payload is left for them).
    pub open spec fn stored_records(sh: RunShape) -> int {
        if sh.rest > 0 {
            sh.count
        } else {
            0
        }
    }

    /// Where parsing a payload of `size` bytes at `p` ends, if it succeeds.
    pub open spec fn spec_end(s: Seq<u8>, p: int, size: int) -> Option<int> {
        if p < 0 || p + 8 > s.len() || size < 8 {
            None
        } else {
            let sh = Self::shape(s, p, size);
            let end = sh.records + sh.layout.record_len() * Self::stored_records(sh);
            if sh.rest + 4 * one_if(sh.read_first) < 0 || sh.rest < 0 || end > s.len() {
                None
            } else {
                Some(end)
            }
        }
    }

    /// `v` holds, for each stored record, the field at offset `off` when `present`.
    pub open spec fn column(
        v: Seq<u32>,
        s: Seq<u8>,
        sh: RunShape,
        present: bool,
        off: int,
    ) -> bool {
        &&& v.len() == (if present {
            Self::stored_records(sh)
        } else {
            0
        })
        &&& forall|i: int|
            0 <= i < v.len() ==> #[trigger] v[i] == be32(
                s,
                sh.records + sh.layout.record_len() * i + off,
            )
    }

    /// The box holds the fields stored at `p`.
    pub open spec fn parsed_from(&self, s: Seq<u8>, p: int, size: int) -> bool {
        let sh = Self::shape(s, p, size);
        &&& self.sample_count == be32(s, p + 4)
        &&& self.data_offset == opt32(s, p + 8, sh.read_offset).0
        &&& self.first_sample_flags == opt32(s, p + 8 + 4 * one_if(sh.read_offset), sh.read_first).0
        &&& Self::column(self.sample_duration@, s, sh, sh.layout.duration, 0)
        &&& Self::column(self.sample_size@, s, sh, sh.layout.size, sh.layout.size_off())
        &&& Self::column(self.sample_flags@, s, sh, sh.layout.flags, sh.layout.flags_off())
        &&& Self::column(
            self.sample_composition_time_offset@,
            s,
            sh,
            sh.layout.cts,
            sh.layout.cts_off(),
        )
    }

    /// Where a track run keeps its samples, for a payload with room past its optional
    /// fields: after the version and flags and the 32-bit sample count (8 bytes), the data
    /// offset when flag `0x01` of the last flag byte is set and the first sample's flags
    /// when flag `0x04` is set (4 bytes each), one record per sample. A record holds, in
    /// this order and 4 bytes each, the duration (flag `0x01` of the middle flag byte),
    /// the size (`0x02`), the flags (`0x04`) and the composition offset (`0x08`), each when
    /// its flag is set. Each sample of the run has a stored duration and size.
    pub proof fn lemma_record_layout(b: Self, s: Seq<u8>, p: int, size: int, i: int)
        requires
            b.parsed_from(s, p, size),
            size > 16,
        ensures
            ({
                let f1 = s[p + 2];
                let f2 = s[p + 3];
                let start = p + 8 + (if (f2 & 0x01) != 0 {
                    4int
                } else {
                    0int
                }) + (if (f2 & 0x04) != 0 {
                    4int
                } else {
                    0int
                });
                let dur = if (f1 & 0x01) != 0 {
                    4int
                } else {
                    0int
                };
                let rec = dur + (if (f1 & 0x02) != 0 {
                    4int
                } else {
                    0int
                }) + (if (f1 & 0x04) != 0 {
                    4int
                } else {
                    0int
                }) + (if (f1 & 0x08) != 0 {
                    4int
                } else {
                    0int
                });
                &&& b.sample_count == be32(s, p + 4)
                &&& (f1 & 0x01) != 0 ==> b.sample_duration@.len() == be32(s, p + 4)
                &&& (f1 & 0x01) == 0 ==> b.sample_duration@.len() == 0
                &&& (f1 & 0x02) != 0 ==> b.sample_size@.len() == be32(s, p + 4)
                &&& (f1 & 0x02) == 0 ==> b.sample_size@.len() == 0
                &&& 0 <= i < b.sample_duration@.len() ==> b.sample_duration@[i] == be32(s, start + rec * i)
                &&& 0 <= i < b.sample_size@.len() ==> b.sample_size@[i] == be32(s, start + rec * i + dur)
            }),
    {
        let sh = Self::shape(s, p, size);
        if 0 <= i < b.sample_duration@.len() {
            assert(b.sample_duration@[i] == be32(s, sh.records + sh.layout.record_len() * i + 0));
        }
        if 0 <= i < b.sample_size@.len() {
            assert(b.sample_size@[i] == be32(s, sh.records + sh.layout.record_len() * i + sh.layout.size_off()));
        }
    }

    /// Parses the payload of a `trun` box of `size` bytes.
    pub fn parse(stream: &mut BoxStream, size: usize) -> (r: Result<Self, Error>)
        requires
            old(stream).wf(),
        ensures
            old(stream).same_bytes(*final(stream)),
            r is Ok <==> Self::spec_end(old(stream).bytes(), old(stream).position(), size as int)
                is Some,
            r matches Ok(b) ==> Some(final(stream).position()) == Self::spec_end(
                old(stream).bytes(),
                old(stream).position(),
                size as int,
            ) && b.parsed_from(old(stream).bytes(), old(stream).position(), size as int),
            r matches Err(e) ==> e.is_io(),
    {
        let ghost s = old(stream).bytes();
        let ghost p = old(stream).position();
        let ghost size0 = size as int;
        let (_, flag) = stream.read_box_version_flag_header()?;
        let sample_count = stream.read_u32()?;
        if size < 8 {
            return Err(io_error("invalid box size"));
        }
        let mut rest = size - 8;
        proof {
            lemma_and_zero(flag[0]);
            lemma_and_zero(flag[1]);
            lemma_and_zero(flag[2]);
        }
        let has_offset = check_flag(&flag, &FLAG_DATA_OFFSET);
        let has_first = check_flag(&flag, &FLAG_FIRST_FLAG);
        let has_duration = check_flag(&flag, &FLAG_DURATION);
        let has_size = check_flag(&flag, &FLAG_SIZE);
        let has_flags = check_flag(&flag, &FLAG_FLAGS);
        let has_cts = check_flag(&flag, &FLAG_CTS_OFFSET);
        let ghost sh = Self::shape(s, p, size as int);
        assert(sh.layout == RunLayout {
            duration: has_duration,
            size: has_size,
            flags: has_flags,
            cts: has_cts,
        });
        let data_offset = if rest > 0 && has_offset {
            let value = stream.read_u32()?;
            if rest < 4 {
                return Err(io_error("invalid box size"));
            }
            rest = rest - 4;
            value
        } else {
            0
        };
        let first_sample_flags = if rest > 0 && has_first {
            let value = stream.read_u32()?;
            if rest < 4 {
                return Err(io_error("invalid box size"));
            }
            rest = rest - 4;
            value
        } else {
            0
        };
        assert(stream.position() == sh.records);
        assert(rest == sh.rest);
        assert(sh.rest >= 0);
        assert(Self::spec_end(s, p, size0) is Some <==> sh.records + sh.layout.record_len()
            * Self::stored_records(sh) <= s.len());
        let mut sample_duration: Vec<u32> = Vec::new();
        let mut sample_size: Vec<u32> = Vec::new();
        let mut sample_flags: Vec<u32> = Vec::new();
        let mut sample_composition_time_offset: Vec<u32> = Vec::new();
        if rest > 0 {
            let count = sample_count as usize;
            let mut i: usize = 0;
            while i < count
                invariant
                    stream.wf(),
                    s == old(stream).bytes(),
                    p == old(stream).position(),
                    stream.bytes() == s,
                    0 <= p,
                    sh == Self::shape(s, p, size0),
                    size0 >= 8,
                    size0 == size,
                    Self::spec_end(s, p, size0) is Some <==> sh.records + sh.layout.record_len() * count <= s.len(),
                    sh.rest > 0,
                    count == sh.count,
                    sh.layout == (RunLayout {
                        duration: has_duration,
                        size: has_size,
                        flags: has_flags,
                        cts: has_cts,
                    }),
                    i <= count,
                    stream.position() == sh.records + sh.layout.record_len() * i,
                    sample_duration@.len() == (if has_duration {
                        i as int
                    } else {
                        0
                    }),
                    sample_size@.len() == (if has_size {
                        i as int
                    } else {
                        0
                    }),
                    sample_flags@.len() == (if has_flags {
                        i as int
                    } else {
                        0
                    }),
                    sample_composition_time_offset@.len() == (if has_cts {
                        i as int
                    } else {
                        0
                    }),
                    forall|j: int|
                        0 <= j < sample_duration@.len() ==> #[trigger] sample_duration@[j] == be32(
                            s,
                            sh.records + sh.layout.record_len() * j,
                        ),
                    forall|j: int|
                        0 <= j < sample_size@.len() ==> #[trigger] sample_size@[j] == be32(
                            s,
                            sh.records + sh.layout.record_len() * j + sh.layout.size_off(),
                        ),
                    forall|j: int|
                        0 <= j < sample_flags@.len() ==> #[trigger] sample_flags@[j] == be32(
                            s,
                            sh.records + sh.layout.record_len() * j + sh.layout.flags_off(),
                        ),
                    forall|j: int|
                        0 <= j < sample_composition_time_offset@.len()
                            ==> #[trigger] sample_composition_time_offset@[j] == be32(
                            s,
                            sh.records + sh.layout.record_len() * j + sh.layout.cts_off(),
                        ),
                decreases count - i,
            {
                let ghost k = sh.layout.record_len();
                proof {
                    assert(k * (i + 1) == k * i + k) by (nonlinear_arith);
                    assert(k * (i + 1) <= k * count) by (nonlinear_arith)
                        requires
                            i + 1 <= count,
                            k >= 0,
                    ;
                }
                let rec = read_record(stream, has_duration, has_size, has_flags, has_cts);
                let (d, z, f, c) = match rec {
                    Ok(v) => v,
                    Err(e) => {
                        assert(sh.records + k * i + k > s.len());
                        assert(sh.records + k * count > s.len());
                        assert(Self::spec_end(s, p, size0) is None);
                        return Err(e);
                    },
                };
                if has_duration {
                    sample_duration.push(d);
                }
                if has_size {
                    sample_size.push(z);
                }
                if has_flags {
                    sample_flags.push(f);
                }
                if has_cts {
                    sample_composition_time_offset.push(c);
                }
                i = i + 1;
            }
        }
        Ok(
            TrackRunBox {
                sample_count,
                data_offset,
                first_sample_flags,
                sample_duration,
                sample_size,
                sample_flags,
                sample_composition_time_offset,
            },
        )
    }

    /// The number of samples the run declares.
    pub fn get_sample_count(&self) -> (r: usize)
        ensures
            r == self.sample_count,
    {
        self.sample_count as usize
    }

    /// The sample durations (empty when the run stores none).
    pub fn get_sample_duration(&self) -> (r: &[u32])
        ensures
            r@ == self.sample_duration@,
    {
        self.sample_duration.as_slice()
    }

    /// The sample sizes (empty when the run stores none).
    pub fn get_sample_size(&self) -> (r: &[u32])
        ensures
            r@ == self.sample_size@,
    {
        self.sample_size.as_slice()
    }
}

} // verus!
