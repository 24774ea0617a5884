use vstd::prelude::*;
use crate::errors::Error;
use crate::parsing::utils::box_stream::{BoxStream, be32, le32};
use crate::parsing::utils::box_type::BoxType;
use super::sample_groups::SampleGroup;

verus! {

/// `sgpd`
pub const SGPD: u32 = 0x64706773;

/// The layout of a sample group description at `p`.
pub struct SgpdLayout {
    pub version: u8,
    pub grouping_type: BoxType,
    pub default_length: u32,
    pub count: int,
    /// Where the first entry starts.
    pub entries: int,
    /// Whether each entry is preceded by its own 32-bit length.
    pub explicit_lengths: bool,
}

/// Sample group description box: the entries of a sample grouping.
pub struct SampleGroupDescriptionBox {
    pub grouping_type: BoxType,
    pub default_length: u32,
    pub entries: Vec<SampleGroup>,
}

impl SampleGroupDescriptionBox {
    /// The layout of the box at `p`: version 1 stores a default length (each entry carries
    /// its own when it is 0), versions above 1 a default description index.
    pub open spec fn layout(s: Seq<u8>, p: int) -> SgpdLayout {
        let version = s[p];
        let default_length: u32 = if version == 1 {
            be32(s, p + 8)
        } else {
            0
        };
        let count_at = p + 8 + (if version == 1 {
            4int
        } else {
            0int
        }) + (if version >= 2 {
            4int
        } else {
            0int
        });
        SgpdLayout {
            version,
            grouping_type: BoxType(le32(s, p + 4)),
            default_length,
            count: be32(s, count_at) as int,
            entries: count_at + 4,
            explicit_lengths: version == 1 && default_length == 0,
        }
    }

    /// Bytes per entry: an optional length and the entry itself.
    pub open spec fn entry_len(l: SgpdLayout) -> int {
        (if l.explicit_lengths {
            4int
        } else {
            0int
        }) + 2
    }

    /// Where entry `i` itself (after its optional length) starts.
    pub open spec fn entry_at(l: SgpdLayout, i: int) -> int {
        l.entries + Self::entry_len(l) * i + (if l.explicit_lengths {
            4int
        } else {
            0int
        })
    }

    /// Where parsing the payload at `p` ends, if it succeeds.
    pub open spec fn spec_end(s: Seq<u8>, p: int) -> Option<int> {
        if p < 0 || p + 8 > s.len() {
            None
        } else {
            let l = Self::layout(s, p);
            let end = l.entries + Self::entry_len(l) * l.count;
            if l.entries > s.len() || end > s.len() || (l.count > 0 && l.grouping_type.0
                != super::sample_groups::ROLL) {
                None
            } else {
                Some(end)
            }
        }
    }

    /// The box holds the entries stored at `p`.
    pub open spec fn parsed_from(&self, s: Seq<u8>, p: int) -> bool {
        let l = Self::layout(s, p);
        &&& self.grouping_type == l.grouping_type
        &&& self.default_length == l.default_length
        &&& self.entries@.len() == l.count
        &&& forall|i: int|
            0 <= i < self.entries@.len() ==> Some((#[trigger] self.entries@[i], Self::entry_at(l, i)
                + 2)) == SampleGroup::spec_parse(s, Self::entry_at(l, i), l.grouping_type)
    }

    /// Parses the payload of a `sgpd` box.
    pub fn parse(stream: &mut BoxStream, size: usize) -> (r: Result<Self, Error>)
        requires
            old(stream).wf(),
        ensures
            old(stream).same_bytes(*final(stream)),
            r is Ok <==> Self::spec_end(old(stream).bytes(), old(stream).position()) is Some,
            r matches Ok(b) ==> Some(final(stream).position()) == Self::spec_end(
                old(stream).bytes(),
                old(stream).position(),
            ) && b.parsed_from(old(stream).bytes(), old(stream).position()),
            r matches Err(e) ==> e.is_io(),
    {
        let ghost s = old(stream).bytes();
        let ghost p = old(stream).position();
        let (version, _) = stream.read_box_version_flag_header()?;
        let grouping_type = stream.read_box_type()?;
        let default_length = if version == 1 {
            stream.read_u32()?
        } else {
            0
        };
        if version >= 2 {
            stream.skip_bytes(4)?;
        }
        let entry_count = stream.read_u32()?;
        let ghost l = Self::layout(s, p);
        let ghost k = Self::entry_len(l);
        let mut entries: Vec<SampleGroup> = Vec::new();
        let mut i: u32 = 0;
        while i < entry_count
            invariant
                old(stream).same_bytes(*stream),
                s == old(stream).bytes(),
                p == old(stream).position(),
                0 <= p,
                p + 8 <= s.len(),
                l == Self::layout(s, p),
                k == Self::entry_len(l),
                l.entries <= s.len(),
                entry_count == l.count,
                grouping_type == l.grouping_type,
                l.explicit_lengths == (version == 1 && default_length == 0),
                default_length == l.default_length,
                i <= entry_count,
                i > 0 ==> grouping_type.0 == super::sample_groups::ROLL,
                entries@.len() == i,
                stream.position() == l.entries + k * i,
                forall|j: int|
                    0 <= j < i ==> Some((#[trigger] entries@[j], Self::entry_at(l, j) + 2))
                        == SampleGroup::spec_parse(s, Self::entry_at(l, j), l.grouping_type),
            decreases entry_count - i,
        {
            proof {
                assert(k * (i + 1) == k * i + k) by (nonlinear_arith);
                assert(k * (i + 1) <= k * entry_count) by (nonlinear_arith)
                    requires
                        i + 1 <= entry_count,
                        k >= 0,
                ;
            }
            let description_length = if version == 1 && default_length == 0 {
                stream.read_u32()? as usize
            } else {
                default_length as usize
            };
            let entry = SampleGroup::parse(stream, grouping_type, description_length)?;
            entries.push(entry);
            i = i + 1;
        }
        Ok(SampleGroupDescriptionBox { grouping_type, default_length, entries })
    }
}

} // verus!
