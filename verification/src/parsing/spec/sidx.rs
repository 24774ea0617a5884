use vstd::prelude::*;
use crate::errors::Error;
use crate::parsing::utils::box_stream::{BoxStream, be16, be32, be64};

verus! {

/// `sidx`
pub const SIDX: u32 = 0x78646973;

/// One entry of a segment index: a subsegment of the media.
#[derive(Clone, Copy, Debug, PartialEq, Eq, Structural)]
pub struct Reference {
    pub reference_type: u8,
    pub references_size: u32,
    pub subsegment_duration: u32,
    pub starts_with_sap: u8,
    pub sap_type: u8,
    pub sap_delta_time: u32,
}

impl Reference {
    /// The entry stored as the three 32-bit words `a`, `duration` and `b`.
    pub open spec fn spec_decode(a: u32, duration: u32, b: u32) -> Reference {
        Reference {
            reference_type: (a / 0x8000_0000) as u8,
            references_size: a % 0x8000_0000,
            subsegment_duration: duration,
            starts_with_sap: (b / 0x8000_0000) as u8,
            sap_type: (b / 0x1000_0000 % 8) as u8,
            sap_delta_time: b % 0x100_0000,
        }
    }

    /// Splits the three 32-bit words of an entry into its fields.
    pub fn decode(a: u32, duration: u32, b: u32) -> (r: Reference)
        ensures
            r == Self::spec_decode(a, duration, b),
    {
        proof {
            lemma_reference_bits(a, b);
        }
        Reference {
            reference_type: ((a >> 31u32) & 0x01) as u8,
            references_size: a & 0x7fff_ffff,
            subsegment_duration: duration,
            starts_with_sap: ((b >> 31u32) & 0x01) as u8,
            sap_type: ((b >> 28u32) & 0x07) as u8,
            sap_delta_time: b & 0x00ff_ffff,
        }
    }

    /// The size of the subsegment in bytes.
    pub fn get_references_size(&self) -> (r: u32)
        ensures
            r == self.references_size,
    {
        self.references_size
    }

    /// The duration of the subsegment in time units.
    pub fn get_subsegment_duration(&self) -> (r: u32)
        ensures
            r == self.subsegment_duration,
    {
        self.subsegment_duration
    }
}

/// An entry's first word is its reference type (the top bit) above its size (the other 31
/// bits); its second word is its duration; its third word is, from the top, the
/// starts-with-SAP bit, the three bits of the SAP type, four bits left unread and the 24
/// bits of the SAP delta time.
pub proof fn lemma_reference_words(a: u32, duration: u32, b: u32)
    ensures
        ({
            let r = Reference::spec_decode(a, duration, b);
            &&& r.reference_type <= 1 && r.references_size < 0x8000_0000
            &&& r.reference_type * 0x8000_0000 + r.references_size == a
            &&& r.subsegment_duration == duration
            &&& r.starts_with_sap <= 1 && r.sap_type < 8 && r.sap_delta_time < 0x100_0000
            &&& r.starts_with_sap * 0x8000_0000 + r.sap_type * 0x1000_0000 + (b / 0x100_0000 % 16)
                * 0x100_0000 + r.sap_delta_time == b
        }),
{
    let r = Reference::spec_decode(a, duration, b);
    assert(r.reference_type * 0x8000_0000 + r.references_size == a) by (nonlinear_arith)
        requires
            r.reference_type == a / 0x8000_0000,
            r.references_size == a % 0x8000_0000,
            a < 0x1_0000_0000,
    ;
    assert(r.starts_with_sap * 0x8000_0000 + r.sap_type * 0x1000_0000 + (b / 0x100_0000 % 16)
        * 0x100_0000 + r.sap_delta_time == b) by (nonlinear_arith)
        requires
            r.starts_with_sap == b / 0x8000_0000,
            r.sap_type == b / 0x1000_0000 % 8,
            r.sap_delta_time == b % 0x100_0000,
            b < 0x1_0000_0000,
    ;
}

/// The shifts and masks that split an entry agree with division and remainder.
proof fn lemma_reference_bits(a: u32, b: u32)
    by (bit_vector)
    ensures
        (a >> 31u32) & 0x01 == a / 0x8000_0000,
        a & 0x7fff_ffff == a % 0x8000_0000,
        (b >> 31u32) & 0x01 == b / 0x8000_0000,
        (b >> 28u32) & 0x07 == b / 0x1000_0000 % 8,
        b & 0x00ff_ffff == b % 0x100_0000,
{
}

/// Segment index box: the subsegments of a media stream and where they lie.
pub struct CompressedSegmentIndexBox {
    pub reference_id: u32,
    pub timescale: u32,
    pub earliest_presentation_time: u64,
    pub first_offset: u64,
    pub references: Vec<Reference>,
}

impl CompressedSegmentIndexBox {
    /// Where the entry count of the box at `p` is stored (after its two times).
    pub open spec fn count_pos(s: Seq<u8>, p: int) -> int {
        if s[p] == 0 {
            p + 22
        } else {
            p + 30
        }
    }

    /// Number of entries of the box at `p`.
    pub open spec fn entry_count(s: Seq<u8>, p: int) -> int {
        be16(s, Self::count_pos(s, p)) as int
    }

    /// Where entry `i` of the box at `p` is stored.
    pub open spec fn entry_pos(s: Seq<u8>, p: int, i: int) -> int {
        Self::count_pos(s, p) + 2 + 12 * i
    }

    /// Where parsing the payload at `p` ends, if it succeeds.
    pub open spec fn spec_end(s: Seq<u8>, p: int) -> Option<int> {
        if p < 0 || p + 4 > s.len() || Self::count_pos(s, p) + 2 > s.len() || Self::entry_pos(
            s,
            p,
            Self::entry_count(s, p),
        ) > s.len() {
            None
        } else {
            Some(Self::entry_pos(s, p, Self::entry_count(s, p)))
        }
    }

    /// The entry stored at index `i`.
    pub open spec fn spec_entry(s: Seq<u8>, p: int, i: int) -> Reference {
        let e = Self::entry_pos(s, p, i);
        Reference::spec_decode(be32(s, e), be32(s, e + 4), be32(s, e + 8))
    }

    /// The box holds the fields stored at `p`.
    pub open spec fn parsed_from(&self, s: Seq<u8>, p: int) -> bool {
        &&& self.reference_id == be32(s, p + 4)
        &&& self.timescale == be32(s, p + 8)
        &&& self.earliest_presentation_time == (if s[p] == 0 {
            be32(s, p + 12) as u64
        } else {
            be64(s, p + 12)
        })
        &&& self.first_offset == (if s[p] == 0 {
            be32(s, p + 16) as u64
        } else {
            be64(s, p + 20)
        })
        &&& self.references@.len() == Self::entry_count(s, p)
        &&& forall|i: int|
            0 <= i < self.references@.len() ==> #[trigger] self.references@[i] == Self::spec_entry(
                s,
                p,
                i,
            )
    }

    /// Parses the payload of a `sidx` box.
    pub fn parse(stream: &mut BoxStream, size: usize) -> (r: Result<Self, Error>)
        requires
            old(stream).wf(),
        ensures
            old(stream).same_bytes(*final(stream)),
            r is Ok <==> Self::spec_end(old(stream).bytes(), old(stream).position()) is Some,
            r matches Ok(b) ==> Some(final(stream).position()) == Self::spec_end(
                old(stream).bytes(),
                old(stream).position(),
            ) && b.parsed_from(old(stream).bytes(), old(stream).position()),
            r matches Err(e) ==> e.is_io(),
    {
        let ghost s = old(stream).bytes();
        let ghost p = old(stream).position();
        let (version, _) = stream.read_box_version_flag_header()?;
        let reference_id = stream.read_u32()?;
        let timescale = stream.read_u32()?;
        let (earliest_presentation_time, first_offset) = if version == 0 {
            let t = stream.read_u32()? as u64;
            let o = stream.read_u32()? as u64;
            (t, o)
        } else {
            let t = stream.read_u64()?;
            let o = stream.read_u64()?;
            (t, o)
        };
        stream.skip_bytes(2)?;
        let reference_count = stream.read_u16()?;
        let mut references: Vec<Reference> = Vec::new();
        let mut i: u16 = 0;
        while i < reference_count
            invariant
                stream.wf(),
                s == old(stream).bytes(),
                p == old(stream).position(),
                stream.bytes() == s,
                0 <= p,
                Self::count_pos(s, p) + 2 <= s.len(),
                reference_count == Self::entry_count(s, p),
                i <= reference_count,
                references@.len() == i,
                stream.position() == Self::entry_pos(s, p, i as int),
                forall|j: int|
                    0 <= j < references@.len() ==> #[trigger] references@[j] == Self::spec_entry(
                        s,
                        p,
                        j,
                    ),
            decreases reference_count - i,
        {
            let a = stream.read_u32()?;
            let duration = stream.read_u32()?;
            let b = stream.read_u32()?;
            references.push(Reference::decode(a, duration, b));
            i = i + 1;
        }
        Ok(
            CompressedSegmentIndexBox {
                reference_id,
                timescale,
                earliest_presentation_time,
                first_offset,
                references,
            },
        )
    }

    /// The offset of the first subsegment stored in the box at `p`.
    pub open spec fn spec_first_offset(s: Seq<u8>, p: int) -> u64 {
        if s[p] == 0 {
            be32(s, p + 16) as u64
        } else {
            be64(s, p + 20)
        }
    }

    /// The entries stored in the box at `p`.
    pub open spec fn spec_references(s: Seq<u8>, p: int) -> Seq<Reference> {
        Seq::new(Self::entry_count(s, p) as nat, |i: int| Self::spec_entry(s, p, i))
    }

    /// The box at `p` holds the offset and the entries stored there.
    pub proof fn lemma_parsed_fields(&self, s: Seq<u8>, p: int)
        requires
            self.parsed_from(s, p),
        ensures
            self.first_offset == Self::spec_first_offset(s, p),
            self.references@ == Self::spec_references(s, p),
    {
        assert(self.references@ =~= Self::spec_references(s, p));
    }

    /// The first and last byte of subsegment `index`, when the offsets of the index count
    /// from `offset`: the subsegments follow each other from `offset + first_offset + 1`
    /// on, each as long as its size. Indexes past the last subsegment give nothing.
    pub fn get_reference(&self, offset: usize, index: usize) -> (r: Option<((usize, usize), &Reference)>)
        requires
            offset + self.first_offset <= usize::MAX,
            index < self.references@.len() ==> offset + self.first_offset + size_sum(
                self.references@,
                index + 1,
            ) + 1 <= usize::MAX,
        ensures
            r is Some <==> index < self.references@.len(),
            r matches Some((range, entry)) ==> range == reference_range(
                offset + self.first_offset,
                self.references@,
                index as int,
            ) && *entry == self.references@[index as int],
    {
        let base = offset + self.first_offset as usize;
        if index >= self.references.len() {
            return None;
        }
        let mut end = base;
        let mut i: usize = 0;
        while i < index
            invariant
                i <= index < self.references@.len(),
                end == base + size_sum(self.references@, i as int),
                base == offset + self.first_offset,
                base + size_sum(self.references@, index + 1) + 1 <= usize::MAX,
            decreases index - i,
        {
            proof {
                lemma_size_sum_monotone(self.references@, i + 1, index + 1);
            }
            end = end + self.references[i].references_size as usize;
            i = i + 1;
        }
        let reference = &self.references[index];
        let begin = end + 1;
        let last = begin + reference.references_size as usize - 1;
        Some(((begin, last), reference))
    }

    /// Number of subsegments.
    pub fn count(&self) -> (r: usize)
        ensures
            r == self.references@.len(),
    {
        self.references.len()
    }

    /// Offset of the first subsegment after the end of the index.
    pub fn get_first_offset(&self) -> (r: u64)
        ensures
            r == self.first_offset,
    {
        self.first_offset
    }

    /// The subsegment entries.
    pub fn get_references(&self) -> (r: &[Reference])
        ensures
            r@ == self.references@,
    {
        self.references.as_slice()
    }
}

/// Where a segment index box keeps its two times: after the version and flags (4 bytes),
/// the reference id and the time scale (4 bytes each), the earliest presentation time
/// comes first and the offset of the first subsegment second, each 32 bits wide in
/// version 0 and 64 bits wide in any other version.
pub proof fn lemma_index_times_layout(b: CompressedSegmentIndexBox, s: Seq<u8>, p: int)
    requires
        b.parsed_from(s, p),
    ensures
        s[p] == 0 ==> b.earliest_presentation_time == be32(s, p + 12) && b.first_offset == be32(
            s,
            p + 16,
        ),
        s[p] != 0 ==> b.earliest_presentation_time == be64(s, p + 12) && b.first_offset == be64(
            s,
            p + 20,
        ),
        b.first_offset == CompressedSegmentIndexBox::spec_first_offset(s, p),
{
}

/// Total size in bytes of the first `n` subsegments.
pub open spec fn size_sum(refs: Seq<Reference>, n: int) -> int
    decreases n,
{
    if n <= 0 {
        0
    } else {
        size_sum(refs, n - 1) + refs[n - 1].references_size
    }
}

/// Total duration of the first `n` subsegments.
pub open spec fn duration_sum(refs: Seq<Reference>, n: int) -> int
    decreases n,
{
    if n <= 0 {
        0
    } else {
        duration_sum(refs, n - 1) + refs[n - 1].subsegment_duration
    }
}

/// The first and last byte of subsegment `i` when the subsegments follow each other
/// right after byte `base`.
pub open spec fn reference_range(base: int, refs: Seq<Reference>, i: int) -> (usize, usize) {
    ((base + size_sum(refs, i) + 1) as usize, (base + size_sum(refs, i + 1)) as usize)
}

/// Sizes only add up.
pub proof fn lemma_size_sum_monotone(refs: Seq<Reference>, i: int, j: int)
    requires
        i <= j,
    ensures
        size_sum(refs, i) <= size_sum(refs, j),
    decreases j - i,
{
    if i < j {
        lemma_size_sum_monotone(refs, i, j - 1);
    }
}

/// Durations only add up.
pub proof fn lemma_duration_sum_monotone(refs: Seq<Reference>, i: int, j: int)
    requires
        i <= j,
    ensures
        duration_sum(refs, i) <= duration_sum(refs, j),
    decreases j - i,
{
    if i < j {
        lemma_duration_sum_monotone(refs, i, j - 1);
    }
}

} // verus!
