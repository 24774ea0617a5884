use vstd::prelude::*;
use crate::errors::Error;
use crate::parsing::utils::box_stream::{BoxStream, be32};

verus! {

/// `stco`
pub const STCO: u32 = 0x6f637473;

/// Chunk offset box.
pub struct ChunkOffsetBox {
    pub chunk_offsets: Vec<u32>,
}

impl ChunkOffsetBox {
    /// Number of offsets stored by the box at `p` (only version 0 stores them).
    pub open spec fn stored_count(s: Seq<u8>, p: int) -> int {
        if s[p] == 0 {
            be32(s, p + 4) as int
        } else {
            0
        }
    }

    /// Where parsing the payload at `p` ends, if it succeeds.
    pub open spec fn spec_end(s: Seq<u8>, p: int) -> Option<int> {
        if p + 8 > s.len() || p + 8 + 4 * Self::stored_count(s, p) > s.len() {
            None
        } else {
            Some(p + 8 + 4 * Self::stored_count(s, p))
        }
    }

    /// The box holds the offsets stored at `p`.
    pub open spec fn parsed_from(&self, s: Seq<u8>, p: int) -> bool {
        &&& self.chunk_offsets@.len() == Self::stored_count(s, p)
        &&& forall|i: int|
            0 <= i < self.chunk_offsets@.len() ==> #[trigger] self.chunk_offsets@[i] == be32(
                s,
                p + 8 + 4 * i,
            )
    }

    /// Parses the payload of a `stco` box.
    pub fn parse(stream: &mut BoxStream, size: usize) -> (r: Result<Self, Error>)
        requires
            old(stream).wf(),
        ensures
            old(stream).same_bytes(*final(stream)),
            r is Ok <==> Self::spec_end(old(stream).bytes(), old(stream).position()) is Some,
            r matches Ok(b) ==> Some(final(stream).position()) == Self::spec_end(
                old(stream).bytes(),
                old(stream).position(),
            ) && b.parsed_from(old(stream).bytes(), old(stream).position()),
            r matches Err(e) ==> e.is_io(),
    {
        let ghost s = old(stream).bytes();
        let ghost p = old(stream).position();
        let (version, _) = stream.read_box_version_flag_header()?;
        let entry_count = stream.read_u32()?;
        let mut chunk_offsets: Vec<u32> = Vec::new();
        if version == 0 {
            let mut i: u32 = 0;
            while i < entry_count
                invariant
                    stream.wf(),
                    s == old(stream).bytes(),
                    p == old(stream).position(),
                    stream.bytes() == s,
                    0 <= p,
                    p + 8 <= s.len(),
                    s[p] == 0,
                    entry_count == be32(s, p + 4),
                    i <= entry_count,
                    chunk_offsets@.len() == i,
                    stream.position() == p + 8 + 4 * i,
                    forall|j: int|
                        0 <= j < chunk_offsets@.len() ==> #[trigger] chunk_offsets@[j] == be32(
                            s,
                            p + 8 + 4 * j,
                        ),
                decreases entry_count - i,
            {
                let v = stream.read_u32()?;
                chunk_offsets.push(v);
                i = i + 1;
            }
        }
        Ok(ChunkOffsetBox { chunk_offsets })
    }
}

} // verus!
