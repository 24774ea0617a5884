use vstd::prelude::*;
use crate::errors::{Error, io_error, io_error_with_type};
use crate::parsing::utils::box_stream::{BoxStream, be16, be32, spec_box_header};
use super::esds::{ESDS, ElementaryStreamDescriptorBox};

verus! {

/// `mp4a`
pub const MP4A: u32 = 0x6134706d;

/// Audio sample entry (`mp4a`): channel count, sample size and rate, and the elementary
/// stream descriptor box that follows them.
pub struct AudioSampleBox {
    pub data_reference_header: u16,
    pub channel_count: u16,
    pub sample_size: u16,
    pub sample_rate: u32,
    pub footer: ElementaryStreamDescriptorBox,
}

impl AudioSampleBox {
    /// Where the child box of the entry at `p` starts, its payload size, and whether it is
    /// an `esds` box.
    pub open spec fn child(s: Seq<u8>, p: int, size: int) -> Option<(int, int, bool)> {
        match spec_box_header(s, p + 28, (size - 28) as usize) {
            Some((typ, bs, h)) => if bs < h {
                None
            } else {
                Some((p + 28 + h, bs - h, typ.0 == ESDS))
            },
            None => None,
        }
    }

    /// Where parsing a payload of `size` bytes at `p` ends, if it succeeds.
    pub open spec fn spec_end(s: Seq<u8>, p: int, size: int) -> Option<int> {
        if p < 0 || p + 28 > s.len() || size < 28 {
            None
        } else {
            match Self::child(s, p, size) {
                Some((c, csize, true)) => ElementaryStreamDescriptorBox::spec_end(s, c, csize),
                _ => None,
            }
        }
    }

    /// The entry holds the fields stored at `p`.
    pub open spec fn parsed_from(&self, s: Seq<u8>, p: int, size: int) -> bool {
        &&& self.data_reference_header == be16(s, p + 6)
        &&& self.channel_count == be16(s, p + 16)
        &&& self.sample_size == be16(s, p + 18)
        &&& self.sample_rate == be32(s, p + 24) / 0x10000
        &&& Self::child(s, p, size) matches Some((c, csize, _)) && self.footer.parsed_from(
            s,
            c,
            csize,
        )
    }

    /// What an audio sample entry keeps after its six reserved bytes, its data reference
    /// index and eight more reserved bytes: the 16-bit channel count at byte 16, the 16-bit
    /// sample size at byte 18, and at byte 24 the sample rate as a 16.16 fixed-point
    /// number, whose integer part is the rate.
    pub proof fn lemma_entry_layout(b: Self, s: Seq<u8>, p: int, size: int)
        requires
            b.parsed_from(s, p, size),
        ensures
            b.channel_count == be16(s, p + 16),
            b.sample_size == be16(s, p + 18),
            b.sample_rate * 0x10000 <= be32(s, p + 24) < (b.sample_rate + 1) * 0x10000,
    {
    }

    /// Parses the payload of an `mp4a` sample entry of `size` bytes.
    pub fn parse(stream: &mut BoxStream, size: usize) -> (r: Result<Self, Error>)
        requires
            old(stream).wf(),
        ensures
            old(stream).same_bytes(*final(stream)),
            r is Ok <==> Self::spec_end(old(stream).bytes(), old(stream).position(), size as int)
                is Some,
            r matches Ok(b) ==> Some(final(stream).position()) == Self::spec_end(
                old(stream).bytes(),
                old(stream).position(),
                size as int,
            ) && b.parsed_from(old(stream).bytes(), old(stream).position(), size as int),
            r matches Err(e) ==> e.is_io(),
    {
        let data_reference_header = stream.read_sample_header()?;
        stream.skip_bytes(8)?;
        let channel_count = stream.read_u16()?;
        let sample_size = stream.read_u16()?;
        stream.skip_bytes(4)?;
        let sample_rate = stream.read_u32()? / 0x10000;
        if size < 28 {
            return Err(io_error("invalid box size"));
        }
        let rest = size - 28;
        let (typ, box_size, hdr_size) = stream.read_box_common_header(rest)?;
        if box_size < hdr_size {
            return Err(io_error("invalid box size"));
        }
        if typ.0 != ESDS {
            return Err(io_error_with_type("unknown dref box type: ", typ));
        }
        let footer = ElementaryStreamDescriptorBox::parse(stream, box_size - hdr_size)?;
        Ok(AudioSampleBox { data_reference_header, channel_count, sample_size, sample_rate, footer })
    }

    /// The elementary stream descriptor box of the entry.
    pub fn get_elementary_stream_descriptor(&self) -> (r: &ElementaryStreamDescriptorBox)
        ensures
            r == &self.footer,
    {
        &self.footer
    }
}

} // verus!
