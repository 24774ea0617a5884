use vstd::prelude::*;
use crate::errors::{Error, io_error};
use crate::parsing::descriptor::{ESDescriptor, TAG_ES, parse_descriptor_header, spec_descriptor_header};
use crate::parsing::utils::box_stream::BoxStream;

verus! {

/// `esds`
pub const ESDS: u32 = 0x73647365;

/// Elementary stream descriptor box: wraps the stream's elementary stream descriptor.
pub struct ElementaryStreamDescriptorBox {
    pub descriptor: ESDescriptor,
}

impl ElementaryStreamDescriptorBox {
    /// Where parsing a payload of `size` bytes at `p` ends, if it succeeds: after the full
    /// box header an elementary stream descriptor must follow, and the rest of the payload
    /// is skipped.
    pub open spec fn spec_end(s: Seq<u8>, p: int, size: int) -> Option<int> {
        if p < 0 || p + 4 > s.len() || size < 4 {
            None
        } else {
            match spec_descriptor_header(s, p + 4) {
                Some((tag, dsz, h)) => if tag != TAG_ES {
                    None
                } else {
                    match ESDescriptor::spec_end(s, p + 4 + h, dsz as int) {
                        Some(q) => if q - (p + 4) > size - 4 || p + size > s.len() {
                            None
                        } else {
                            Some(p + size)
                        },
                        None => None,
                    }
                },
                None => None,
            }
        }
    }

    /// The box holds the descriptor stored at `p`.
    pub open spec fn parsed_from(&self, s: Seq<u8>, p: int, size: int) -> bool {
        spec_descriptor_header(s, p + 4) matches Some((_, dsz, h)) && self.descriptor.parsed_from(
            s,
            p + 4 + h,
            dsz as int,
        )
    }

    /// Parses the payload of an `esds` box of `size` bytes.
    pub fn parse(stream: &mut BoxStream, size: usize) -> (r: Result<Self, Error>)
        requires
            old(stream).wf(),
        ensures
            old(stream).same_bytes(*final(stream)),
            r is Ok <==> Self::spec_end(old(stream).bytes(), old(stream).position(), size as int)
                is Some,
            r matches Ok(b) ==> Some(final(stream).position()) == Self::spec_end(
                old(stream).bytes(),
                old(stream).position(),
                size as int,
            ) && b.parsed_from(old(stream).bytes(), old(stream).position(), size as int),
            r matches Err(e) ==> e.is_io(),
    {
        let _ = stream.read_box_version_flag_header()?;
        if size < 4 {
            return Err(io_error("invalid box size"));
        }
        let rest = size - 4;
        let (tag, desc_size, hdr_size) = parse_descriptor_header(stream)?;
        if tag != TAG_ES {
            return Err(io_error("ESDescriptor not found"));
        }
        let (descriptor, consumed) = ESDescriptor::parse(stream, desc_size)?;
        if consumed > rest || hdr_size > rest - consumed {
            return Err(io_error("invalid box size"));
        }
        stream.skip_bytes(rest - hdr_size - consumed)?;
        Ok(ElementaryStreamDescriptorBox { descriptor })
    }

    /// The elementary stream descriptor.
    pub fn get_es_descriptor(&self) -> (r: &ESDescriptor)
        ensures
            r == &self.descriptor,
    {
        &self.descriptor
    }
}

} // verus!
