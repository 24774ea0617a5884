use vstd::prelude::*;
use crate::errors::{Error, io_error};
use super::container::{ROOT, Slot, allowed, box_parsed_from, child_end, parse_child, spec_context_prefix};
use super::mp4box::MP4Box;
use super::utils::box_stream::{BoxStream, spec_box_header};

verus! {

/// The top-level box at `p`: its slot (type, payload start and size) and where it ends.
pub open spec fn spec_parse_box(s: Seq<u8>, p: int) -> Option<(Slot, int)> {
    match spec_box_header(s, p, 0) {
        Some((typ, bs, h)) => if bs < h {
            None
        } else {
            match child_end(s, p + h, ROOT, typ.0, bs - h) {
                Some(e) => Some((Slot { typ: typ.0, start: p + h, size: bs - h }, e)),
                None => None,
            }
        },
        None => None,
    }
}

/// Parses one top-level box: `ftyp`, `free`, `moov`, `sidx`, `moof` or `mdat`.
pub fn parse_box(stream: &mut BoxStream) -> (r: Result<MP4Box, Error>)
    requires
        old(stream).wf(),
    ensures
        old(stream).same_bytes(*final(stream)),
        r is Ok <==> spec_parse_box(old(stream).bytes(), old(stream).position()) is Some,
        r matches Ok(b) ==> spec_parse_box(old(stream).bytes(), old(stream).position()) matches Some(
            (slot, e),
        ) && final(stream).position() == e && b.kind() == slot.typ && box_parsed_from(
            &b,
            old(stream).bytes(),
            slot.start,
            slot.size,
        ),
        r matches Err(e) ==> e.is_io(),
        spec_box_header(old(stream).bytes(), old(stream).position(), 0) matches Some((typ, bs, h))
            ==> (bs >= h && !allowed(ROOT, typ.0) ==> (r matches Err(e) && e.message()
            == spec_context_prefix(ROOT) + typ.spec_chars()) && final(stream).position()
            == old(stream).position() + h),
{
    let (typ, size, hdr_size) = stream.read_box_common_header(0)?;
    if size < hdr_size {
        return Err(io_error("invalid box size"));
    }
    parse_child(stream, ROOT, typ, size - hdr_size)
}

} // verus!
