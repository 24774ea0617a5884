use vstd::prelude::*;
use crate::errors::{Error, io_error};
use crate::parsing::container::{
    ContainerBox, MOOV, ROOT, Slot, child_end, container_parsed_from, leaf_end,
};
use crate::parsing::enter::{parse_box, spec_parse_box};
use crate::parsing::mp4box::MP4Box;
use crate::parsing::spec::free::FREE;
use crate::parsing::lookup::lemma_top_parsed;
use crate::parsing::spec::ftyp::{FTYP, FileTypeBox};
use crate::parsing::utils::box_stream::{BoxStream, spec_box_header};

verus! {

/// The `moov` box met first when reading top-level boxes from `p` on, where only `free`
/// boxes may stand before it.
pub open spec fn moov_from(s: Seq<u8>, p: int) -> Option<Slot>
    decreases s.len() - p,
{
    match spec_parse_box(s, p) {
        Some((slot, e)) => if slot.typ == MOOV {
            Some(slot)
        } else if slot.typ == FREE && p < e <= s.len() {
            moov_from(s, e)
        } else {
            None
        },
        None => None,
    }
}

/// The `ftyp` box that opens an initialization segment, and the `moov` box after it.
pub open spec fn init_boxes(s: Seq<u8>) -> Option<(Slot, Slot)> {
    match spec_parse_box(s, 0) {
        Some((f, e)) => if f.typ == FTYP {
            match moov_from(s, e) {
                Some(m) => Some((f, m)),
                None => None,
            }
        } else {
            None
        },
        None => None,
    }
}

/// `init_boxes` is the `ftyp` box at the start and the `moov` box found from where it
/// ends.
proof fn lemma_init_boxes(s: Seq<u8>, e: int)
    requires
        spec_parse_box(s, 0) matches Some((f, e0)) && f.typ == FTYP && e0 == e,
    ensures
        init_boxes(s) == (match moov_from(s, e) {
            Some(m) => Some((spec_parse_box(s, 0).unwrap().0, m)),
            None => None,
        }),
{
}

/// A top-level `free` box ends after it starts, within the bytes.
proof fn lemma_free_advances(s: Seq<u8>, p: int)
    requires
        spec_parse_box(s, p) matches Some((slot, _)) && slot.typ == FREE,
    ensures
        spec_parse_box(s, p) matches Some((_, e)) && p < e <= s.len(),
{
    reveal(leaf_end);
    let (typ, bs, h) = spec_box_header(s, p, 0).unwrap();
    assert(child_end(s, p + h, ROOT, typ.0, bs - h) == leaf_end(s, p + h, typ.0, bs - h));
}

/// Reads a top-level box that must be a `ftyp` box.
pub fn read_file_type(stream: &mut BoxStream) -> (r: Result<FileTypeBox, Error>)
    requires
        old(stream).wf(),
    ensures
        old(stream).same_bytes(*final(stream)),
        r is Ok <==> (spec_parse_box(old(stream).bytes(), old(stream).position()) matches Some(
            (slot, _),
        ) && slot.typ == FTYP),
        r matches Ok(f) ==> spec_parse_box(old(stream).bytes(), old(stream).position()) matches Some(
            (slot, e),
        ) && final(stream).position() == e && f.parsed_from(
            old(stream).bytes(),
            slot.start,
            slot.size,
        ),
        r matches Err(e) ==> e.is_io(),
{
    let ghost s = old(stream).bytes();
    let ghost p = old(stream).position();
    let first = parse_box(stream)?;
    proof {
        let (slot, _) = spec_parse_box(s, p).unwrap();
        lemma_top_parsed(first, s, slot.start, slot.size);
    }
    match first.into_file_type() {
        Some(f) => Ok(f),
        None => Err(io_error("cannot get FTYP")),
    }
}

/// Reads top-level boxes, skipping `free` ones, up to the first `moov` box.
pub fn find_moov(stream: &mut BoxStream) -> (r: Result<ContainerBox, Error>)
    requires
        old(stream).wf(),
    ensures
        old(stream).same_bytes(*final(stream)),
        r is Ok <==> moov_from(old(stream).bytes(), old(stream).position()) is Some,
        r matches Ok(c) ==> moov_from(old(stream).bytes(), old(stream).position()) matches Some(
            slot,
        ) && slot.typ == MOOV && container_parsed_from(
            &c,
            old(stream).bytes(),
            slot.start,
            slot.size,
            MOOV,
        ),
        r matches Err(e) ==> e.is_io(),
{
    let ghost s = old(stream).bytes();
    let ghost p0 = old(stream).position();
    loop
        invariant
            stream.wf(),
            stream.bytes() == s,
            old(stream).bytes() == s,
            old(stream).position() == p0,
            p0 <= stream.position(),
            moov_from(s, stream.position()) == moov_from(s, p0),
        decreases s.len() - stream.position(),
    {
        let ghost p = stream.position();
        let b = parse_box(stream)?;
        match b {
            MP4Box::FreeSpace(_) => {
                proof {
                    lemma_free_advances(s, p);
                }
            },
            MP4Box::CompressedMovie(c) => {
                return Ok(c);
            },
            _ => {
                return Err(io_error("cannot find moov box"));
            },
        }
    }
}

/// The `ftyp` box at the start of an initialization segment and the first `moov` box
/// after it.
pub fn read_init(init: &[u8]) -> (r: Result<(FileTypeBox, ContainerBox), Error>)
    ensures
        r is Ok <==> init_boxes(init@) is Some,
        r matches Ok((f, m)) ==> init_boxes(init@) matches Some((fs, ms)) && f.parsed_from(
            init@,
            fs.start,
            fs.size,
        ) && ms.typ == MOOV && container_parsed_from(&m, init@, ms.start, ms.size, MOOV),
        r matches Err(e) ==> e.is_io(),
{
    let ghost s = init@;
    let mut stream = BoxStream::new(init);
    let file_type = read_file_type(&mut stream)?;
    let ghost e = stream.position();
    let moov = find_moov(&mut stream)?;
    proof {
        lemma_init_boxes(s, e);
    }
    Ok((file_type, moov))
}

} // verus!
