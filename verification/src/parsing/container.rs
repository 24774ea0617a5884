use vstd::prelude::*;
use crate::errors::{Error, io_error, io_error_with_type};
use super::mp4box::MP4Box;
use super::spec::dref::{DREF, DataReferenceBox};
use super::spec::free::{FREE, FreeSpaceBox};
use super::spec::ftyp::{FTYP, FileTypeBox};
use super::spec::hdlr::{HDLR, HandlerBox};
use super::spec::mdat::{MDAT, MediaDataBox};
use super::spec::mdhd::{MDHD, MediaHeaderBox};
use super::spec::mfhd::{MFHD, MovieFragmentHeaderBox};
use super::spec::mvhd::{MVHD, MovieHeaderBox};
use super::spec::raw::{ELST, MEHD, META, SBGP, STSC, STSZ, STTS, UninterpretedBox};
use super::spec::sgpd::{SGPD, SampleGroupDescriptionBox};
use super::spec::sidx::{SIDX, CompressedSegmentIndexBox};
use super::spec::smhd::{SMHD, SoundMediaHeaderBox};
use super::spec::stco::{STCO, ChunkOffsetBox};
use super::spec::stsd::{STSD, SampleDescriptionBox};
use super::spec::tfdt::{TFDT, TrackFragmentBaseMediaDecodeTimeBox};
use super::spec::tfhd::{TFHD, TrackFragmentHeaderBox};
use super::spec::tkhd::{TKHD, TrackHeaderBox};
use super::spec::trep::{TREP, TrackExtensionPropertiesBox};
use super::spec::trex::{TREX, TrackExtendsBox};
use super::spec::trun::{TRUN, TrackRunBox};
use super::utils::box_stream::{BoxStream, spec_box_header};
use super::utils::box_type::BoxType;

verus! {

/// The top level of a file, which holds boxes but is no box itself.
pub const ROOT: u32 = 0;

/// `moov`
pub const MOOV: u32 = 0x766f6f6d;

/// `trak`
pub const TRAK: u32 = 0x6b617274;

/// `edts`
pub const EDTS: u32 = 0x73746465;

/// `mdia`
pub const MDIA: u32 = 0x6169646d;

/// `minf`
pub const MINF: u32 = 0x666e696d;

/// `dinf`
pub const DINF: u32 = 0x666e6964;

/// `stbl`
pub const STBL: u32 = 0x6c627473;

/// `mvex`
pub const MVEX: u32 = 0x7865766d;

/// `udta`
pub const UDTA: u32 = 0x61746475;

/// `moof`
pub const MOOF: u32 = 0x666f6f6d;

/// `traf`
pub const TRAF: u32 = 0x66617274;

/// The box types whose payload is a sequence of boxes.
pub open spec fn is_container(typ: u32) -> bool {
    typ == MOOV || typ == TRAK || typ == EDTS || typ == MDIA || typ == MINF || typ == DINF || typ
        == STBL || typ == MVEX || typ == UDTA || typ == MOOF || typ == TRAF
}

/// The box types that may stand in a container of type `ctyp` (or at the top level).
pub open spec fn allowed(ctyp: u32, typ: u32) -> bool {
    if ctyp == ROOT {
        typ == FTYP || typ == FREE || typ == MOOV || typ == SIDX || typ == MOOF || typ == MDAT
    } else if ctyp == MOOV {
        typ == TRAK || typ == MVEX || typ == MVHD || typ == UDTA
    } else if ctyp == TRAK {
        typ == EDTS || typ == MDIA || typ == TKHD
    } else if ctyp == EDTS {
        typ == ELST
    } else if ctyp == MDIA {
        typ == MINF || typ == MDHD || typ == HDLR
    } else if ctyp == MINF {
        typ == DINF || typ == STBL || typ == SMHD
    } else if ctyp == DINF {
        typ == DREF
    } else if ctyp == STBL {
        typ == STSD || typ == STTS || typ == STSC || typ == STSZ || typ == STCO || typ == SGPD
    } else if ctyp == MVEX {
        typ == MEHD || typ == TREX || typ == TREP
    } else if ctyp == UDTA {
        typ == META
    } else if ctyp == MOOF {
        typ == MFHD || typ == TRAF
    } else if ctyp == TRAF {
        typ == TFHD || typ == TFDT || typ == TRUN || typ == SBGP || typ == SGPD
    } else {
        false
    }
}

/// The end of a parse that gives a value and an end.
pub open spec fn end_of<T>(o: Option<(T, int)>) -> Option<int> {
    match o {
        Some((_, e)) => Some(e),
        None => None,
    }
}

/// Where parsing the payload of `size` bytes at `p` of a box of the (non-container) type
/// `typ` ends, if it succeeds.
#[verifier::opaque]
pub open spec fn leaf_end(s: Seq<u8>, p: int, typ: u32, size: int) -> Option<int> {
    if typ == FTYP {
        FileTypeBox::spec_end(s, p, size)
    } else if typ == FREE {
        FreeSpaceBox::spec_end(s, p, size)
    } else if typ == MDAT {
        MediaDataBox::spec_end(s, p, size)
    } else if typ == MVHD {
        end_of(MovieHeaderBox::spec_parse(s, p))
    } else if typ == TKHD {
        end_of(TrackHeaderBox::spec_parse(s, p))
    } else if typ == MDHD {
        end_of(MediaHeaderBox::spec_parse(s, p))
    } else if typ == SMHD {
        end_of(SoundMediaHeaderBox::spec_parse(s, p))
    } else if typ == MFHD {
        end_of(MovieFragmentHeaderBox::spec_parse(s, p))
    } else if typ == TFDT {
        end_of(TrackFragmentBaseMediaDecodeTimeBox::spec_parse(s, p))
    } else if typ == TREX {
        end_of(TrackExtendsBox::spec_parse(s, p))
    } else if typ == TFHD {
        end_of(TrackFragmentHeaderBox::spec_parse(s, p))
    } else if typ == TREP {
        end_of(TrackExtensionPropertiesBox::spec_parse(s, p, size))
    } else if typ == HDLR {
        HandlerBox::spec_end(s, p, size)
    } else if typ == STCO {
        ChunkOffsetBox::spec_end(s, p)
    } else if typ == SIDX {
        CompressedSegmentIndexBox::spec_end(s, p)
    } else if typ == STSD {
        SampleDescriptionBox::spec_end(s, p)
    } else if typ == DREF {
        DataReferenceBox::spec_end(s, p)
    } else if typ == SGPD {
        SampleGroupDescriptionBox::spec_end(s, p)
    } else if typ == TRUN {
        TrackRunBox::spec_end(s, p, size)
    } else {
        UninterpretedBox::spec_end(s, p, size)
    }
}

/// A child box of a container: its type, where its payload starts and the payload size.
pub struct Slot {
    pub typ: u32,
    pub start: int,
    pub size: int,
}

/// The children of a container of type `ctyp` whose payload of `size` bytes starts at
/// `q`, and where the last child ends. A size of 0 means that a single child is read.
/// Each child's header gives its size; the children's sizes must add up to the payload
/// size, and each child must be of a type the container admits.
pub open spec fn children(s: Seq<u8>, q: int, size: int, ctyp: u32) -> Option<(Seq<Slot>, int)>
    decreases s.len() - q, 1int,
{
    if q < 0 || size < 0 {
        None
    } else {
        match spec_box_header(s, q, size as usize) {
            None => None,
            Some((typ, bs, h)) => {
                let body = q + h;
                let psize = bs - h;
                if bs < h || body > s.len() {
                    None
                } else {
                    match child_end(s, body, ctyp, typ.0, psize) {
                        None => None,
                        Some(e) => {
                            let slot = Slot { typ: typ.0, start: body, size: psize };
                            if size == 0 || bs == size {
                                Some((seq![slot], e))
                            } else if bs > size || e <= q || e > s.len() {
                                None
                            } else {
                                match children(s, e, size - bs, ctyp) {
                                    Some((rest, end)) => Some((seq![slot] + rest, end)),
                                    None => None,
                                }
                            }
                        },
                    }
                }
            },
        }
    }
}

/// Where parsing the payload of `size` bytes at `p` of a box of type `typ` inside a
/// container of type `ctyp` ends, if it succeeds.
pub open spec fn child_end(s: Seq<u8>, p: int, ctyp: u32, typ: u32, size: int) -> Option<int>
    decreases s.len() - p, 2int,
{
    if !allowed(ctyp, typ) {
        None
    } else if is_container(typ) {
        match children(s, p, size, typ) {
            Some((_, e)) => Some(e),
            None => None,
        }
    } else {
        leaf_end(s, p, typ, size)
    }
}

/// A box that holds other boxes.
pub struct ContainerBox {
    pub boxes: Vec<MP4Box>,
}

/// `b` holds what parsing the payload of `size` bytes at `p` gives.
pub open spec fn box_parsed_from(b: &MP4Box, s: Seq<u8>, p: int, size: int) -> bool
    decreases b,
{
    match b {
        MP4Box::CompressedMovie(c) => container_parsed_from(c, s, p, size, MOOV),
        MP4Box::Track(c) => container_parsed_from(c, s, p, size, TRAK),
        MP4Box::Edit(c) => container_parsed_from(c, s, p, size, EDTS),
        MP4Box::Media(c) => container_parsed_from(c, s, p, size, MDIA),
        MP4Box::MediaInformation(c) => container_parsed_from(c, s, p, size, MINF),
        MP4Box::DataInformation(c) => container_parsed_from(c, s, p, size, DINF),
        MP4Box::SampleTable(c) => container_parsed_from(c, s, p, size, STBL),
        MP4Box::MovieExtends(c) => container_parsed_from(c, s, p, size, MVEX),
        MP4Box::UserData(c) => container_parsed_from(c, s, p, size, UDTA),
        MP4Box::CompressedMovieFragment(c) => container_parsed_from(c, s, p, size, MOOF),
        MP4Box::TrackFragment(c) => container_parsed_from(c, s, p, size, TRAF),
        MP4Box::FileType(x) => x.parsed_from(s, p, size),
        MP4Box::FreeSpace(_) => true,
        MP4Box::MovieHeader(x) => MovieHeaderBox::spec_parse(s, p) matches Some((y, _)) && *x == y,
        MP4Box::MovieExtendsHeader(x) => x.parsed_from(s, p, size),
        MP4Box::TrackExtends(x) => TrackExtendsBox::spec_parse(s, p) matches Some((y, _)) && *x == y,
        MP4Box::TrackExtensionProperties(x) => TrackExtensionPropertiesBox::spec_parse(
            s,
            p,
            size,
        ) matches Some((y, _)) && *x == y,
        MP4Box::TrackHeader(x) => TrackHeaderBox::spec_parse(s, p) matches Some((y, _)) && *x == y,
        MP4Box::EditList(x) => x.parsed_from(s, p, size),
        MP4Box::MediaHeader(x) => MediaHeaderBox::spec_parse(s, p) matches Some((y, _)) && *x == y,
        MP4Box::Handler(x) => x.parsed_from(s, p, size),
        MP4Box::SoundMediaHeader(x) => SoundMediaHeaderBox::spec_parse(s, p) matches Some((y, _))
            && *x == y,
        MP4Box::DataReference(x) => x.parsed_from(s, p),
        MP4Box::SampleDescription(x) => x.parsed_from(s, p),
        MP4Box::TimeToSample(x) => x.parsed_from(s, p, size),
        MP4Box::SampleToChunk(x) => x.parsed_from(s, p, size),
        MP4Box::SampleSize(x) => x.parsed_from(s, p, size),
        MP4Box::ChunkOffset(x) => x.parsed_from(s, p),
        MP4Box::SampleGroupDescription(x) => x.parsed_from(s, p),
        MP4Box::Meta(x) => x.parsed_from(s, p, size),
        MP4Box::CompressedSegmentIndex(x) => x.parsed_from(s, p),
        MP4Box::MovieFragmentHeader(x) => MovieFragmentHeaderBox::spec_parse(s, p) matches Some(
            (y, _),
        ) && *x == y,
        MP4Box::TrackFragmentHeader(x) => TrackFragmentHeaderBox::spec_parse(s, p) matches Some(
            (y, _),
        ) && *x == y,
        MP4Box::TrackFragmentBaseMediaDecodeTime(x) => TrackFragmentBaseMediaDecodeTimeBox::spec_parse(
            s,
            p,
        ) matches Some((y, _)) && *x == y,
        MP4Box::SampleToGroup(x) => x.parsed_from(s, p, size),
        MP4Box::TrackRun(x) => x.parsed_from(s, p, size),
        MP4Box::MediaData(x) => x.parsed_from(s, p, size),
    }
}

/// `c` holds the children of a container of type `ctyp` whose payload of `size` bytes
/// starts at `p`, each of its slot's type and parsed from its slot.
pub open spec fn container_parsed_from(c: &ContainerBox, s: Seq<u8>, p: int, size: int, ctyp: u32) -> bool
    decreases c,
{
    children(s, p, size, ctyp) matches Some((slots, _)) && {
        &&& c.boxes@.len() == slots.len()
        &&& forall|i: int|
            0 <= i < slots.len() ==> {
                &&& (#[trigger] c.boxes@[i]).kind() == slots[i].typ
                &&& box_parsed_from(&c.boxes@[i], s, slots[i].start, slots[i].size)
            }
    }
}

/// `allowed`, computed.
fn admits(ctyp: u32, typ: u32) -> (r: bool)
    ensures
        r == allowed(ctyp, typ),
{
    if ctyp == ROOT {
        typ == FTYP || typ == FREE || typ == MOOV || typ == SIDX || typ == MOOF || typ == MDAT
    } else if ctyp == MOOV {
        typ == TRAK || typ == MVEX || typ == MVHD || typ == UDTA
    } else if ctyp == TRAK {
        typ == EDTS || typ == MDIA || typ == TKHD
    } else if ctyp == EDTS {
        typ == ELST
    } else if ctyp == MDIA {
        typ == MINF || typ == MDHD || typ == HDLR
    } else if ctyp == MINF {
        typ == DINF || typ == STBL || typ == SMHD
    } else if ctyp == DINF {
        typ == DREF
    } else if ctyp == STBL {
        typ == STSD || typ == STTS || typ == STSC || typ == STSZ || typ == STCO || typ == SGPD
    } else if ctyp == MVEX {
        typ == MEHD || typ == TREX || typ == TREP
    } else if ctyp == UDTA {
        typ == META
    } else if ctyp == MOOF {
        typ == MFHD || typ == TRAF
    } else if ctyp == TRAF {
        typ == TFHD || typ == TFDT || typ == TRUN || typ == SBGP || typ == SGPD
    } else {
        false
    }
}

/// `is_container`, computed.
fn holds_boxes(typ: u32) -> (r: bool)
    ensures
        r == is_container(typ),
{
    typ == MOOV || typ == TRAK || typ == EDTS || typ == MDIA || typ == MINF || typ == DINF || typ
        == STBL || typ == MVEX || typ == UDTA || typ == MOOF || typ == TRAF
}

/// The text that names the container of type `ctyp` (the top level for any other code)
/// in error messages about a box it does not admit.
pub open spec fn spec_context_prefix(ctyp: u32) -> Seq<char> {
    if ctyp == MOOV {
        "unknown moov box type: "@
    } else if ctyp == TRAK {
        "unknown trak box type: "@
    } else if ctyp == EDTS {
        "unknown edts box type: "@
    } else if ctyp == MDIA {
        "unknown mdia box type: "@
    } else if ctyp == MINF {
        "unknown minf box type: "@
    } else if ctyp == DINF {
        "unknown dinf box type: "@
    } else if ctyp == STBL {
        "unknown stbl box type: "@
    } else if ctyp == MVEX {
        "unknown mvex box type: "@
    } else if ctyp == UDTA {
        "unknown udta box type: "@
    } else if ctyp == MOOF {
        "unknown moof box type: "@
    } else if ctyp == TRAF {
        "unknown traf box type: "@
    } else {
        "unknown root box type: "@
    }
}

/// The text that names a container in error messages.
fn context_prefix(ctyp: u32) -> (r: &'static str)
    ensures
        r@ == spec_context_prefix(ctyp),
{
    if ctyp == MOOV {
        "unknown moov box type: "
    } else if ctyp == TRAK {
        "unknown trak box type: "
    } else if ctyp == EDTS {
        "unknown edts box type: "
    } else if ctyp == MDIA {
        "unknown mdia box type: "
    } else if ctyp == MINF {
        "unknown minf box type: "
    } else if ctyp == DINF {
        "unknown dinf box type: "
    } else if ctyp == STBL {
        "unknown stbl box type: "
    } else if ctyp == MVEX {
        "unknown mvex box type: "
    } else if ctyp == UDTA {
        "unknown udta box type: "
    } else if ctyp == MOOF {
        "unknown moof box type: "
    } else if ctyp == TRAF {
        "unknown traf box type: "
    } else {
        "unknown root box type: "
    }
}

/// The box types read by a parser of their own (all admitted non-container types).
pub open spec fn is_leaf(typ: u32) -> bool {
    typ == FTYP || typ == FREE || typ == MDAT || typ == MVHD || typ == TKHD || typ == MDHD || typ
        == SMHD || typ == MFHD || typ == TFDT || typ == TREX || typ == TFHD || typ == TREP || typ
        == HDLR || typ == STCO || typ == SIDX || typ == STSD || typ == DREF || typ == SGPD || typ
        == TRUN || typ == ELST || typ == STTS || typ == STSC || typ == STSZ || typ == META || typ
        == MEHD || typ == SBGP
}

/// Parses the payload of `size` bytes of a box of the non-container type `typ`.
fn parse_leaf(stream: &mut BoxStream, typ: BoxType, size: usize) -> (r: Result<MP4Box, Error>)
    requires
        old(stream).wf(),
        is_leaf(typ.0),
    ensures
        old(stream).same_bytes(*final(stream)),
        r is Ok <==> leaf_end(old(stream).bytes(), old(stream).position(), typ.0, size as int)
            is Some,
        r matches Ok(b) ==> Some(final(stream).position()) == leaf_end(
            old(stream).bytes(),
            old(stream).position(),
            typ.0,
            size as int,
        ) && b.kind() == typ.0 && box_parsed_from(
            &b,
            old(stream).bytes(),
            old(stream).position(),
            size as int,
        ),
        r matches Err(e) ==> e.is_io(),
{
    proof {
        reveal(leaf_end);
    }
    let t = typ.0;
    if t == FTYP {
        Ok(MP4Box::FileType(FileTypeBox::parse(stream, size)?))
    } else if t == FREE {
        Ok(MP4Box::FreeSpace(FreeSpaceBox::parse(stream, size)?))
    } else if t == MDAT {
        Ok(MP4Box::MediaData(MediaDataBox::parse(stream, size)?))
    } else if t == MVHD {
        Ok(MP4Box::MovieHeader(MovieHeaderBox::parse(stream, size)?))
    } else if t == TKHD {
        Ok(MP4Box::TrackHeader(TrackHeaderBox::parse(stream, size)?))
    } else if t == MDHD {
        Ok(MP4Box::MediaHeader(MediaHeaderBox::parse(stream, size)?))
    } else if t == SMHD {
        Ok(MP4Box::SoundMediaHeader(SoundMediaHeaderBox::parse(stream, size)?))
    } else if t == MFHD {
        Ok(MP4Box::MovieFragmentHeader(MovieFragmentHeaderBox::parse(stream, size)?))
    } else if t == TFDT {
        Ok(
            MP4Box::TrackFragmentBaseMediaDecodeTime(
                TrackFragmentBaseMediaDecodeTimeBox::parse(stream, size)?,
            ),
        )
    } else if t == TREX {
        Ok(MP4Box::TrackExtends(TrackExtendsBox::parse(stream, size)?))
    } else if t == TFHD {
        Ok(MP4Box::TrackFragmentHeader(TrackFragmentHeaderBox::parse(stream, size)?))
    } else if t == TREP {
        Ok(MP4Box::TrackExtensionProperties(TrackExtensionPropertiesBox::parse(stream, size)?))
    } else if t == HDLR {
        Ok(MP4Box::Handler(HandlerBox::parse(stream, size)?))
    } else if t == STCO {
        Ok(MP4Box::ChunkOffset(ChunkOffsetBox::parse(stream, size)?))
    } else if t == SIDX {
        Ok(MP4Box::CompressedSegmentIndex(CompressedSegmentIndexBox::parse(stream, size)?))
    } else if t == STSD {
        Ok(MP4Box::SampleDescription(SampleDescriptionBox::parse(stream, size)?))
    } else if t == DREF {
        Ok(MP4Box::DataReference(DataReferenceBox::parse(stream, size)?))
    } else if t == SGPD {
        Ok(MP4Box::SampleGroupDescription(SampleGroupDescriptionBox::parse(stream, size)?))
    } else if t == TRUN {
        Ok(MP4Box::TrackRun(TrackRunBox::parse(stream, size)?))
    } else if t == ELST {
        Ok(MP4Box::EditList(UninterpretedBox::parse(stream, size)?))
    } else if t == STTS {
        Ok(MP4Box::TimeToSample(UninterpretedBox::parse(stream, size)?))
    } else if t == STSC {
        Ok(MP4Box::SampleToChunk(UninterpretedBox::parse(stream, size)?))
    } else if t == STSZ {
        Ok(MP4Box::SampleSize(UninterpretedBox::parse(stream, size)?))
    } else if t == META {
        Ok(MP4Box::Meta(UninterpretedBox::parse(stream, size)?))
    } else if t == MEHD {
        Ok(MP4Box::MovieExtendsHeader(UninterpretedBox::parse(stream, size)?))
    } else {
        Ok(MP4Box::SampleToGroup(UninterpretedBox::parse(stream, size)?))
    }
}

/// Wraps a container of type `typ` into the box variant of that type.
fn wrap_container(typ: u32, c: ContainerBox) -> (b: MP4Box)
    requires
        is_container(typ),
    ensures
        b.kind() == typ,
        forall|s: Seq<u8>, p: int, size: int|
            box_parsed_from(&b, s, p, size) == container_parsed_from(&c, s, p, size, typ),
{
    if typ == MOOV {
        MP4Box::CompressedMovie(c)
    } else if typ == TRAK {
        MP4Box::Track(c)
    } else if typ == EDTS {
        MP4Box::Edit(c)
    } else if typ == MDIA {
        MP4Box::Media(c)
    } else if typ == MINF {
        MP4Box::MediaInformation(c)
    } else if typ == DINF {
        MP4Box::DataInformation(c)
    } else if typ == STBL {
        MP4Box::SampleTable(c)
    } else if typ == MVEX {
        MP4Box::MovieExtends(c)
    } else if typ == UDTA {
        MP4Box::UserData(c)
    } else if typ == MOOF {
        MP4Box::CompressedMovieFragment(c)
    } else {
        MP4Box::TrackFragment(c)
    }
}

/// Parses the payload of `size` bytes of a box of type `typ` that stands inside a
/// container of type `ctyp` (or at the top level); a type the container does not admit is
/// refused.
pub fn parse_child(stream: &mut BoxStream, ctyp: u32, typ: BoxType, size: usize) -> (r: Result<
    MP4Box,
    Error,
>)
    requires
        old(stream).wf(),
    ensures
        old(stream).same_bytes(*final(stream)),
        r is Ok <==> child_end(old(stream).bytes(), old(stream).position(), ctyp, typ.0, size as int)
            is Some,
        r matches Ok(b) ==> Some(final(stream).position()) == child_end(
            old(stream).bytes(),
            old(stream).position(),
            ctyp,
            typ.0,
            size as int,
        ) && b.kind() == typ.0 && box_parsed_from(
            &b,
            old(stream).bytes(),
            old(stream).position(),
            size as int,
        ),
        r matches Err(e) ==> e.is_io(),
        !allowed(ctyp, typ.0) ==> (r matches Err(e) && e.message() == spec_context_prefix(ctyp)
            + typ.spec_chars()) && *final(stream) == *old(stream),
    decreases old(stream).remaining(), 2int,
{
    if !admits(ctyp, typ.0) {
        return Err(io_error_with_type(context_prefix(ctyp), typ));
    }
    if holds_boxes(typ.0) {
        let c = ContainerBox::parse(stream, typ.0, size)?;
        Ok(wrap_container(typ.0, c))
    } else {
        parse_leaf(stream, typ, size)
    }
}

/// Builds a container from its children.
pub trait CtorContainerBox: Sized {
    fn ctor(boxes: Vec<MP4Box>) -> Result<Self, Error>;
}

impl CtorContainerBox for ContainerBox {
    fn ctor(boxes: Vec<MP4Box>) -> (r: Result<Self, Error>)
        ensures
            r matches Ok(c) && c.boxes == boxes,
    {
        Ok(ContainerBox { boxes })
    }
}

impl ContainerBox {
    /// Parses the payload of `size` bytes of a container of type `ctyp`: its children one
    /// after the other until their sizes add up to `size`, or a single child when `size`
    /// is 0.
    pub fn parse(stream: &mut BoxStream, ctyp: u32, size: usize) -> (r: Result<Self, Error>)
        requires
            old(stream).wf(),
        ensures
            old(stream).same_bytes(*final(stream)),
            r is Ok <==> children(old(stream).bytes(), old(stream).position(), size as int, ctyp)
                is Some,
            r matches Ok(c) ==> children(
                old(stream).bytes(),
                old(stream).position(),
                size as int,
                ctyp,
            ) matches Some((_, e)) && final(stream).position() == e && container_parsed_from(
                &c,
                old(stream).bytes(),
                old(stream).position(),
                size as int,
                ctyp,
            ),
            r matches Err(e) ==> e.is_io(),
        decreases old(stream).remaining(), 1int,
    {
        let ghost s = old(stream).bytes();
        let ghost p = old(stream).position();
        let mut boxes: Vec<MP4Box> = Vec::new();
        if size == 0 {
            let (typ, box_size, hdr_size) = stream.read_box_common_header(size)?;
            if box_size < hdr_size {
                return Err(io_error("invalid box size"));
            }
            let child = parse_child(stream, ctyp, typ, box_size - hdr_size)?;
            boxes.push(child);
            proof {
                let slot = Slot { typ: typ.0, start: p + hdr_size, size: box_size - hdr_size };
                assert(children(s, p, 0, ctyp) == Some((seq![slot], stream.position())));
                assert(boxes@[0] == child);
            }
        } else {
            let ghost mut slots: Seq<Slot> = Seq::empty();
            let mut rest = size;
            while rest > 0
                invariant
                    old(stream).same_bytes(*stream),
                    s == old(stream).bytes(),
                    p == old(stream).position(),
                    0 <= p,
                    size > 0,
                    rest <= size,
                    rest < size ==> stream.position() > p,
                    boxes@.len() == slots.len(),
                    forall|i: int|
                        0 <= i < slots.len() ==> {
                            &&& (#[trigger] boxes@[i]).kind() == slots[i].typ
                            &&& box_parsed_from(&boxes@[i], s, slots[i].start, slots[i].size)
                        },
                    rest > 0 ==> children(s, p, size as int, ctyp) == (match children(
                        s,
                        stream.position(),
                        rest as int,
                        ctyp,
                    ) {
                        Some((more, end)) => Some((slots + more, end)),
                        None => None,
                    }),
                    rest == 0 ==> children(s, p, size as int, ctyp) == Some(
                        (slots, stream.position()),
                    ),
                decreases rest,
            {
                let ghost q = stream.position();
                let (typ, box_size, hdr_size) = stream.read_box_common_header(rest)?;
                if box_size < hdr_size {
                    return Err(io_error("invalid box size"));
                }
                let child = parse_child(stream, ctyp, typ, box_size - hdr_size)?;
                let ghost slot = Slot { typ: typ.0, start: q + hdr_size, size: box_size - hdr_size };
                if box_size > rest {
                    return Err(io_error("box larger than its parent"));
                }
                proof {
                    let old_slots = slots;
                    slots = slots.push(slot);
                    assert forall|more: Seq<Slot>| old_slots + (seq![slot] + more) == slots + more by {
                        assert(old_slots + (seq![slot] + more) =~= slots + more);
                    }
                    assert(old_slots + seq![slot] =~= slots);
                }
                boxes.push(child);
                rest = rest - box_size;
            }
            assert(slots + Seq::<Slot>::empty() =~= slots);
        }
        Self::ctor(boxes)
    }

    /// The types of the children, in order.
    pub open spec fn kinds(&self) -> Seq<u32> {
        Seq::new(self.boxes@.len(), |i: int| self.boxes@[i].kind())
    }

    /// The index of the first child of type `typ`, if any.
    pub open spec fn first_with(&self, typ: u32) -> Option<int> {
        first_code(self.kinds(), typ)
    }

    /// The first child of type `typ`, if any.
    pub open spec fn spec_get(&self, typ: u32) -> Option<MP4Box> {
        match self.first_with(typ) {
            Some(i) => Some(self.boxes@[i]),
            None => None,
        }
    }

    /// The first child of type `typ` of a container parsed from the payload that `slot`
    /// describes, when that child holds boxes itself.
    pub(crate) fn get_container(
        &self,
        typ: u32,
        Ghost(s): Ghost<Seq<u8>>,
        Ghost(slot): Ghost<Slot>,
    ) -> (r: Option<&ContainerBox>)
        requires
            container_parsed_from(self, s, slot.start, slot.size, slot.typ),
            is_container(typ),
        ensures
            r is Some <==> find_in(s, slot, typ) is Some,
            r matches Some(c) ==> find_in(s, slot, typ) matches Some(f) && f.typ == typ
                && container_parsed_from(
                c,
                s,
                f.start,
                f.size,
                typ,
            ),
    {
        proof {
            lemma_get_parsed(self, s, slot.start, slot.size, slot.typ, typ);
        }
        match self.get(typ) {
            Some(b) => {
                proof {
                    let f = find_in(s, slot, typ).unwrap();
                    lemma_container_parsed(*b, s, f.start, f.size);
                }
                b.as_container()
            },
            None => None,
        }
    }

    /// Moves the first child of type `typ` out of the container.
    pub fn take(self, typ: u32) -> (r: Option<MP4Box>)
        ensures
            r == self.spec_get(typ),
    {
        let mut i: usize = 0;
        while i < self.boxes.len()
            invariant
                i <= self.boxes@.len(),
                forall|j: int| 0 <= j < i ==> self.kinds()[j] != typ,
            decreases self.boxes@.len() - i,
        {
            if self.boxes[i].box_type().0 == typ {
                proof {
                    let ks = self.kinds();
                    assert(ks[i as int] == typ);
                    let k = first_code(ks, typ).unwrap();
                    if k < i {
                    } else if k > i {
                    }
                }
                let mut boxes = self.boxes;
                return Some(boxes.remove(i));
            }
            i = i + 1;
        }
        None
    }

    /// Moves the first child of type `typ` out of a container parsed from the payload that
    /// `slot` describes, when that child holds boxes itself.
    pub(crate) fn take_container(self, typ: u32, Ghost(s): Ghost<Seq<u8>>, Ghost(slot): Ghost<Slot>) -> (r:
        Option<ContainerBox>)
        requires
            container_parsed_from(&self, s, slot.start, slot.size, slot.typ),
            is_container(typ),
        ensures
            r is Some <==> find_in(s, slot, typ) is Some,
            r matches Some(c) ==> find_in(s, slot, typ) matches Some(f) && f.typ == typ
                && container_parsed_from(&c, s, f.start, f.size, typ),
    {
        proof {
            lemma_get_parsed(&self, s, slot.start, slot.size, slot.typ, typ);
        }
        match self.take(typ) {
            Some(b) => {
                proof {
                    let f = find_in(s, slot, typ).unwrap();
                    lemma_container_parsed(b, s, f.start, f.size);
                }
                b.into_container()
            },
            None => None,
        }
    }

    /// The first child of type `typ`, if any.
    pub fn get(&self, typ: u32) -> (r: Option<&MP4Box>)
        ensures
            r is Some <==> self.spec_get(typ) is Some,
            r matches Some(b) ==> self.spec_get(typ) == Some(*b),
    {
        let mut i: usize = 0;
        while i < self.boxes.len()
            invariant
                i <= self.boxes@.len(),
                forall|j: int| 0 <= j < i ==> self.kinds()[j] != typ,
            decreases self.boxes@.len() - i,
        {
            if self.boxes[i].box_type().0 == typ {
                proof {
                    let ks = self.kinds();
                    assert(ks[i as int] == typ);
                    let k = first_code(ks, typ).unwrap();
                    if k < i {
                    } else if k > i {
                    }
                }
                return Some(&self.boxes[i]);
            }
            i = i + 1;
        }
        None
    }
}


/// The index of the first occurrence of `typ` in `ks`, if any.
pub open spec fn first_code(ks: Seq<u32>, typ: u32) -> Option<int> {
    if exists|i: int| 0 <= i < ks.len() && ks[i] == typ {
        Some(
            choose|i: int|
                0 <= i < ks.len() && ks[i] == typ && forall|j: int| 0 <= j < i ==> ks[j] != typ,
        )
    } else {
        None
    }
}

/// What `first_code` gives: the position of the first occurrence, or none when there is
/// no occurrence.
pub proof fn lemma_first_code(ks: Seq<u32>, typ: u32)
    ensures
        first_code(ks, typ) matches Some(i) ==> 0 <= i < ks.len() && ks[i] == typ && forall|j: int|
            0 <= j < i ==> ks[j] != typ,
        first_code(ks, typ) is None ==> forall|i: int| 0 <= i < ks.len() ==> ks[i] != typ,
{
    if exists|i: int| 0 <= i < ks.len() && ks[i] == typ {
        let i = choose|i: int| 0 <= i < ks.len() && ks[i] == typ;
        lemma_least_code(ks, typ, i);
    }
}

/// An occurrence of `typ` in `ks` at `i` means there is a first one.
proof fn lemma_least_code(ks: Seq<u32>, typ: u32, i: int)
    requires
        0 <= i < ks.len(),
        ks[i] == typ,
    ensures
        exists|k: int| 0 <= k < ks.len() && ks[k] == typ && forall|j: int| 0 <= j < k ==> ks[j] != typ,
    decreases i,
{
    if exists|j: int| 0 <= j < i && ks[j] == typ {
        let j = choose|j: int| 0 <= j < i && ks[j] == typ;
        lemma_least_code(ks, typ, j);
    } else {
        assert(0 <= i < ks.len() && ks[i] == typ && forall|j: int| 0 <= j < i ==> ks[j] != typ);
    }
}

/// The types of the slots, in order.
pub open spec fn slot_types(slots: Seq<Slot>) -> Seq<u32> {
    Seq::new(slots.len(), |i: int| slots[i].typ)
}

/// The index of the first slot of type `typ`, if any.
pub open spec fn first_slot(slots: Seq<Slot>, typ: u32) -> Option<int> {
    first_code(slot_types(slots), typ)
}

/// The first child of type `typ` of the container of type `ctyp` whose payload of `size`
/// bytes starts at `p`.
pub open spec fn spec_find(s: Seq<u8>, p: int, size: int, ctyp: u32, typ: u32) -> Option<Slot> {
    match children(s, p, size, ctyp) {
        Some((slots, _)) => match first_slot(slots, typ) {
            Some(i) => Some(slots[i]),
            None => None,
        },
        None => None,
    }
}

/// The first child of type `typ` of the container box whose payload `slot` describes.
pub open spec fn find_in(s: Seq<u8>, slot: Slot, typ: u32) -> Option<Slot> {
    spec_find(s, slot.start, slot.size, slot.typ, typ)
}

/// `find_in` applied to a slot that may be missing.
pub open spec fn then_find(s: Seq<u8>, o: Option<Slot>, typ: u32) -> Option<Slot> {
    match o {
        Some(slot) => find_in(s, slot, typ),
        None => None,
    }
}

/// A container and slots of the same types find the same first index of a type.
proof fn lemma_first_agree(c: &ContainerBox, slots: Seq<Slot>, typ: u32)
    requires
        c.boxes@.len() == slots.len(),
        forall|i: int| 0 <= i < slots.len() ==> (#[trigger] c.boxes@[i]).kind() == slots[i].typ,
    ensures
        c.first_with(typ) == first_slot(slots, typ),
{
    assert(c.kinds() =~= slot_types(slots)) by {
        assert forall|i: int| 0 <= i < slots.len() implies c.kinds()[i] == slot_types(slots)[i] by {
            assert(c.boxes@[i].kind() == slots[i].typ);
        }
    }
}

/// Looking a child up in a parsed container agrees with looking its slot up in the bytes:
/// the child found is the one parsed from the first slot of that type.
pub proof fn lemma_get_parsed(c: &ContainerBox, s: Seq<u8>, p: int, size: int, ctyp: u32, typ: u32)
    requires
        container_parsed_from(c, s, p, size, ctyp),
    ensures
        c.spec_get(typ) is Some <==> spec_find(s, p, size, ctyp, typ) is Some,
        c.spec_get(typ) matches Some(b) ==> spec_find(s, p, size, ctyp, typ) matches Some(slot)
            && slot.typ == typ && b.kind() == typ && box_parsed_from(&b, s, slot.start, slot.size),
{
    let slots = children(s, p, size, ctyp).unwrap().0;
    reveal_with_fuel(container_parsed_from, 1);
    lemma_pick(c, slots, s, typ);
}

/// The child picked by type in a container whose children were parsed from `slots`.
proof fn lemma_pick(c: &ContainerBox, slots: Seq<Slot>, s: Seq<u8>, typ: u32)
    requires
        c.boxes@.len() == slots.len(),
        forall|i: int|
            0 <= i < slots.len() ==> {
                &&& (#[trigger] c.boxes@[i]).kind() == slots[i].typ
                &&& box_parsed_from(&c.boxes@[i], s, slots[i].start, slots[i].size)
            },
    ensures
        c.spec_get(typ) is Some <==> first_slot(slots, typ) is Some,
        c.spec_get(typ) matches Some(b) ==> {
            let k = first_slot(slots, typ).unwrap();
            &&& slots[k].typ == typ
            &&& b.kind() == typ
            &&& box_parsed_from(&b, s, slots[k].start, slots[k].size)
        },
{
    lemma_first_agree(c, slots, typ);
    lemma_first_code(c.kinds(), typ);
    if c.first_with(typ) is Some {
        let i = c.first_with(typ).unwrap();
        assert(c.kinds()[i] == typ);
        assert(c.boxes@[i].kind() == slots[i].typ);
    }
}


/// The boxes held by a box that is a container.
pub open spec fn container_view(b: MP4Box) -> Option<ContainerBox> {
    match b {
        MP4Box::CompressedMovie(c) => Some(c),
        MP4Box::Track(c) => Some(c),
        MP4Box::Edit(c) => Some(c),
        MP4Box::Media(c) => Some(c),
        MP4Box::MediaInformation(c) => Some(c),
        MP4Box::DataInformation(c) => Some(c),
        MP4Box::SampleTable(c) => Some(c),
        MP4Box::MovieExtends(c) => Some(c),
        MP4Box::UserData(c) => Some(c),
        MP4Box::CompressedMovieFragment(c) => Some(c),
        MP4Box::TrackFragment(c) => Some(c),
        _ => None,
    }
}

impl MP4Box {
    /// The boxes held by the box, when it is a container, moved out of it.
    pub fn into_container(self) -> (r: Option<ContainerBox>)
        ensures
            r == container_view(self),
    {
        match self {
            MP4Box::CompressedMovie(c) => Some(c),
            MP4Box::Track(c) => Some(c),
            MP4Box::Edit(c) => Some(c),
            MP4Box::Media(c) => Some(c),
            MP4Box::MediaInformation(c) => Some(c),
            MP4Box::DataInformation(c) => Some(c),
            MP4Box::SampleTable(c) => Some(c),
            MP4Box::MovieExtends(c) => Some(c),
            MP4Box::UserData(c) => Some(c),
            MP4Box::CompressedMovieFragment(c) => Some(c),
            MP4Box::TrackFragment(c) => Some(c),
            _ => None,
        }
    }

    /// The boxes held by the box, when it is a container.
    pub fn as_container(&self) -> (r: Option<&ContainerBox>)
        ensures
            r is Some <==> container_view(*self) is Some,
            r matches Some(c) ==> container_view(*self) == Some(*c),
    {
        match self {
            MP4Box::CompressedMovie(c) => Some(c),
            MP4Box::Track(c) => Some(c),
            MP4Box::Edit(c) => Some(c),
            MP4Box::Media(c) => Some(c),
            MP4Box::MediaInformation(c) => Some(c),
            MP4Box::DataInformation(c) => Some(c),
            MP4Box::SampleTable(c) => Some(c),
            MP4Box::MovieExtends(c) => Some(c),
            MP4Box::UserData(c) => Some(c),
            MP4Box::CompressedMovieFragment(c) => Some(c),
            MP4Box::TrackFragment(c) => Some(c),
            _ => None,
        }
    }
}

/// A parsed box of a container type holds the children parsed from its payload.
pub proof fn lemma_container_parsed(b: MP4Box, s: Seq<u8>, p: int, size: int)
    requires
        box_parsed_from(&b, s, p, size),
        is_container(b.kind()),
    ensures
        container_view(b) matches Some(c) && container_parsed_from(&c, s, p, size, b.kind()),
{
}

} // verus!
