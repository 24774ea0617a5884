use vstd::prelude::*;
use super::container::{
    ContainerBox, Slot, box_parsed_from, container_parsed_from, find_in, lemma_get_parsed,
};
use super::mp4box::MP4Box;
use super::spec::ftyp::{FTYP, FileTypeBox};
use super::spec::hdlr::{HDLR, HandlerBox};
use super::spec::mdat::{MDAT, MediaDataBox};
use super::spec::sidx::{SIDX, CompressedSegmentIndexBox};
use super::spec::mdhd::{MDHD, MediaHeaderBox};
use super::spec::stsd::{STSD, SampleDescriptionBox};
use super::spec::tfdt::{TFDT, TrackFragmentBaseMediaDecodeTimeBox};
use super::spec::tfhd::{TFHD, TrackFragmentHeaderBox};
use super::spec::tkhd::{TKHD, TrackHeaderBox};
use super::spec::trex::{TREX, TrackExtendsBox};
use super::spec::trun::{TRUN, TrackRunBox};

verus! {

// Typed lookups of the first child of a type in a container parsed from known bytes, each
// with what the child holds.

/// What a parsed box of each looked-up type holds.
pub(crate) proof fn lemma_leaf_parsed(b: MP4Box, s: Seq<u8>, p: int, size: int)
    requires
        box_parsed_from(&b, s, p, size),
    ensures
        b.kind() == TREX ==> (b matches MP4Box::TrackExtends(x) && TrackExtendsBox::spec_parse(s, p) matches Some((y, _)) && x == y),
        b.kind() == TKHD ==> (b matches MP4Box::TrackHeader(x) && TrackHeaderBox::spec_parse(s, p) matches Some((y, _)) && x == y),
        b.kind() == MDHD ==> (b matches MP4Box::MediaHeader(x) && MediaHeaderBox::spec_parse(s, p) matches Some((y, _)) && x == y),
        b.kind() == TFDT ==> (b matches MP4Box::TrackFragmentBaseMediaDecodeTime(x) && TrackFragmentBaseMediaDecodeTimeBox::spec_parse(s, p) matches Some((y, _)) && x == y),
        b.kind() == TFHD ==> (b matches MP4Box::TrackFragmentHeader(x) && TrackFragmentHeaderBox::spec_parse(s, p) matches Some((y, _)) && x == y),
        b.kind() == STSD ==> (b matches MP4Box::SampleDescription(x) && x.parsed_from(s, p)),
        b.kind() == HDLR ==> (b matches MP4Box::Handler(x) && x.parsed_from(s, p, size)),
        b.kind() == TRUN ==> (b matches MP4Box::TrackRun(x) && x.parsed_from(s, p, size)),
{
}

impl MP4Box {
    /// The track extends box that the box is, if it is one.
    pub fn as_track_extends(&self) -> (r: Option<&TrackExtendsBox>)
        ensures
            r is Some <==> *self is TrackExtends,
            r matches Some(x) ==> *self == MP4Box::TrackExtends(*x),
    {
        match self {
            MP4Box::TrackExtends(x) => Some(x),
            _ => None,
        }
    }

    /// The track header box that the box is, if it is one.
    pub fn as_track_header(&self) -> (r: Option<&TrackHeaderBox>)
        ensures
            r is Some <==> *self is TrackHeader,
            r matches Some(x) ==> *self == MP4Box::TrackHeader(*x),
    {
        match self {
            MP4Box::TrackHeader(x) => Some(x),
            _ => None,
        }
    }

    /// The media header box that the box is, if it is one.
    pub fn as_media_header(&self) -> (r: Option<&MediaHeaderBox>)
        ensures
            r is Some <==> *self is MediaHeader,
            r matches Some(x) ==> *self == MP4Box::MediaHeader(*x),
    {
        match self {
            MP4Box::MediaHeader(x) => Some(x),
            _ => None,
        }
    }

    /// The decode time box that the box is, if it is one.
    pub fn as_decode_time(&self) -> (r: Option<&TrackFragmentBaseMediaDecodeTimeBox>)
        ensures
            r is Some <==> *self is TrackFragmentBaseMediaDecodeTime,
            r matches Some(x) ==> *self == MP4Box::TrackFragmentBaseMediaDecodeTime(*x),
    {
        match self {
            MP4Box::TrackFragmentBaseMediaDecodeTime(x) => Some(x),
            _ => None,
        }
    }

    /// The track fragment header box that the box is, if it is one.
    pub fn as_fragment_header(&self) -> (r: Option<&TrackFragmentHeaderBox>)
        ensures
            r is Some <==> *self is TrackFragmentHeader,
            r matches Some(x) ==> *self == MP4Box::TrackFragmentHeader(*x),
    {
        match self {
            MP4Box::TrackFragmentHeader(x) => Some(x),
            _ => None,
        }
    }

    /// The sample description box that the box is, if it is one.
    pub fn as_sample_description(&self) -> (r: Option<&SampleDescriptionBox>)
        ensures
            r is Some <==> *self is SampleDescription,
            r matches Some(x) ==> *self == MP4Box::SampleDescription(*x),
    {
        match self {
            MP4Box::SampleDescription(x) => Some(x),
            _ => None,
        }
    }

    /// The handler box that the box is, if it is one.
    pub fn as_handler(&self) -> (r: Option<&HandlerBox>)
        ensures
            r is Some <==> *self is Handler,
            r matches Some(x) ==> *self == MP4Box::Handler(*x),
    {
        match self {
            MP4Box::Handler(x) => Some(x),
            _ => None,
        }
    }

    /// The track run box that the box is, if it is one.
    pub fn as_track_run(&self) -> (r: Option<&TrackRunBox>)
        ensures
            r is Some <==> *self is TrackRun,
            r matches Some(x) ==> *self == MP4Box::TrackRun(*x),
    {
        match self {
            MP4Box::TrackRun(x) => Some(x),
            _ => None,
        }
    }
}

/// The first track extends box among the children of `c`, parsed from the payload that
/// `slot` describes.
pub(crate) fn find_track_extends(c: &ContainerBox, Ghost(s): Ghost<Seq<u8>>, Ghost(slot): Ghost<Slot>) -> (r:
    Option<&TrackExtendsBox>)
    requires
        container_parsed_from(c, s, slot.start, slot.size, slot.typ),
    ensures
        r is Some <==> find_in(s, slot, TREX) is Some,
        r matches Some(x) ==> find_in(s, slot, TREX) matches Some(f) && TrackExtendsBox::spec_parse(s, f.start) matches Some((y, _)) && *x == y,
{
    proof {
        lemma_get_parsed(c, s, slot.start, slot.size, slot.typ, TREX);
    }
    match c.get(TREX) {
        Some(b) => {
            proof {
                let f = find_in(s, slot, TREX).unwrap();
                lemma_leaf_parsed(*b, s, f.start, f.size);
            }
            b.as_track_extends()
        },
        None => None,
    }
}

/// The first track header box among the children of `c`, parsed from the payload that
/// `slot` describes.
pub(crate) fn find_track_header(c: &ContainerBox, Ghost(s): Ghost<Seq<u8>>, Ghost(slot): Ghost<Slot>) -> (r:
    Option<&TrackHeaderBox>)
    requires
        container_parsed_from(c, s, slot.start, slot.size, slot.typ),
    ensures
        r is Some <==> find_in(s, slot, TKHD) is Some,
        r matches Some(x) ==> find_in(s, slot, TKHD) matches Some(f) && TrackHeaderBox::spec_parse(s, f.start) matches Some((y, _)) && *x == y,
{
    proof {
        lemma_get_parsed(c, s, slot.start, slot.size, slot.typ, TKHD);
    }
    match c.get(TKHD) {
        Some(b) => {
            proof {
                let f = find_in(s, slot, TKHD).unwrap();
                lemma_leaf_parsed(*b, s, f.start, f.size);
            }
            b.as_track_header()
        },
        None => None,
    }
}

/// The first media header box among the children of `c`, parsed from the payload that
/// `slot` describes.
pub(crate) fn find_media_header(c: &ContainerBox, Ghost(s): Ghost<Seq<u8>>, Ghost(slot): Ghost<Slot>) -> (r:
    Option<&MediaHeaderBox>)
    requires
        container_parsed_from(c, s, slot.start, slot.size, slot.typ),
    ensures
        r is Some <==> find_in(s, slot, MDHD) is Some,
        r matches Some(x) ==> find_in(s, slot, MDHD) matches Some(f) && MediaHeaderBox::spec_parse(s, f.start) matches Some((y, _)) && *x == y,
{
    proof {
        lemma_get_parsed(c, s, slot.start, slot.size, slot.typ, MDHD);
    }
    match c.get(MDHD) {
        Some(b) => {
            proof {
                let f = find_in(s, slot, MDHD).unwrap();
                lemma_leaf_parsed(*b, s, f.start, f.size);
            }
            b.as_media_header()
        },
        None => None,
    }
}

/// The first decode time box among the children of `c`, parsed from the payload that
/// `slot` describes.
pub(crate) fn find_decode_time(c: &ContainerBox, Ghost(s): Ghost<Seq<u8>>, Ghost(slot): Ghost<Slot>) -> (r:
    Option<&TrackFragmentBaseMediaDecodeTimeBox>)
    requires
        container_parsed_from(c, s, slot.start, slot.size, slot.typ),
    ensures
        r is Some <==> find_in(s, slot, TFDT) is Some,
        r matches Some(x) ==> find_in(s, slot, TFDT) matches Some(f) && TrackFragmentBaseMediaDecodeTimeBox::spec_parse(s, f.start) matches Some((y, _)) && *x == y,
{
    proof {
        lemma_get_parsed(c, s, slot.start, slot.size, slot.typ, TFDT);
    }
    match c.get(TFDT) {
        Some(b) => {
            proof {
                let f = find_in(s, slot, TFDT).unwrap();
                lemma_leaf_parsed(*b, s, f.start, f.size);
            }
            b.as_decode_time()
        },
        None => None,
    }
}

/// The first track fragment header box among the children of `c`, parsed from the payload that
/// `slot` describes.
pub(crate) fn find_fragment_header(c: &ContainerBox, Ghost(s): Ghost<Seq<u8>>, Ghost(slot): Ghost<Slot>) -> (r:
    Option<&TrackFragmentHeaderBox>)
    requires
        container_parsed_from(c, s, slot.start, slot.size, slot.typ),
    ensures
        r is Some <==> find_in(s, slot, TFHD) is Some,
        r matches Some(x) ==> find_in(s, slot, TFHD) matches Some(f) && TrackFragmentHeaderBox::spec_parse(s, f.start) matches Some((y, _)) && *x == y,
{
    proof {
        lemma_get_parsed(c, s, slot.start, slot.size, slot.typ, TFHD);
    }
    match c.get(TFHD) {
        Some(b) => {
            proof {
                let f = find_in(s, slot, TFHD).unwrap();
                lemma_leaf_parsed(*b, s, f.start, f.size);
            }
            b.as_fragment_header()
        },
        None => None,
    }
}

/// The first sample description box among the children of `c`, parsed from the payload that
/// `slot` describes.
pub(crate) fn find_sample_description(c: &ContainerBox, Ghost(s): Ghost<Seq<u8>>, Ghost(slot): Ghost<Slot>) -> (r:
    Option<&SampleDescriptionBox>)
    requires
        container_parsed_from(c, s, slot.start, slot.size, slot.typ),
    ensures
        r is Some <==> find_in(s, slot, STSD) is Some,
        r matches Some(x) ==> find_in(s, slot, STSD) matches Some(f) && x.parsed_from(s, f.start),
{
    proof {
        lemma_get_parsed(c, s, slot.start, slot.size, slot.typ, STSD);
    }
    match c.get(STSD) {
        Some(b) => {
            proof {
                let f = find_in(s, slot, STSD).unwrap();
                lemma_leaf_parsed(*b, s, f.start, f.size);
            }
            b.as_sample_description()
        },
        None => None,
    }
}

/// The first handler box among the children of `c`, parsed from the payload that
/// `slot` describes.
pub(crate) fn find_handler(c: &ContainerBox, Ghost(s): Ghost<Seq<u8>>, Ghost(slot): Ghost<Slot>) -> (r:
    Option<&HandlerBox>)
    requires
        container_parsed_from(c, s, slot.start, slot.size, slot.typ),
    ensures
        r is Some <==> find_in(s, slot, HDLR) is Some,
        r matches Some(x) ==> find_in(s, slot, HDLR) matches Some(f) && x.parsed_from(s, f.start, f.size),
{
    proof {
        lemma_get_parsed(c, s, slot.start, slot.size, slot.typ, HDLR);
    }
    match c.get(HDLR) {
        Some(b) => {
            proof {
                let f = find_in(s, slot, HDLR).unwrap();
                lemma_leaf_parsed(*b, s, f.start, f.size);
            }
            b.as_handler()
        },
        None => None,
    }
}

/// The first track run box among the children of `c`, parsed from the payload that
/// `slot` describes.
pub(crate) fn find_track_run(c: &ContainerBox, Ghost(s): Ghost<Seq<u8>>, Ghost(slot): Ghost<Slot>) -> (r:
    Option<&TrackRunBox>)
    requires
        container_parsed_from(c, s, slot.start, slot.size, slot.typ),
    ensures
        r is Some <==> find_in(s, slot, TRUN) is Some,
        r matches Some(x) ==> find_in(s, slot, TRUN) matches Some(f) && x.parsed_from(s, f.start, f.size),
{
    proof {
        lemma_get_parsed(c, s, slot.start, slot.size, slot.typ, TRUN);
    }
    match c.get(TRUN) {
        Some(b) => {
            proof {
                let f = find_in(s, slot, TRUN).unwrap();
                lemma_leaf_parsed(*b, s, f.start, f.size);
            }
            b.as_track_run()
        },
        None => None,
    }
}

/// Moves the first sample description box out of a container parsed from the payload
/// that `slot` describes.
pub(crate) fn take_sample_description(c: ContainerBox, Ghost(s): Ghost<Seq<u8>>, Ghost(slot): Ghost<Slot>) -> (r:
    Option<SampleDescriptionBox>)
    requires
        container_parsed_from(&c, s, slot.start, slot.size, slot.typ),
    ensures
        r is Some <==> find_in(s, slot, STSD) is Some,
        r matches Some(x) ==> find_in(s, slot, STSD) matches Some(f) && x.parsed_from(s, f.start),
{
    proof {
        lemma_get_parsed(&c, s, slot.start, slot.size, slot.typ, STSD);
    }
    match c.take(STSD) {
        Some(b) => {
            proof {
                let f = find_in(s, slot, STSD).unwrap();
                lemma_leaf_parsed(b, s, f.start, f.size);
            }
            b.into_sample_description()
        },
        None => None,
    }
}

/// What a parsed top-level box of a type read by value holds.
pub proof fn lemma_top_parsed(b: MP4Box, s: Seq<u8>, p: int, size: int)
    requires
        box_parsed_from(&b, s, p, size),
    ensures
        b.kind() == FTYP ==> (b matches MP4Box::FileType(x) && x.parsed_from(s, p, size)),
        b.kind() == SIDX ==> (b matches MP4Box::CompressedSegmentIndex(x) && x.parsed_from(s, p)),
        b.kind() == MDAT ==> (b matches MP4Box::MediaData(x) && x.parsed_from(s, p, size)),
{
}

impl MP4Box {
    /// The file type box that the box is, if it is one.
    pub fn into_file_type(self) -> (r: Option<FileTypeBox>)
        ensures
            r is Some <==> self is FileType,
            r matches Some(x) ==> self == MP4Box::FileType(x),
    {
        match self {
            MP4Box::FileType(x) => Some(x),
            _ => None,
        }
    }

    /// The segment index box that the box is, if it is one.
    pub fn into_segment_index(self) -> (r: Option<CompressedSegmentIndexBox>)
        ensures
            r is Some <==> self is CompressedSegmentIndex,
            r matches Some(x) ==> self == MP4Box::CompressedSegmentIndex(x),
    {
        match self {
            MP4Box::CompressedSegmentIndex(x) => Some(x),
            _ => None,
        }
    }

    /// The media data box that the box is, if it is one.
    pub fn into_media_data(self) -> (r: Option<MediaDataBox>)
        ensures
            r is Some <==> self is MediaData,
            r matches Some(x) ==> self == MP4Box::MediaData(x),
    {
        match self {
            MP4Box::MediaData(x) => Some(x),
            _ => None,
        }
    }

    /// The sample description box that the box is, if it is one.
    pub fn into_sample_description(self) -> (r: Option<SampleDescriptionBox>)
        ensures
            r is Some <==> self is SampleDescription,
            r matches Some(x) ==> self == MP4Box::SampleDescription(x),
    {
        match self {
            MP4Box::SampleDescription(x) => Some(x),
            _ => None,
        }
    }

    /// The movie fragment box that the box is, if it is one.
    pub fn into_movie_fragment(self) -> (r: Option<ContainerBox>)
        ensures
            r is Some <==> self is CompressedMovieFragment,
            r matches Some(x) ==> self == MP4Box::CompressedMovieFragment(x),
    {
        match self {
            MP4Box::CompressedMovieFragment(x) => Some(x),
            _ => None,
        }
    }
}

} // verus!
