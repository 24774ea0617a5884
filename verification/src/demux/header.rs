use vstd::prelude::*;
use crate::bili_api::StreamAudioInfo;
use crate::errors::Error;
use crate::parsing::spec::ftyp::FileTypeBox;
use crate::parsing::spec::sidx::{CompressedSegmentIndexBox, Reference, reference_range, size_sum};
use crate::parsing::utils::box_type::BoxType;
use super::layout::{init_boxes, read_init};
use super::metadata::{
    MP4Metadata, index_entries, lemma_segment_is_reference_range, movie_default_duration,
    read_default_duration, read_index, sidx_slot,
};

verus! {

/// The header of a fragmented audio stream: its file type, the default sample duration
/// of its track, and its segment index, whose offsets count from `data_start_offset`.
pub struct MP4Header {
    pub file_type: FileTypeBox,
    pub default_sample_duration: u32,
    pub data_start_offset: usize,
    pub url: String,
    pub segments_indices: CompressedSegmentIndexBox,
}

/// The initialization segment `s` and the segment index `x` hold a header.
pub open spec fn header_ok(s: Seq<u8>, x: Seq<u8>) -> bool {
    &&& init_boxes(s) matches Some((_, moov)) && movie_default_duration(s, moov) is Some
    &&& sidx_slot(x) is Some
}

/// A header and a metadata read from the same stream agree on where each media segment
/// lies: the range that the header gives for entry `i` of its index is the byte range of
/// segment `i` of the metadata.
pub proof fn lemma_header_agrees_with_metadata(
    h: MP4Header,
    m: MP4Metadata,
    audio: &StreamAudioInfo,
    s: Seq<u8>,
    x: Seq<u8>,
    i: int,
)
    requires
        h.read_from(audio, s, x),
        m.read_from(audio, s, x),
        0 <= i < m.segments@.len(),
    ensures
        i < h.segments_indices.references@.len(),
        reference_range(
            h.data_start_offset + h.segments_indices.first_offset,
            h.segments_indices.references@,
            i,
        ) == m.segments@[i].data_range,
{
    let (base, refs) = index_entries(audio, x).unwrap();
    lemma_segment_is_reference_range(base, refs, i);
}

/// A header keeps the segment index of the index bytes it was read from: for the `sidx`
/// box `sidx` that the index bytes `x` hold, the header's first offset and entries are the
/// box's, so the header has a reference `i` exactly when the box has one, and the range the
/// header gives for it is the one the box gives when its offsets count from the stream's
/// data start offset.
pub proof fn lemma_header_keeps_index(
    h: MP4Header,
    audio: &StreamAudioInfo,
    s: Seq<u8>,
    x: Seq<u8>,
    sidx: CompressedSegmentIndexBox,
    i: int,
)
    requires
        h.read_from(audio, s, x),
        sidx_slot(x) matches Some(slot) && sidx.parsed_from(x, slot.start),
    ensures
        h.segments_indices.first_offset == sidx.first_offset,
        h.segments_indices.references@ == sidx.references@,
        (0 <= i < h.segments_indices.references@.len()) <==> (0 <= i < sidx.references@.len()),
        reference_range(
            h.data_start_offset + h.segments_indices.first_offset,
            h.segments_indices.references@,
            i,
        ) == reference_range(audio.index_range.1 + sidx.first_offset, sidx.references@, i),
{
    let slot = sidx_slot(x).unwrap();
    sidx.lemma_parsed_fields(x, slot.start);
}

impl MP4Header {
    /// The header holds what `audio`, its initialization segment `s` and its segment index
    /// `x` give.
    pub open spec fn read_from(&self, audio: &StreamAudioInfo, s: Seq<u8>, x: Seq<u8>) -> bool {
        &&& init_boxes(s) matches Some((f, moov)) && {
            &&& self.file_type.parsed_from(s, f.start, f.size)
            &&& movie_default_duration(s, moov) == Some(self.default_sample_duration)
        }
        &&& sidx_slot(x) matches Some(i) && {
            &&& self.segments_indices.first_offset == CompressedSegmentIndexBox::spec_first_offset(
                x,
                i.start,
            )
            &&& self.segments_indices.references@ == CompressedSegmentIndexBox::spec_references(
                x,
                i.start,
            )
        }
        &&& self.data_start_offset == audio.index_range.1
        &&& self.url@ == audio.base_url@
    }

    /// Reads the header of the audio stream `audio` from its initialization segment `init`
    /// (a `ftyp` box, then a `moov` box after any `free` boxes, whose `mvex/trex` box gives
    /// the default sample duration) and its segment index `index` (a `sidx` box).
    pub fn parse(audio: &StreamAudioInfo, init: &[u8], index: &[u8]) -> (r: Result<Self, Error>)
        ensures
            r is Ok <==> header_ok(init@, index@),
            r matches Ok(h) ==> h.read_from(audio, init@, index@),
            r matches Err(e) ==> e.is_io(),
    {
        let (file_type, default_sample_duration) = Self::read_head(init)?;
        Self::from_index(audio, file_type, default_sample_duration, index)
    }

    /// Reads what the header takes from the initialization segment `init`: the `ftyp` box,
    /// and the default sample duration of the `mvex/trex` box of the `moov` box that follows
    /// it after any `free` boxes. The segment index is read after it.
    pub fn read_head(init: &[u8]) -> (r: Result<(FileTypeBox, u32), Error>)
        ensures
            r is Ok <==> (init_boxes(init@) matches Some((_, moov)) && movie_default_duration(
                init@,
                moov,
            ) is Some),
            r matches Ok((file_type, duration)) ==> init_boxes(init@) matches Some((f, moov))
                && file_type.parsed_from(init@, f.start, f.size) && movie_default_duration(
                init@,
                moov,
            ) == Some(duration),
            r matches Err(e) ==> e.is_io(),
    {
        let ghost s = init@;
        let (file_type, moov) = read_init(init)?;
        let ghost mslot = init_boxes(s).unwrap().1;
        let default_sample_duration = read_default_duration(&moov, Ghost(s), Ghost(mslot))?;
        Ok((file_type, default_sample_duration))
    }

    /// Completes the header of the audio stream `audio`, whose initialization segment gave
    /// `file_type` and `default_sample_duration`, with its segment index `index` (a `sidx`
    /// box).
    pub fn from_index(
        audio: &StreamAudioInfo,
        file_type: FileTypeBox,
        default_sample_duration: u32,
        index: &[u8],
    ) -> (r: Result<Self, Error>)
        ensures
            r is Ok <==> sidx_slot(index@) is Some,
            r matches Ok(h) ==> h.file_type == file_type && h.default_sample_duration
                == default_sample_duration && h.data_start_offset == audio.index_range.1
                && h.url@ == audio.base_url@ && (sidx_slot(index@) matches Some(i) && {
                &&& h.segments_indices.first_offset
                    == CompressedSegmentIndexBox::spec_first_offset(index@, i.start)
                &&& h.segments_indices.references@ == CompressedSegmentIndexBox::spec_references(
                    index@,
                    i.start,
                )
            }),
            r matches Err(e) ==> e.is_io(),
    {
        let segments_indices = read_index(index)?;
        Ok(
            MP4Header {
                file_type,
                default_sample_duration,
                data_start_offset: audio.data_start_offset(),
                url: audio.base_url.clone(),
                segments_indices,
            },
        )
    }

    /// The brand the file conforms to.
    pub fn get_major_brand(&self) -> (r: BoxType)
        ensures
            r == self.file_type.major_brand,
    {
        self.file_type.major_brand
    }

    /// The version of the major brand.
    pub fn get_minor_version(&self) -> (r: u32)
        ensures
            r == self.file_type.minor_version,
    {
        self.file_type.minor_version
    }

    /// The brands the file is compatible with.
    pub fn get_compatible_brands(&self) -> (r: &[BoxType])
        ensures
            r@ == self.file_type.compatible_brands@,
    {
        self.file_type.compatible_brands.as_slice()
    }

    /// The first and last byte of media segment `index` in the file, and its entry in the
    /// segment index; nothing past the last segment.
    pub fn get_reference(&self, index: usize) -> (r: Option<((usize, usize), &Reference)>)
        requires
            self.data_start_offset + self.segments_indices.first_offset <= usize::MAX,
            index < self.segments_indices.references@.len() ==> self.data_start_offset
                + self.segments_indices.first_offset + size_sum(
                self.segments_indices.references@,
                index + 1,
            ) + 1 <= usize::MAX,
        ensures
            r is Some <==> index < self.segments_indices.references@.len(),
            r matches Some((range, entry)) ==> range == reference_range(
                self.data_start_offset + self.segments_indices.first_offset,
                self.segments_indices.references@,
                index as int,
            ) && *entry == self.segments_indices.references@[index as int],
    {
        self.segments_indices.get_reference(self.data_start_offset, index)
    }

    /// The sample duration that fragments use when they give none.
    pub fn get_default_sample_duration(&self) -> (r: u32)
        ensures
            r == self.default_sample_duration,
    {
        self.default_sample_duration
    }
}

} // verus!
