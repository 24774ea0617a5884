use vstd::prelude::*;
use crate::bili_api::StreamAudioInfo;
use crate::errors::{Error, internal_error, io_error};
use crate::parsing::container::{
    ContainerBox, MDIA, MINF, MOOV, MVEX, STBL, Slot, TRAK, container_parsed_from, find_in,
    then_find,
};
use crate::parsing::descriptor::{
    DecoderConfigDescriptor, DecoderSpecificInfo, ESDescriptor, es_children,
    spec_descriptor_header,
};
use crate::parsing::enter::{parse_box, spec_parse_box};
use crate::parsing::lookup::{find_sample_description, find_track_extends, lemma_top_parsed};
use crate::parsing::spec::audio_sample::AudioSampleBox;
use crate::parsing::spec::ftyp::FileTypeBox;
use crate::parsing::spec::sidx::{
    CompressedSegmentIndexBox, Reference, SIDX, duration_sum, lemma_duration_sum_monotone,
    lemma_size_sum_monotone, reference_range, size_sum,
};
use crate::parsing::spec::stsd::{STSD, SampleDescriptionBox, stsd_walk};
use crate::parsing::spec::trex::{TREX, TrackExtendsBox};
use crate::parsing::utils::box_stream::{BoxStream, be32, be64};
use crate::parsing::utils::box_type::BoxType;
use super::audio_object_type::AudioObjectType;
use super::channel_config::ChannelConfig;
use super::layout::{init_boxes, read_init};
use super::sampling_frequence_index::SamplingFrequenceIndex;

verus! {

/// Where a media segment lies: its first and last byte in the file, and the time span it
/// covers (start included, end excluded) in the track's time units.
#[derive(Debug, Clone, Copy)]
pub struct SegmentIndex {
    pub data_range: (usize, usize),
    pub time_range: (u64, u64),
}

/// What playing a fragmented audio stream needs to know before its first fragment: the
/// file type, the codec configuration, and where each media segment lies.
pub struct MP4Metadata {
    pub file_type: FileTypeBox,
    pub default_sample_duration: u32,
    pub audio_object_type: AudioObjectType,
    pub sampling_frequence_index: SamplingFrequenceIndex,
    pub channel_config: ChannelConfig,
    pub bitrate: u32,
    pub data_start_offset: usize,
    pub url: String,
    pub segments: Vec<SegmentIndex>,
}

/// What the initialization segment of an audio stream gives: the file type, the codec
/// configuration and the default sample duration. The segment index is read after it.
pub struct MovieInfo {
    pub file_type: FileTypeBox,
    pub default_sample_duration: u32,
    pub audio_object_type: AudioObjectType,
    pub sampling_frequence_index: SamplingFrequenceIndex,
    pub channel_config: ChannelConfig,
    pub bitrate: u32,
}

// ---------------------------------------------------------------------------------------
// Where the values come from
// ---------------------------------------------------------------------------------------

/// The `stsd` box of the first track of the movie whose `moov` payload `moov` describes:
/// `moov/trak/mdia/minf/stbl/stsd`, each the first child of its type.
pub open spec fn stsd_slot(s: Seq<u8>, moov: Slot) -> Option<Slot> {
    then_find(
        s,
        then_find(s, then_find(s, then_find(s, find_in(s, moov, TRAK), MDIA), MINF), STBL),
        STSD,
    )
}

/// The `trex` box of the movie: `moov/mvex/trex`.
pub open spec fn trex_slot(s: Seq<u8>, moov: Slot) -> Option<Slot> {
    then_find(s, find_in(s, moov, MVEX), TREX)
}

/// The position and payload size of the first sample entry of the `stsd` payload at `p`.
pub open spec fn first_entry(s: Seq<u8>, p: int) -> Option<(int, int)> {
    match stsd_walk(s, p + 8, be32(s, p + 4) as nat) {
        Some((entries, _)) => if entries.len() > 0 {
            Some(entries[0])
        } else {
            None
        },
        None => None,
    }
}

/// The decoder configuration that the elementary stream descriptor of the audio sample
/// entry at `q` (payload of `size` bytes) holds, if it holds one.
pub open spec fn entry_config(s: Seq<u8>, q: int, size: int) -> Option<DecoderConfigDescriptor> {
    match AudioSampleBox::child(s, q, size) {
        Some((c, _, _)) => match spec_descriptor_header(s, c + 4) {
            Some((_, dsz, h)) => {
                let d = c + 4 + h;
                match es_children(s, ESDescriptor::layout(s, d).end, d + dsz, None) {
                    Some((_, cfg)) => cfg,
                    None => None,
                }
            },
            None => None,
        },
        None => None,
    }
}

/// The average bit rate and the codec configuration of the movie's first audio entry.
pub open spec fn movie_codec(s: Seq<u8>, moov: Slot) -> Option<(u32, DecoderSpecificInfo)> {
    match stsd_slot(s, moov) {
        Some(t) => match first_entry(s, t.start) {
            Some((q, n)) => match entry_config(s, q, n) {
                Some(cfg) => match cfg.decoder_specific {
                    Some(d) => Some((cfg.avg_bitrate, d)),
                    None => None,
                },
                None => None,
            },
            None => None,
        },
        None => None,
    }
}

/// The codec configuration names an object type, a sampling frequency from the table and
/// a channel configuration that are known.
pub open spec fn codec_supported(d: DecoderSpecificInfo) -> bool {
    &&& exists|t: AudioObjectType| t.spec_code() == d.object_type
    &&& d.sampling_frequency_index <= 12
    &&& d.channel_configuration <= 7
}

/// The default sample duration of the movie's track extension.
pub open spec fn movie_default_duration(s: Seq<u8>, moov: Slot) -> Option<u32> {
    match trex_slot(s, moov) {
        Some(t) => match TrackExtendsBox::spec_parse(s, t.start) {
            Some((x, _)) => Some(x.default_sample_duration),
            None => None,
        },
        None => None,
    }
}

/// The `sidx` box at the start of a segment index.
pub open spec fn sidx_slot(x: Seq<u8>) -> Option<Slot> {
    match spec_parse_box(x, 0) {
        Some((slot, _)) => if slot.typ == SIDX {
            Some(slot)
        } else {
            None
        },
        None => None,
    }
}

/// The segments whose sizes and durations `refs` gives, laid one after the other from
/// the byte after `base` and from time 0 on.
pub open spec fn spec_segments(base: int, refs: Seq<Reference>) -> Seq<SegmentIndex> {
    Seq::new(
        refs.len(),
        |i: int|
            SegmentIndex {
                data_range: reference_range(base, refs, i),
                time_range: (duration_sum(refs, i) as u64, duration_sum(refs, i + 1) as u64),
            },
    )
}

/// The byte positions and times of the first `n` segments of `spec_segments(base, refs)`
/// fit their types.
pub open spec fn prefix_fits(base: int, refs: Seq<Reference>, n: int) -> bool {
    forall|i: int| 0 <= i < n ==> #[trigger] segment_fits(base, refs, i)
}

/// The byte positions and times of segment `i` of `spec_segments(base, refs)` fit their
/// types.
pub open spec fn segment_fits(base: int, refs: Seq<Reference>, i: int) -> bool {
    &&& base + size_sum(refs, i) + 1 <= usize::MAX
    &&& base + size_sum(refs, i + 1) <= usize::MAX
    &&& duration_sum(refs, i + 1) <= u64::MAX
}

/// Every byte position and time of `spec_segments(base, refs)` fits its type.
pub open spec fn segments_fit(base: int, refs: Seq<Reference>) -> bool {
    &&& base <= usize::MAX
    &&& prefix_fits(base, refs, refs.len() as int)
}

/// The offset the segment index's offsets count from, and its entries.
pub open spec fn index_entries(audio: &StreamAudioInfo, x: Seq<u8>) -> Option<(int, Seq<Reference>)> {
    match sidx_slot(x) {
        Some(i) => Some(
            (
                audio.index_range.1 + CompressedSegmentIndexBox::spec_first_offset(x, i.start),
                CompressedSegmentIndexBox::spec_references(x, i.start),
            ),
        ),
        None => None,
    }
}

/// The initialization segment `s` and the segment index `x` of `audio` can be read.
pub open spec fn metadata_ok(audio: &StreamAudioInfo, s: Seq<u8>, x: Seq<u8>) -> bool {
    &&& init_boxes(s) matches Some((_, moov))
    &&& movie_codec(s, moov) matches Some((_, d)) && codec_supported(d)
    &&& movie_default_duration(s, moov) is Some
    &&& index_entries(audio, x) matches Some((base, refs)) && segments_fit(base, refs)
}

/// Reading fails on a value the library does not support rather than on malformed bytes:
/// a codec configuration that names an unknown object type, frequency or channel
/// configuration, or segments that lie beyond what a `usize` or `u64` can count.
pub open spec fn metadata_unsupported(audio: &StreamAudioInfo, s: Seq<u8>, x: Seq<u8>) -> bool {
    &&& init_boxes(s) matches Some((_, moov))
    &&& movie_codec(s, moov) matches Some((_, d))
    &&& {
        ||| !codec_supported(d)
        ||| movie_default_duration(s, moov) is Some && (index_entries(audio, x) matches Some(
            (base, refs),
        ) && !segments_fit(base, refs))
    }
}

/// The initialization segment `s` can be read and its codec is supported.
pub open spec fn movie_ok(s: Seq<u8>) -> bool {
    &&& init_boxes(s) matches Some((_, moov))
    &&& movie_codec(s, moov) matches Some((_, d)) && codec_supported(d)
    &&& movie_default_duration(s, moov) is Some
}

/// The codec configuration of the initialization segment `s` names an unknown object
/// type, frequency or channel configuration.
pub open spec fn movie_unsupported(s: Seq<u8>) -> bool {
    &&& init_boxes(s) matches Some((_, moov))
    &&& movie_codec(s, moov) matches Some((_, d)) && !codec_supported(d)
}

/// The segment index `x` of `audio` can be read and its segments can be counted.
pub open spec fn index_ok(audio: &StreamAudioInfo, x: Seq<u8>) -> bool {
    index_entries(audio, x) matches Some((base, refs)) && segments_fit(base, refs)
}

/// The segments of the segment index `x` of `audio` lie beyond what a `usize` or `u64`
/// can count.
pub open spec fn index_unsupported(audio: &StreamAudioInfo, x: Seq<u8>) -> bool {
    index_entries(audio, x) matches Some((base, refs)) && !segments_fit(base, refs)
}

impl MovieInfo {
    /// The values hold what the initialization segment `s` gives.
    pub open spec fn read_from(&self, s: Seq<u8>) -> bool {
        init_boxes(s) matches Some((f, moov)) && {
            &&& self.file_type.parsed_from(s, f.start, f.size)
            &&& movie_codec(s, moov) matches Some((bitrate, d)) && {
                &&& self.bitrate == bitrate
                &&& self.audio_object_type.spec_code() == d.object_type
                &&& self.sampling_frequence_index.spec_index() == d.sampling_frequency_index
                &&& self.channel_config.spec_code() == d.channel_configuration
            }
            &&& movie_default_duration(s, moov) == Some(self.default_sample_duration)
        }
    }
}

impl MP4Metadata {
    /// The metadata holds what `movie`, `audio` and the segment index `x` give.
    pub open spec fn built_from(&self, movie: MovieInfo, audio: &StreamAudioInfo, x: Seq<u8>) -> bool {
        &&& self.file_type == movie.file_type
        &&& self.default_sample_duration == movie.default_sample_duration
        &&& self.audio_object_type == movie.audio_object_type
        &&& self.sampling_frequence_index == movie.sampling_frequence_index
        &&& self.channel_config == movie.channel_config
        &&& self.bitrate == movie.bitrate
        &&& self.data_start_offset == audio.index_range.1
        &&& self.url@ == audio.base_url@
        &&& index_entries(audio, x) matches Some((base, refs)) && self.segments@ == spec_segments(
            base,
            refs,
        )
    }

    /// The metadata holds what `audio`, its initialization segment `s` and its segment
    /// index `x` give.
    pub open spec fn read_from(&self, audio: &StreamAudioInfo, s: Seq<u8>, x: Seq<u8>) -> bool {
        &&& init_boxes(s) matches Some((f, moov)) && {
            &&& self.file_type.parsed_from(s, f.start, f.size)
            &&& movie_codec(s, moov) matches Some((bitrate, d)) && {
                &&& self.bitrate == bitrate
                &&& self.audio_object_type.spec_code() == d.object_type
                &&& self.sampling_frequence_index.spec_index() == d.sampling_frequency_index
                &&& self.channel_config.spec_code() == d.channel_configuration
            }
            &&& movie_default_duration(s, moov) == Some(self.default_sample_duration)
        }
        &&& self.data_start_offset == audio.index_range.1
        &&& self.url@ == audio.base_url@
        &&& index_entries(audio, x) matches Some((base, refs)) && self.segments@ == spec_segments(
            base,
            refs,
        )
    }
}


/// The segments follow each other without gap or overlap, in bytes and in time: the first
/// starts at the byte after `base` and at time 0, each one starts at the byte after the
/// last byte of the one before and at the time it ends, and each spans its entry's size
/// and duration.
pub proof fn lemma_segments_contiguous(base: int, refs: Seq<Reference>)
    requires
        0 <= base,
        segments_fit(base, refs),
    ensures
        refs.len() > 0 ==> spec_segments(base, refs)[0].data_range.0 == base + 1
            && spec_segments(base, refs)[0].time_range.0 == 0,
        forall|i: int|
            0 <= i < refs.len() - 1 ==> {
                &&& (#[trigger] spec_segments(base, refs)[i + 1]).data_range.0 == spec_segments(
                    base,
                    refs,
                )[i].data_range.1 + 1
                &&& spec_segments(base, refs)[i + 1].time_range.0 == spec_segments(
                    base,
                    refs,
                )[i].time_range.1
            },
        forall|i: int|
            0 <= i < refs.len() ==> {
                &&& (#[trigger] spec_segments(base, refs)[i]).data_range.1 + 1
                    - spec_segments(base, refs)[i].data_range.0 == refs[i].references_size
                &&& spec_segments(base, refs)[i].time_range.1 - spec_segments(
                    base,
                    refs,
                )[i].time_range.0 == refs[i].subsegment_duration
            },
{
    let segs = spec_segments(base, refs);
    assert forall|i: int| 0 <= i < refs.len() implies {
        &&& segs[i].data_range.0 == base + size_sum(refs, i) + 1
        &&& segs[i].data_range.1 == base + size_sum(refs, i + 1)
        &&& segs[i].time_range.0 == duration_sum(refs, i)
        &&& segs[i].time_range.1 == duration_sum(refs, i + 1)
    } by {
        assert(segment_fits(base, refs, i));
        lemma_size_sum_monotone(refs, 0, i);
        lemma_duration_sum_monotone(refs, 0, i);
        if i > 0 {
            assert(segment_fits(base, refs, i - 1));
        }
    }
    assert forall|i: int| 0 <= i < refs.len() - 1 implies {
        &&& (#[trigger] segs[i + 1]).data_range.0 == segs[i].data_range.1 + 1
        &&& segs[i + 1].time_range.0 == segs[i].time_range.1
    } by {
        assert(segs[i + 1].data_range.0 == base + size_sum(refs, i + 1) + 1);
    }
    assert forall|i: int| 0 <= i < refs.len() implies {
        &&& (#[trigger] segs[i]).data_range.1 + 1 - segs[i].data_range.0 == refs[i].references_size
        &&& segs[i].time_range.1 - segs[i].time_range.0 == refs[i].subsegment_duration
    } by {
        assert(segs[i].data_range.0 == base + size_sum(refs, i) + 1);
    }
}

/// The default sample duration of a stream is the one its track extension box
/// (`moov/mvex/trex`) stores after its version and flags, track id and sample description
/// index: the 32-bit value 12 bytes into its payload.
pub proof fn lemma_default_duration_from_trex(m: MP4Metadata, audio: &StreamAudioInfo, s: Seq<u8>, x: Seq<u8>)
    requires
        m.read_from(audio, s, x),
    ensures
        init_boxes(s) matches Some((_, moov)) && trex_slot(s, moov) matches Some(t)
            && m.default_sample_duration == be32(s, t.start + 12),
{
}

/// The first segment of a stream starts at the byte after the stream's data start offset
/// (the last byte of its index range) plus the first offset that its `sidx` box stores:
/// the 32-bit value 16 bytes into its payload in version 0, and in any other version the
/// 64-bit value 20 bytes into it, after the 64-bit earliest presentation time.
pub proof fn lemma_first_segment_start(m: MP4Metadata, audio: &StreamAudioInfo, s: Seq<u8>, x: Seq<u8>)
    requires
        m.read_from(audio, s, x),
        m.segments@.len() > 0,
    ensures
        sidx_slot(x) matches Some(i) && m.segments@[0].data_range.0 == (audio.index_range.1 + (if x[i.start] == 0 {
            be32(x, i.start + 16) as int
        } else {
            be64(x, i.start + 20) as int
        }) + 1) as usize,
{
    let i = sidx_slot(x).unwrap();
    let (base, refs) = index_entries(audio, x).unwrap();
    assert(m.segments@[0] == spec_segments(base, refs)[0]);
    assert(size_sum(refs, 0) == 0);
}

/// The byte range of segment `i` is the range that the segment index gives for entry `i`
/// when its offsets count from the same base.
pub proof fn lemma_segment_is_reference_range(base: int, refs: Seq<Reference>, i: int)
    requires
        0 <= i < refs.len(),
    ensures
        spec_segments(base, refs)[i].data_range == reference_range(base, refs, i),
{
}

// ---------------------------------------------------------------------------------------
// Reading
// ---------------------------------------------------------------------------------------

/// The segments of a stream whose media data starts after byte `data_start_offset`, from
/// the first offset and the entries of its segment index. Positions or times that do not
/// fit are refused.
pub fn build_segments(data_start_offset: usize, first_offset: u64, refs: &[Reference]) -> (r: Result<
    Vec<SegmentIndex>,
    Error,
>)
    ensures
        r is Ok <==> segments_fit(data_start_offset + first_offset, refs@),
        r matches Ok(v) ==> v@ == spec_segments(data_start_offset + first_offset, refs@),
        r matches Err(e) ==> e.is_internal() && e.message() == "segment offsets overflow"@,
{
    let ghost base = data_start_offset + first_offset;
    if first_offset > (usize::MAX - data_start_offset) as u64 {
        return Err(internal_error("segment offsets overflow"));
    }
    let mut data_offset: usize = data_start_offset + first_offset as usize;
    let mut time_offset: u64 = 0;
    let mut segments: Vec<SegmentIndex> = Vec::new();
    let mut i: usize = 0;
    while i < refs.len()
        invariant
            base == data_start_offset + first_offset,
            base <= usize::MAX,
            i <= refs@.len(),
            data_offset == base + size_sum(refs@, i as int),
            time_offset == duration_sum(refs@, i as int),
            segments@.len() == i,
            prefix_fits(base, refs@, i as int),
            forall|j: int| 0 <= j < i ==> #[trigger] segments@[j] == spec_segments(base, refs@)[j],
        decreases refs@.len() - i,
    {
        let size = refs[i].references_size as usize;
        let duration = refs[i].subsegment_duration as u64;
        let ghost k = i as int;
        assert(size_sum(refs@, k + 1) == size_sum(refs@, k) + refs@[k].references_size);
        assert(duration_sum(refs@, k + 1) == duration_sum(refs@, k) + refs@[k].subsegment_duration);
        if data_offset == usize::MAX || size > usize::MAX - data_offset || duration > u64::MAX
            - time_offset {
            assert(!segment_fits(base, refs@, k));
            return Err(internal_error("segment offsets overflow"));
        }
        let next_data = data_offset + size;
        let next_time = time_offset + duration;
        segments.push(
            SegmentIndex {
                data_range: (data_offset + 1, next_data),
                time_range: (time_offset, next_time),
            },
        );
        assert(base + size_sum(refs@, k) + 1 <= usize::MAX);
        assert(base + size_sum(refs@, k + 1) <= usize::MAX);
        assert(duration_sum(refs@, k + 1) <= u64::MAX);
        assert(segment_fits(base, refs@, k));
        assert(prefix_fits(base, refs@, k + 1));
        data_offset = next_data;
        time_offset = next_time;
        i = i + 1;
    }
    assert(segments@ =~= spec_segments(base, refs@));
    assert(segments_fit(base, refs@));
    Ok(segments)
}

impl MP4Metadata {
    /// Reads the metadata of the audio stream `audio` from its initialization segment
    /// `init` and its segment index `index`: the `ftyp` box, then the first `moov` box
    /// after any `free` boxes, whose first track's first audio entry gives the codec and
    /// whose `mvex/trex` box gives the default sample duration, then the `sidx` box whose
    /// entries give the segments.
    pub fn parse(audio: &StreamAudioInfo, init: &[u8], index: &[u8]) -> (r: Result<Self, Error>)
        ensures
            r is Ok <==> metadata_ok(audio, init@, index@),
            r matches Ok(m) ==> m.read_from(audio, init@, index@),
            r matches Err(e) ==> (e.is_internal() <==> metadata_unsupported(audio, init@, index@)),
    {
        let movie = Self::read_movie(init)?;
        Self::from_index(audio, movie, index)
    }

    /// Reads what the initialization segment `init` of an audio stream gives: the `ftyp`
    /// box, then the first `moov` box after any `free` boxes, whose first track's first
    /// audio entry gives the codec and whose `mvex/trex` box gives the default sample
    /// duration. A codec that names an unknown object type, frequency or channel
    /// configuration is refused as an internal error, before the segment index is needed.
    pub fn read_movie(init: &[u8]) -> (r: Result<MovieInfo, Error>)
        ensures
            r is Ok <==> movie_ok(init@),
            r matches Ok(m) ==> m.read_from(init@),
            r matches Err(e) ==> (e.is_internal() <==> movie_unsupported(init@)),
    {
        let ghost s = init@;
        let (file_type, moov) = read_init(init)?;
        let ghost mslot = init_boxes(s).unwrap().1;
        let (bitrate, specific) = read_codec(&moov, Ghost(s), Ghost(mslot))?;
        let audio_object_type = AudioObjectType::try_from(specific.get_object_type())?;
        let sampling_frequence_index = SamplingFrequenceIndex::try_from(
            specific.get_sampling_frequency_index(),
        )?;
        let channel_config = ChannelConfig::try_from(specific.get_channel_configuration())?;
        let default_sample_duration = read_default_duration(&moov, Ghost(s), Ghost(mslot))?;
        Ok(
            MovieInfo {
                file_type,
                default_sample_duration,
                audio_object_type,
                sampling_frequence_index,
                channel_config,
                bitrate,
            },
        )
    }

    /// Completes the metadata of the audio stream `audio`, whose initialization segment
    /// gave `movie`, with its segment index `index`: the `sidx` box whose entries give the
    /// segments. Segments beyond what a `usize` or `u64` can count are refused as an
    /// internal error.
    pub fn from_index(audio: &StreamAudioInfo, movie: MovieInfo, index: &[u8]) -> (r: Result<Self, Error>)
        ensures
            r is Ok <==> index_ok(audio, index@),
            r matches Ok(m) ==> m.built_from(movie, audio, index@),
            r matches Err(e) ==> (e.is_internal() <==> index_unsupported(audio, index@)),
    {
        let data_start_offset = audio.data_start_offset();
        let segments_indices = read_index(index)?;
        let segments = build_segments(
            data_start_offset,
            segments_indices.get_first_offset(),
            segments_indices.get_references(),
        )?;
        let MovieInfo {
            file_type,
            default_sample_duration,
            audio_object_type,
            sampling_frequence_index,
            channel_config,
            bitrate,
        } = movie;
        Ok(
            MP4Metadata {
                file_type,
                default_sample_duration,
                audio_object_type,
                sampling_frequence_index,
                channel_config,
                bitrate,
                data_start_offset,
                url: audio.base_url.clone(),
                segments,
            },
        )
    }
}

/// The `sidx` box at the start of a segment index.
pub(crate) fn read_index(index: &[u8]) -> (r: Result<CompressedSegmentIndexBox, Error>)
    ensures
        r is Ok <==> sidx_slot(index@) is Some,
        r matches Ok(b) ==> sidx_slot(index@) matches Some(i) && b.first_offset
            == CompressedSegmentIndexBox::spec_first_offset(index@, i.start) && b.references@
            == CompressedSegmentIndexBox::spec_references(index@, i.start),
        r matches Err(e) ==> e.is_io(),
{
    let ghost x = index@;
    let mut stream = BoxStream::new(index);
    let top = parse_box(&mut stream)?;
    proof {
        let (islot, _) = spec_parse_box(x, 0).unwrap();
        lemma_top_parsed(top, x, islot.start, islot.size);
    }
    let segments_indices = match top.into_segment_index() {
        Some(b) => b,
        None => {
            return Err(io_error("want sidx"));
        },
    };
    proof {
        let islot = sidx_slot(x).unwrap();
        segments_indices.lemma_parsed_fields(x, islot.start);
    }
    Ok(segments_indices)
}

/// The average bit rate and the codec configuration of the first audio entry of the
/// movie box `moov`, parsed from the payload that `mslot` describes.
fn read_codec(moov: &ContainerBox, Ghost(s): Ghost<Seq<u8>>, Ghost(mslot): Ghost<Slot>) -> (r: Result<
    (u32, DecoderSpecificInfo),
    Error,
>)
    requires
        container_parsed_from(moov, s, mslot.start, mslot.size, MOOV),
        mslot.typ == MOOV,
    ensures
        r is Ok <==> movie_codec(s, mslot) is Some,
        r matches Ok(v) ==> movie_codec(s, mslot) == Some(v),
        r matches Err(e) ==> e.is_io(),
{
    let sample_table = find_sample_table(moov, Ghost(s), Ghost(mslot))?;
    let ghost bslot = then_find(
        s,
        then_find(s, then_find(s, find_in(s, mslot, TRAK), MDIA), MINF),
        STBL,
    ).unwrap();
    let sample_description = match find_sample_description(sample_table, Ghost(s), Ghost(bslot)) {
        Some(d) => d,
        None => {
            return Err(io_error("cannot find STSD"));
        },
    };
    let ghost dslot = find_in(s, bslot, STSD).unwrap();
    proof {
        lemma_entry_config(sample_description, s, dslot.start);
    }
    entry_codec(sample_description)
}

/// The `stbl` box of the first track of the movie box `moov`: `trak/mdia/minf/stbl`.
fn find_sample_table<'a>(moov: &'a ContainerBox, Ghost(s): Ghost<Seq<u8>>, Ghost(mslot): Ghost<Slot>) -> (r:
    Result<&'a ContainerBox, Error>)
    requires
        container_parsed_from(moov, s, mslot.start, mslot.size, MOOV),
        mslot.typ == MOOV,
    ensures
        r is Ok <==> then_find(
            s,
            then_find(s, then_find(s, find_in(s, mslot, TRAK), MDIA), MINF),
            STBL,
        ) is Some,
        r matches Ok(c) ==> then_find(
            s,
            then_find(s, then_find(s, find_in(s, mslot, TRAK), MDIA), MINF),
            STBL,
        ) matches Some(b) && b.typ == STBL && container_parsed_from(c, s, b.start, b.size, STBL),
        r matches Err(e) ==> e.is_io(),
{
    let track = match moov.get_container(TRAK, Ghost(s), Ghost(mslot)) {
        Some(c) => c,
        None => {
            return Err(io_error("cannot find TRAK"));
        },
    };
    let ghost tslot = find_in(s, mslot, TRAK).unwrap();
    let media = match track.get_container(MDIA, Ghost(s), Ghost(tslot)) {
        Some(c) => c,
        None => {
            return Err(io_error("cannot find MDIA"));
        },
    };
    let ghost aslot = find_in(s, tslot, MDIA).unwrap();
    let media_information = match media.get_container(MINF, Ghost(s), Ghost(aslot)) {
        Some(c) => c,
        None => {
            return Err(io_error("cannot find MINF"));
        },
    };
    let ghost islot = find_in(s, aslot, MINF).unwrap();
    match media_information.get_container(STBL, Ghost(s), Ghost(islot)) {
        Some(c) => Ok(c),
        None => Err(io_error("cannot find STBL")),
    }
}

/// The first sample entry of a parsed `stsd` payload is the one stored first, and its
/// decoder configuration is the one its descriptor stores.
pub(crate) proof fn lemma_entry_config(d: &SampleDescriptionBox, s: Seq<u8>, p: int)
    requires
        d.parsed_from(s, p),
    ensures
        d.entries@.len() > 0 <==> first_entry(s, p) is Some,
        d.entries@.len() > 0 ==> (first_entry(s, p) matches Some((q, n)) && d.entries@[0].parsed_from(
            s,
            q,
            n,
        ) && d.entries@[0].footer.descriptor.decoder_config == entry_config(s, q, n)),
{
    if d.entries@.len() > 0 {
        let (q, n) = first_entry(s, p).unwrap();
        assert(d.entries@[0].parsed_from(s, q, n));
    }
}

/// The average bit rate and the codec configuration of the first entry of a sample
/// description.
fn entry_codec(d: &SampleDescriptionBox) -> (r: Result<(u32, DecoderSpecificInfo), Error>)
    ensures
        r is Ok <==> d.entries@.len() > 0 && (d.entries@[0].footer.descriptor.decoder_config matches Some(
            cfg,
        ) && cfg.decoder_specific is Some),
        r matches Ok((bitrate, specific)) ==> d.entries@[0].footer.descriptor.decoder_config
            matches Some(cfg) && bitrate == cfg.avg_bitrate && cfg.decoder_specific == Some(
            specific,
        ),
        r matches Err(e) ==> e.is_io(),
{
    let audio_sample = match d.get_audio_sample() {
        Some(a) => a,
        None => {
            return Err(io_error("cannot find Audio Codec"));
        },
    };
    let conf = match audio_sample.get_elementary_stream_descriptor().get_es_descriptor().get_decoder_config() {
        Some(c) => c,
        None => {
            return Err(io_error("cannot find decoder config"));
        },
    };
    let specific = match conf.get_decoder_specific() {
        Some(x) => x,
        None => {
            return Err(io_error("cannot find decoder specific info"));
        },
    };
    Ok((conf.get_avg_bitrate(), specific))
}

/// The default sample duration of the `mvex/trex` box of the movie box `moov`, parsed from
/// the payload that `mslot` describes.
pub(crate) fn read_default_duration(moov: &ContainerBox, Ghost(s): Ghost<Seq<u8>>, Ghost(mslot): Ghost<Slot>) -> (r: Result<
    u32,
    Error,
>)
    requires
        container_parsed_from(moov, s, mslot.start, mslot.size, MOOV),
        mslot.typ == MOOV,
    ensures
        r is Ok <==> movie_default_duration(s, mslot) is Some,
        r matches Ok(v) ==> movie_default_duration(s, mslot) == Some(v),
        r matches Err(e) ==> e.is_io(),
{
    let movie_extends = match moov.get_container(MVEX, Ghost(s), Ghost(mslot)) {
        Some(c) => c,
        None => {
            return Err(io_error("cannot find MVEX"));
        },
    };
    let ghost xslot = find_in(s, mslot, MVEX).unwrap();
    let track_extends = match find_track_extends(movie_extends, Ghost(s), Ghost(xslot)) {
        Some(t) => t,
        None => {
            return Err(io_error("cannot find MVEX"));
        },
    };
    Ok(track_extends.get_default_sample_duration())
}

impl MP4Metadata {
    /// The brand the file conforms to.
    pub fn get_major_brand(&self) -> (r: BoxType)
        ensures
            r == self.file_type.major_brand,
    {
        self.file_type.major_brand
    }

    /// The version of the major brand.
    pub fn get_minor_version(&self) -> (r: u32)
        ensures
            r == self.file_type.minor_version,
    {
        self.file_type.minor_version
    }

    /// The brands the file is compatible with.
    pub fn get_compatible_brands(&self) -> (r: &[BoxType])
        ensures
            r@ == self.file_type.compatible_brands@,
    {
        self.file_type.compatible_brands.as_slice()
    }

    /// The media segments, in order.
    pub fn get_segments(&self) -> (r: &[SegmentIndex])
        ensures
            r@ == self.segments@,
    {
        self.segments.as_slice()
    }

    /// The sample duration that fragments use when they give none.
    pub fn get_default_sample_duration(&self) -> (r: u32)
        ensures
            r == self.default_sample_duration,
    {
        self.default_sample_duration
    }

    /// The average bit rate of the stream.
    pub fn get_bitrate(&self) -> (r: u32)
        ensures
            r == self.bitrate,
    {
        self.bitrate
    }

    /// The channel configuration of the stream.
    pub fn get_channel_configuration(&self) -> (r: ChannelConfig)
        ensures
            r == self.channel_config,
    {
        self.channel_config
    }

    /// The sampling frequency of the stream in Hz.
    pub fn sample_rate(&self) -> (r: u32)
        ensures
            r == self.sampling_frequence_index.spec_sample_rate(),
    {
        self.sampling_frequence_index.sample_rate()
    }
}

} // verus!
