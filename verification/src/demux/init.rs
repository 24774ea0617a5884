use vstd::prelude::*;
use crate::errors::{Error, internal_error, io_error};
use crate::parsing::container::{
    ContainerBox, MDIA, MINF, MOOV, STBL, Slot, TRAK, container_parsed_from, find_in, then_find,
};
use crate::parsing::lookup::{
    find_handler, find_media_header, find_sample_description, find_track_header,
    take_sample_description,
};
use crate::parsing::spec::audio_sample::AudioSampleBox;
use crate::parsing::spec::hdlr::{HDLR, HandlerBox};
use crate::parsing::spec::mdhd::{MDHD, MediaHeaderBox};
use crate::parsing::spec::stsd::STSD;
use crate::parsing::spec::tkhd::{TKHD, TrackHeaderBox};
use crate::parsing::utils::box_stream::{BoxStream, be32};
use crate::parsing::utils::box_type::BoxType;
use super::layout::{find_moov, moov_from};
use super::metadata::{first_entry, lemma_entry_config, stsd_slot};

verus! {

/// What the first track of a movie says of itself: its id, duration and time scale, the
/// kind of its media, its name, and its audio sample entry.
pub struct TrackInitData {
    pub track_id: u32,
    pub duration: u64,
    pub timescale: u32,
    pub handler_type: BoxType,
    pub name: String,
    pub codec: AudioSampleBox,
}

/// The `tkhd`, `mdhd`, `hdlr` and `stsd` boxes of the first track of the movie whose
/// `moov` payload `moov` describes: `trak/tkhd`, `trak/mdia/mdhd`, `trak/mdia/hdlr` and
/// `trak/mdia/minf/stbl/stsd`, each the first child of its type.
pub open spec fn track_boxes(s: Seq<u8>, moov: Slot) -> Option<(Slot, Slot, Slot, Slot)> {
    let trak = find_in(s, moov, TRAK);
    let mdia = then_find(s, trak, MDIA);
    match (then_find(s, trak, TKHD), then_find(s, mdia, MDHD), then_find(s, mdia, HDLR), stsd_slot(s, moov)) {
        (Some(th), Some(mh), Some(hd), Some(sd)) => Some((th, mh, hd, sd)),
        _ => None,
    }
}

/// The boxes of the first track of the first `moov` box from `p` on are there.
pub open spec fn track_found(s: Seq<u8>, p: int) -> bool {
    moov_from(s, p) matches Some(moov) && track_boxes(s, moov) is Some
}

/// The first track of the first `moov` box from `p` on can be read: its boxes are there
/// and its sample description holds an entry.
pub open spec fn track_ok(s: Seq<u8>, p: int) -> bool {
    moov_from(s, p) matches Some(moov) && (track_boxes(s, moov) matches Some((_, _, _, sd))
        && first_entry(s, sd.start) is Some)
}

/// The time scale of a track is the one its media header (`trak/mdia/mdhd`) stores after
/// the creation and modification times: the 32-bit value 20 bytes into its payload in
/// version 1, where those times are 64 bits wide, and 12 bytes into it in any other
/// version.
pub proof fn lemma_track_timescale(d: TrackInitData, s: Seq<u8>, p: int)
    requires
        d.read_from(s, p),
    ensures
        moov_from(s, p) matches Some(moov) && track_boxes(s, moov) matches Some((_, mh, _, _))
            && d.timescale == (if s[mh.start] == 1 {
            be32(s, mh.start + 20)
        } else {
            be32(s, mh.start + 12)
        }),
{
    let moov = moov_from(s, p).unwrap();
    let (_, mh, _, _) = track_boxes(s, moov).unwrap();
    let (m, e) = MediaHeaderBox::spec_parse(s, mh.start).unwrap();
    MediaHeaderBox::lemma_layout(s, mh.start, m, e);
}

impl TrackInitData {
    /// The track data holds what the first track of the first `moov` box from `p` on stores.
    pub open spec fn read_from(&self, s: Seq<u8>, p: int) -> bool {
        &&& moov_from(s, p) matches Some(moov)
        &&& track_boxes(s, moov) matches Some((th, mh, hd, sd))
        &&& TrackHeaderBox::spec_parse(s, th.start) matches Some((t, _))
        &&& self.track_id == t.track_id
        &&& self.duration == t.duration
        &&& MediaHeaderBox::spec_parse(s, mh.start) matches Some((m, _))
        &&& self.timescale == m.timescale
        &&& self.handler_type == HandlerBox::spec_handler(s, hd.start)
        &&& self.name@ == HandlerBox::spec_name(s, hd.start, hd.size)
        &&& first_entry(s, sd.start) matches Some((q, n))
        &&& self.codec.parsed_from(s, q, n)
    }

    /// The id of the track.
    pub fn get_track_id(&self) -> (r: u32)
        ensures
            r == self.track_id,
    {
        self.track_id
    }

    /// The duration of the track in the movie's time units.
    pub fn get_duration(&self) -> (r: u64)
        ensures
            r == self.duration,
    {
        self.duration
    }

    /// The time units per second of the track's media.
    pub fn get_timescale(&self) -> (r: u32)
        ensures
            r == self.timescale,
    {
        self.timescale
    }

    /// Reads the first track of the first `moov` box that the stream holds from its
    /// position on (only `free` boxes may stand before it). A track whose sample
    /// description holds no audio entry is refused as unsupported.
    pub fn parse(stream: &mut BoxStream) -> (r: Result<Self, Error>)
        requires
            old(stream).wf(),
        ensures
            old(stream).same_bytes(*final(stream)),
            r is Ok <==> track_ok(old(stream).bytes(), old(stream).position()),
            r matches Ok(t) ==> t.read_from(old(stream).bytes(), old(stream).position()),
            r matches Err(e) ==> (e.is_internal() <==> track_found(
                old(stream).bytes(),
                old(stream).position(),
            ) && !track_ok(old(stream).bytes(), old(stream).position())),
    {
        let ghost s = old(stream).bytes();
        let ghost p = old(stream).position();
        let moov = find_moov(stream)?;
        let ghost mslot = moov_from(s, p).unwrap();
        let (track_id, duration, timescale, handler_type, name) = read_track_fields(
            &moov,
            Ghost(s),
            Ghost(mslot),
        )?;
        let codec = match take_codec(moov, Ghost(s), Ghost(mslot)) {
            Some(c) => c,
            None => {
                return Err(internal_error("only support audio codec"));
            },
        };
        Ok(TrackInitData { track_id, duration, timescale, handler_type, name, codec })
    }
}

/// The id, duration, time scale, handler type and name of the first track of the movie box
/// `moov`, once its `tkhd`, `mdhd`, `hdlr` and `stsd` boxes are found.
fn read_track_fields(moov: &ContainerBox, Ghost(s): Ghost<Seq<u8>>, Ghost(mslot): Ghost<Slot>) -> (r:
    Result<(u32, u64, u32, BoxType, String), Error>)
    requires
        container_parsed_from(moov, s, mslot.start, mslot.size, MOOV),
        mslot.typ == MOOV,
    ensures
        r is Ok <==> track_boxes(s, mslot) is Some,
        r matches Ok((track_id, duration, timescale, handler_type, name)) ==> track_boxes(
            s,
            mslot,
        ) matches Some((th, mh, hd, _)) && {
            &&& TrackHeaderBox::spec_parse(s, th.start) matches Some((t, _))
            &&& track_id == t.track_id
            &&& duration == t.duration
            &&& MediaHeaderBox::spec_parse(s, mh.start) matches Some((m, _))
            &&& timescale == m.timescale
            &&& handler_type == HandlerBox::spec_handler(s, hd.start)
            &&& name@ == HandlerBox::spec_name(s, hd.start, hd.size)
        },
        r matches Err(e) ==> e.is_io(),
{
    let track = match moov.get_container(TRAK, Ghost(s), Ghost(mslot)) {
        Some(c) => c,
        None => {
            return Err(io_error("cannot find trak"));
        },
    };
    let ghost tslot = find_in(s, mslot, TRAK).unwrap();
    let track_header = match find_track_header(track, Ghost(s), Ghost(tslot)) {
        Some(h) => h,
        None => {
            return Err(io_error("cannot find tkhd"));
        },
    };
    let media = match track.get_container(MDIA, Ghost(s), Ghost(tslot)) {
        Some(c) => c,
        None => {
            return Err(io_error("cannot find mdia"));
        },
    };
    let ghost aslot = find_in(s, tslot, MDIA).unwrap();
    let media_header = match find_media_header(media, Ghost(s), Ghost(aslot)) {
        Some(h) => h,
        None => {
            return Err(io_error("cannot find mdhd"));
        },
    };
    let handler = match find_handler(media, Ghost(s), Ghost(aslot)) {
        Some(h) => h,
        None => {
            return Err(io_error("cannot find hdlr"));
        },
    };
    let media_information = match media.get_container(MINF, Ghost(s), Ghost(aslot)) {
        Some(c) => c,
        None => {
            return Err(io_error("cannot find minf"));
        },
    };
    let ghost islot = find_in(s, aslot, MINF).unwrap();
    let sample_table = match media_information.get_container(STBL, Ghost(s), Ghost(islot)) {
        Some(c) => c,
        None => {
            return Err(io_error("cannot find stbl"));
        },
    };
    let ghost bslot = find_in(s, islot, STBL).unwrap();
    if find_sample_description(sample_table, Ghost(s), Ghost(bslot)).is_none() {
        return Err(io_error("cannot find stsd"));
    }
    let ghost hslot = find_in(s, aslot, HDLR).unwrap();
    proof {
        assert(handler.parsed_from(s, hslot.start, hslot.size));
    }
    Ok(
        (
            track_header.get_track_id(),
            track_header.get_duration(),
            media_header.get_timescale(),
            handler.get_handler_type(),
            handler.get_name().to_owned(),
        ),
    )
}

/// Moves the first audio sample entry of the first track out of the movie box `moov`.
fn take_codec(moov: ContainerBox, Ghost(s): Ghost<Seq<u8>>, Ghost(mslot): Ghost<Slot>) -> (r: Option<
    AudioSampleBox,
>)
    requires
        container_parsed_from(&moov, s, mslot.start, mslot.size, MOOV),
        mslot.typ == MOOV,
        stsd_slot(s, mslot) is Some,
    ensures
        r is Some <==> first_entry(s, stsd_slot(s, mslot).unwrap().start) is Some,
        r matches Some(c) ==> first_entry(s, stsd_slot(s, mslot).unwrap().start) matches Some((q, n))
            && c.parsed_from(s, q, n),
{
    let ghost tslot = find_in(s, mslot, TRAK).unwrap();
    let track = moov.take_container(TRAK, Ghost(s), Ghost(mslot)).unwrap();
    let ghost aslot = find_in(s, tslot, MDIA).unwrap();
    let media = track.take_container(MDIA, Ghost(s), Ghost(tslot)).unwrap();
    let ghost islot = find_in(s, aslot, MINF).unwrap();
    let media_information = media.take_container(MINF, Ghost(s), Ghost(aslot)).unwrap();
    let ghost bslot = find_in(s, islot, STBL).unwrap();
    let sample_table = media_information.take_container(STBL, Ghost(s), Ghost(islot)).unwrap();
    let ghost dslot = find_in(s, bslot, STSD).unwrap();
    let sample_description = take_sample_description(sample_table, Ghost(s), Ghost(bslot)).unwrap();
    proof {
        lemma_entry_config(&sample_description, s, dslot.start);
    }
    sample_description.into_audio_sample()
}

} // verus!
