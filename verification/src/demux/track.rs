use vstd::prelude::*;
use crate::errors::{Error, io_error};
use crate::parsing::container::{ContainerBox, container_view};
use crate::parsing::mp4box::MP4Box;
use crate::parsing::spec::hdlr::{HDLR, HandlerBox};
use crate::parsing::spec::mdhd::{MDHD, MediaHeaderBox};
use crate::parsing::spec::tkhd::{TKHD, TrackHeaderBox};
use crate::parsing::container::MDIA;
use crate::parsing::utils::box_type::BoxType;

verus! {

/// A track of a movie: its id, the kind of its media and its duration in microseconds.
pub struct MP4Track {
    pub track_id: u32,
    pub handler_type: BoxType,
    pub duration: u64,
}

/// The first track header box among the children of `c`.
pub open spec fn track_header_of(c: ContainerBox) -> Option<TrackHeaderBox> {
    match c.spec_get(TKHD) {
        Some(MP4Box::TrackHeader(h)) => Some(h),
        _ => None,
    }
}

/// The children of the first media box among the children of `c`.
pub open spec fn media_of(c: ContainerBox) -> Option<ContainerBox> {
    match c.spec_get(MDIA) {
        Some(b) => container_view(b),
        None => None,
    }
}

/// The first handler box among the children of `c`.
pub open spec fn handler_of(c: ContainerBox) -> Option<HandlerBox> {
    match c.spec_get(HDLR) {
        Some(MP4Box::Handler(h)) => Some(h),
        _ => None,
    }
}

/// The first media header box among the children of `c`.
pub open spec fn media_header_of(c: ContainerBox) -> Option<MediaHeaderBox> {
    match c.spec_get(MDHD) {
        Some(MP4Box::MediaHeader(h)) => Some(h),
        _ => None,
    }
}

/// The boxes a track needs are there: `tkhd`, and `mdia` with `hdlr` and `mdhd`.
pub open spec fn track_complete(c: ContainerBox) -> bool {
    &&& track_header_of(c) is Some
    &&& media_of(c) matches Some(m) && handler_of(m) is Some && media_header_of(m) is Some
}

/// The duration of the media of a complete track, in microseconds.
pub open spec fn media_micros(c: ContainerBox) -> int {
    let h = media_header_of(media_of(c).unwrap()).unwrap();
    h.duration * 1000000 / (h.timescale as int)
}

impl MP4Track {
    /// The track whose `trak` box holds the children of `value`: its id from `tkhd`, its
    /// media kind from `mdia/hdlr`, and its duration from `mdia/mdhd`, converted from the
    /// media's time units to microseconds (rounded down).
    pub fn try_from(value: &ContainerBox) -> (r: Result<MP4Track, Error>)
        requires
            track_complete(*value) ==> {
                let h = media_header_of(media_of(*value).unwrap()).unwrap();
                h.timescale != 0 && h.duration * 1000000 <= u64::MAX
            },
        ensures
            r is Ok <==> track_complete(*value),
            r matches Ok(t) ==> {
                &&& t.track_id == track_header_of(*value).unwrap().track_id
                &&& t.handler_type == handler_of(media_of(*value).unwrap()).unwrap().handler
                &&& t.duration == media_micros(*value)
            },
            r matches Err(e) ==> e.is_io(),
    {
        let header = match value.get(TKHD) {
            Some(b) => match b.as_track_header() {
                Some(h) => h,
                None => {
                    return Err(io_error("cannot find TKHD"));
                },
            },
            None => {
                return Err(io_error("cannot find TKHD"));
            },
        };
        let track_id = header.get_track_id();
        let media = match value.get(MDIA) {
            Some(b) => match b.as_container() {
                Some(m) => m,
                None => {
                    return Err(io_error("cannot find MDIA"));
                },
            },
            None => {
                return Err(io_error("cannot find MDIA"));
            },
        };
        let handler = match media.get(HDLR) {
            Some(b) => match b.as_handler() {
                Some(h) => h,
                None => {
                    return Err(io_error("cannot find MDIA"));
                },
            },
            None => {
                return Err(io_error("cannot find MDIA"));
            },
        };
        let handler_type = handler.get_handler_type();
        let media_header = match media.get(MDHD) {
            Some(b) => match b.as_media_header() {
                Some(h) => h,
                None => {
                    return Err(io_error("cannot find MDHD"));
                },
            },
            None => {
                return Err(io_error("cannot find MDHD"));
            },
        };
        let duration = media_header.get_duration() * 1000000 / media_header.get_timescale() as u64;
        Ok(MP4Track { track_id, handler_type, duration })
    }
}

} // verus!
