use mp3_player::bili_api::{parse_range, present_cids, M4SChunkRequest, StreamAudioInfo};
use mp3_player::demux::audio_object_type::AudioObjectType;
use mp3_player::demux::channel_config::ChannelConfig;
use mp3_player::demux::fragment::build_samples;
use mp3_player::demux::metadata::build_segments;
use mp3_player::demux::sample::MP4Sample;
use mp3_player::demux::sampling_frequence_index::SamplingFrequenceIndex;
use mp3_player::demux::track::MP4Track;
use mp3_player::player::{
    decodable, first_missing, CursorStep, PlayCursor, PlayerAction, PlayerEvent, PlayerState,
    StopAction,
};
use mp3_player::parsing::descriptor::MPEG4Descriptor;
use mp3_player::errors::{internal_error_number, io_error_with_number, io_error_with_type, Error};
use mp3_player::parsing::container::TRAK;
use mp3_player::parsing::enter::parse_box;
use mp3_player::parsing::mp4box::MP4Box;
use mp3_player::parsing::spec::sidx::Reference;
use mp3_player::parsing::utils::box_stream::BoxStream;
use mp3_player::parsing::utils::box_type::{box_type_u32, BoxType};
use mp3_player::parsing::utils::text::decimal_digits;

fn message(e: &Error) -> String {
    match e {
        Error::IOError(m) => m.clone(),
        Error::InternalError(m) => m.clone(),
    }
}

fn u32b(v: u32) -> Vec<u8> {
    v.to_be_bytes().to_vec()
}

fn bx(typ: &[u8; 4], payload: &[u8]) -> Vec<u8> {
    let mut v = u32b((8 + payload.len()) as u32);
    v.extend_from_slice(typ);
    v.extend_from_slice(payload);
    v
}

fn full(version: u8, body: &[u8]) -> Vec<u8> {
    let mut v = vec![version, 0, 0, 0];
    v.extend_from_slice(body);
    v
}

#[test]
fn stream_audio_info_reads_ranges() {
    let a = StreamAudioInfo::new(
        Some("http://h/x.m4s"),
        Some(64000),
        Some("audio/mp4"),
        Some("mp4a.40.2"),
        Some("0-931"),
        Some("932-1215"),
    );
    assert_eq!(a.base_url, "http://h/x.m4s");
    assert_eq!(a.bandwidth, 64000);
    assert_eq!(a.initialization, (0, 931));
    assert_eq!(a.index_range, (932, 1215));
    assert_eq!(a.data_start_offset(), 1215);
}

#[test]
fn stream_audio_info_defaults_missing_fields() {
    let a = StreamAudioInfo::new(None, None, None, None, None, Some("bad"));
    assert_eq!(a.base_url, "");
    assert_eq!(a.bandwidth, 0);
    assert_eq!(a.mime_type, "");
    assert_eq!(a.codecs, "");
    assert_eq!(a.initialization, (0, 0));
    assert_eq!(a.index_range, (0, 0));
}

#[test]
fn ranges_read_each_side_as_a_number() {
    assert_eq!(parse_range("12-34"), (12, 34));
    assert_eq!(parse_range("+7-8"), (7, 8));
    assert_eq!(parse_range("5-x"), (5, 0));
    assert_eq!(parse_range("a-9"), (0, 9));
    assert_eq!(parse_range("1-2-3"), (1, 0));
    assert_eq!(parse_range("17"), (0, 0));
    assert_eq!(parse_range("-4"), (0, 4));
    assert_eq!(parse_range("99999999999999999999999-1"), (0, 1));
}

#[test]
fn chunk_request_holds_range() {
    let r = M4SChunkRequest::new("u", (3, 9));
    assert_eq!(r.url, "u");
    assert_eq!(r.range_start, 3);
    assert_eq!(r.range_end, 9);
}

#[test]
fn present_cids_keep_order() {
    assert_eq!(present_cids(&[Some(3), None, Some(1), None]), vec![3, 1]);
    assert_eq!(present_cids(&[]), Vec::<u64>::new());
}

#[test]
fn audio_object_types_round_trip() {
    for v in 0u8..=60 {
        match AudioObjectType::try_from(v) {
            Ok(t) => assert_eq!(t.code(), v),
            Err(e) => assert_eq!(message(&e), "invalid audio object type"),
        }
    }
    assert_eq!(AudioObjectType::try_from(2).unwrap(), AudioObjectType::AacLowComplexity);
    assert!(AudioObjectType::try_from(0).is_err());
    assert!(AudioObjectType::try_from(31).is_err());
}

#[test]
fn sampling_frequencies_decrease_along_the_table() {
    let mut last = u32::MAX;
    for i in 0u32..13 {
        let f = SamplingFrequenceIndex::try_from(i).unwrap();
        assert!(f.sample_rate() < last);
        last = f.sample_rate();
    }
    assert_eq!(SamplingFrequenceIndex::try_from(3).unwrap().sample_rate(), 48000);
    assert_eq!(SamplingFrequenceIndex::try_from(12).unwrap().sample_rate(), 7350);
    let e = SamplingFrequenceIndex::try_from(13).err().unwrap();
    assert_eq!(message(&e), "invalid sampling frequency index");
}

#[test]
fn channel_configurations() {
    assert_eq!(ChannelConfig::try_from(2).unwrap(), ChannelConfig::Stereo);
    assert_eq!(ChannelConfig::try_from(7).unwrap().code(), 7);
    let e = ChannelConfig::try_from(8).err().unwrap();
    assert_eq!(message(&e), "invalid channel configuration");
}

#[test]
fn error_texts() {
    assert_eq!(message(&io_error_with_number("tag: ", 0)), "tag: 0");
    assert_eq!(message(&io_error_with_number("tag: ", 42)), "tag: 42");
    assert_eq!(message(&io_error_with_number("tag: ", 255)), "tag: 255");
    let t = BoxType(box_type_u32(['m', 'o', 'o', 'v']));
    assert_eq!(message(&io_error_with_type("box ", t)), "box moov");
    assert_eq!(message(&internal_error_number(0)), "0");
    assert_eq!(message(&internal_error_number(1234567)), "1234567");
    assert_eq!(decimal_digits(90210).into_iter().collect::<String>(), "90210");
}

#[test]
fn box_types_read_little_endian() {
    assert_eq!(box_type_u32(['f', 't', 'y', 'p']), 0x70797466);
    assert_eq!(BoxType(box_type_u32(['s', 'i', 'd', 'x'])).chars(), ['s', 'i', 'd', 'x']);
}

#[test]
fn references_split_their_words() {
    let r = Reference::decode(0x8000_0064, 3000, 0xd000_0123);
    assert_eq!(r.reference_type, 1);
    assert_eq!(r.references_size, 100);
    assert_eq!(r.subsegment_duration, 3000);
    assert_eq!(r.starts_with_sap, 1);
    assert_eq!(r.sap_type, 5);
    assert_eq!(r.sap_delta_time, 0x123);
}

#[test]
fn segments_are_contiguous() {
    let refs = [Reference::decode(10, 5, 0), Reference::decode(0, 7, 0), Reference::decode(4, 1, 0)];
    let v = build_segments(100, 20, &refs).unwrap();
    assert_eq!(v.len(), 3);
    assert_eq!(v[0].data_range, (121, 130));
    assert_eq!(v[0].time_range, (0, 5));
    assert_eq!(v[1].data_range, (131, 130));
    assert_eq!(v[1].time_range, (5, 12));
    assert_eq!(v[2].data_range, (131, 134));
    assert_eq!(v[2].time_range, (12, 13));
    for i in 0..2 {
        assert_eq!(v[i + 1].data_range.0, v[i].data_range.1 + 1);
        assert_eq!(v[i + 1].time_range.0, v[i].time_range.1);
    }
}

#[test]
fn segments_that_do_not_fit_are_refused() {
    let refs = [Reference::decode(0x7fff_ffff, 1, 0)];
    assert_eq!(build_segments(usize::MAX - 0x7fff_ffff, 0, &refs).unwrap()[0].data_range.1, usize::MAX);
    let e = build_segments(usize::MAX - 0x7fff_fffe, 0, &refs).err().unwrap();
    assert_eq!(message(&e), "segment offsets overflow");
    assert!(build_segments(usize::MAX, 1, &[]).is_err());
    assert!(build_segments(usize::MAX, 0, &[]).unwrap().is_empty());
}

#[test]
fn samples_take_the_shorter_list_and_default_durations() {
    let v = build_samples(5, 7, &[1, 2, 3], &[], 2).unwrap();
    assert_eq!(v, vec![MP4Sample::new(5, 7, (0, 1)), MP4Sample::new(12, 7, (1, 3))]);
    let v = build_samples(0, 7, &[4], &[2, 9], 0).unwrap();
    assert_eq!(v, vec![MP4Sample::new(0, 2, (0, 4))]);
    assert!(build_samples(0, 7, &[], &[], 5).unwrap().is_empty());
}

#[test]
fn samples_are_contiguous() {
    let v = build_samples(1000, 0, &[3, 0, 5, 2], &[10, 20, 30, 40], 4).unwrap();
    assert_eq!(v[0].range.0, 0);
    assert_eq!(v[0].start_time, 1000);
    for i in 0..3 {
        assert_eq!(v[i + 1].range.0, v[i].range.1);
        assert_eq!(v[i + 1].start_time, v[i].start_time + v[i].duration as u64);
    }
}

#[test]
fn sample_sizes_that_do_not_fit_are_refused() {
    let e = build_samples(0, 1, &[u32::MAX; 3], &[], 1);
    if usize::BITS == 32 {
        assert_eq!(message(&e.err().unwrap()), "sample offsets overflow");
    } else {
        assert!(e.is_ok());
    }
    let e = build_samples(u64::MAX, 1, &[1], &[], 1).unwrap();
    assert_eq!(e[0].start_time, u64::MAX);
    let e = build_samples(u64::MAX, 1, &[1], &[], 2).err().unwrap();
    assert_eq!(message(&e), "sample offsets overflow");
}

fn track_box(timescale: u32, duration: u32) -> Vec<u8> {
    let tkhd = bx(
        b"tkhd",
        &full(0, &[u32b(0), u32b(0), u32b(7), u32b(0), u32b(1), vec![0u8; 60]].concat()),
    );
    let mdhd = bx(
        b"mdhd",
        &full(0, &[u32b(0), u32b(0), u32b(timescale), u32b(duration), vec![0u8; 4]].concat()),
    );
    let hdlr = bx(b"hdlr", &full(0, &[u32b(0), b"soun".to_vec(), vec![0u8; 12]].concat()));
    let mdia = bx(b"mdia", &[mdhd, hdlr].concat());
    bx(b"moov", &bx(b"trak", &[tkhd, mdia].concat()))
}

#[test]
fn track_duration_in_microseconds() {
    let bytes = track_box(44100, 441000);
    let mut stream = BoxStream::new(&bytes);
    let moov = match parse_box(&mut stream).unwrap() {
        MP4Box::CompressedMovie(c) => c,
        _ => panic!("not a movie"),
    };
    let trak = moov.get(TRAK).unwrap().as_container().unwrap();
    let t = MP4Track::try_from(trak).unwrap();
    assert_eq!(t.track_id, 7);
    assert_eq!(t.handler_type, BoxType(box_type_u32(['s', 'o', 'u', 'n'])));
    assert_eq!(t.duration, 10_000_000);
}

#[test]
fn track_without_media_is_refused() {
    let tkhd = bx(
        b"tkhd",
        &full(0, &[u32b(0), u32b(0), u32b(7), u32b(0), u32b(1), vec![0u8; 60]].concat()),
    );
    let bytes = bx(b"moov", &bx(b"trak", &tkhd));
    let mut stream = BoxStream::new(&bytes);
    let moov = match parse_box(&mut stream).unwrap() {
        MP4Box::CompressedMovie(c) => c,
        _ => panic!("not a movie"),
    };
    let trak = moov.get(TRAK).unwrap().as_container().unwrap();
    let e = MP4Track::try_from(trak).err().unwrap();
    assert_eq!(message(&e), "cannot find MDIA");
}

#[test]
fn play_cursor_walks_decoded_samples() {
    let mut c = PlayCursor::new();
    assert_eq!(c.step(2, None), CursorStep::Stop);
    assert_eq!(c, PlayCursor { fragment: 0, sample: 0 });
    assert_eq!(c.step(2, Some(2)), CursorStep::Take { fragment: 0, sample: 0 });
    assert_eq!(c.step(2, Some(2)), CursorStep::Take { fragment: 0, sample: 1 });
    assert_eq!(c.step(2, Some(2)), CursorStep::NextFragment);
    assert_eq!(c, PlayCursor { fragment: 1, sample: 0 });
    assert_eq!(c.step(2, Some(0)), CursorStep::NextFragment);
    assert!(c.finished(2));
    assert_eq!(c.step(2, Some(5)), CursorStep::Stop);
    c.rewind();
    assert_eq!(c, PlayCursor::new());
}

#[test]
fn only_aac_frames_are_decoded() {
    assert!(decodable(1024));
    assert!(!decodable(960));
    assert!(!decodable(0));
}

#[test]
fn unknown_top_level_box_reads_only_its_header() {
    let bytes = bx(b"trak", &[0u8; 12]);
    let mut stream = BoxStream::new(&bytes);
    let e = parse_box(&mut stream).err().unwrap();
    assert!(matches!(e, Error::IOError(_)));
    assert_eq!(message(&e), "unknown root box type: trak");
    assert_eq!(stream.get_position(), 8);
}

#[test]
fn es_descriptor_counts_only_its_fixed_fields() {
    let bytes = [0x00, 0x01, 0xE0, 0x00, 0x02, 0x02, b'a', b'b', 0x00, 0x03, 0xFF, 0xFF];
    let mut stream = BoxStream::new(&bytes);
    let (d, consumed) = MPEG4Descriptor::parse(&mut stream, 0x03, 12).unwrap();
    assert_eq!(consumed, 10);
    assert_eq!(stream.get_position(), 10);
    match d {
        MPEG4Descriptor::ES(es) => {
            assert_eq!(es.es_id, 1);
            assert_eq!(es.depends_on_es_id, 2);
            assert_eq!(es.url, "ab");
            assert_eq!(es.ocr_es_id, 3);
            assert!(es.decoder_config.is_none());
        }
        _ => panic!("not an elementary stream descriptor"),
    }
    let bytes = [0x00, 0x05, 0x00, 0xFF];
    let mut stream = BoxStream::new(&bytes);
    let (d, consumed) = MPEG4Descriptor::parse(&mut stream, 0x03, 4).unwrap();
    assert_eq!(consumed, 3);
    match d {
        MPEG4Descriptor::ES(es) => {
            assert_eq!(es.depends_on_es_id, 0);
            assert_eq!(es.url, "");
            assert_eq!(es.ocr_es_id, 0);
        }
        _ => panic!("not an elementary stream descriptor"),
    }
}

#[test]
fn decoder_config_descriptor_counts_its_thirteen_bytes() {
    let mut bytes = vec![0x40, 0x15, 0x00, 0x01, 0x00, 0, 0, 0x01, 0xF4, 0, 0, 0x01, 0xF0];
    bytes.extend([0x05, 0x02, 0x12, 0x10]);
    let mut stream = BoxStream::new(&bytes);
    let (d, consumed) = MPEG4Descriptor::parse(&mut stream, 0x04, 17).unwrap();
    assert_eq!(consumed, 13);
    match d {
        MPEG4Descriptor::DecoderConfig(c) => {
            assert_eq!(c.oti, 0x40);
            assert_eq!(c.stream_type, 5);
            assert_eq!(c.buffer_size, 256);
            assert_eq!(c.max_bitrate, 500);
            assert_eq!(c.avg_bitrate, 496);
            assert!(c.decoder_specific.is_none());
        }
        _ => panic!("not a decoder configuration descriptor"),
    }
}

#[test]
fn player_asks_for_the_next_segment_and_resumes_where_it_waits() {
    let mut state = PlayerState::new();
    assert_eq!(state.on_event(PlayerEvent::Suspend), PlayerAction { download: None, play: true });
    assert_eq!(
        state.on_event(PlayerEvent::DownloadedFragment(0)),
        PlayerAction { download: Some(1), play: true }
    );
    assert_eq!(
        state.on_event(PlayerEvent::DownloadedFragment(3)),
        PlayerAction { download: Some(4), play: false }
    );
    state.suspend = false;
    assert_eq!(
        state.on_event(PlayerEvent::DownloadedFragment(0)),
        PlayerAction { download: Some(1), play: false }
    );
    state.cursor.fragment = 2;
    assert_eq!(state.after_play(true), None);
    assert!(!state.suspend);
    assert_eq!(state.after_play(false), Some(2));
    assert!(state.suspend);
}

#[test]
fn player_loops_or_ends_after_the_last_segment() {
    let mut state = PlayerState::new();
    state.cursor = PlayCursor { fragment: 5, sample: 3 };
    assert_eq!(state.on_stop(), StopAction::End);
    assert_eq!(state.cursor, PlayCursor { fragment: 5, sample: 3 });
    state.is_loop = true;
    assert_eq!(state.on_stop(), StopAction::Restart);
    assert_eq!(state.cursor, PlayCursor { fragment: 0, sample: 0 });
    state.cursor.fragment = 4;
    state.suspend = false;
    state.reset();
    assert_eq!(state.cursor, PlayCursor::new());
    assert!(state.suspend);
    assert!(state.is_loop);
}

#[test]
fn first_missing_segment_from_an_index() {
    let cached = [true, false, true, true, false];
    assert_eq!(first_missing(&cached, 0), Some(1));
    assert_eq!(first_missing(&cached, 2), Some(4));
    assert_eq!(first_missing(&cached, 5), None);
    assert_eq!(first_missing(&[true, true], 0), None);
    assert_eq!(first_missing(&[], 3), None);
}
