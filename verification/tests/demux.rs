use mp3_player::bili_api::StreamAudioInfo;
use mp3_player::demux::audio_object_type::AudioObjectType;
use mp3_player::demux::channel_config::ChannelConfig;
use mp3_player::demux::fragment::MP4Fragment;
use mp3_player::demux::header::MP4Header;
use mp3_player::demux::init::TrackInitData;
use mp3_player::demux::metadata::MP4Metadata;
use mp3_player::demux::sample::MP4Sample;
use mp3_player::demux::sampling_frequence_index::SamplingFrequenceIndex;
use mp3_player::errors::Error;
use mp3_player::parsing::enter::parse_box;
use mp3_player::parsing::utils::box_stream::BoxStream;
use mp3_player::parsing::utils::box_type::{box_type_u32, BoxType};
use mp3_player::progress::Progress;

// ---------------------------------------------------------------------------------------
// Building boxes
// ---------------------------------------------------------------------------------------

fn u16b(v: u16) -> Vec<u8> {
    v.to_be_bytes().to_vec()
}

fn u32b(v: u32) -> Vec<u8> {
    v.to_be_bytes().to_vec()
}

fn u64b(v: u64) -> Vec<u8> {
    v.to_be_bytes().to_vec()
}

fn bx(typ: &[u8; 4], payload: &[u8]) -> Vec<u8> {
    let mut v = u32b((8 + payload.len()) as u32);
    v.extend_from_slice(typ);
    v.extend_from_slice(payload);
    v
}

fn full(version: u8, flags: u32, body: &[u8]) -> Vec<u8> {
    let mut v = vec![version, (flags >> 16) as u8, (flags >> 8) as u8, flags as u8];
    v.extend_from_slice(body);
    v
}

fn desc(tag: u8, payload: &[u8]) -> Vec<u8> {
    let mut v = vec![tag, payload.len() as u8];
    v.extend_from_slice(payload);
    v
}

fn ftyp() -> Vec<u8> {
    bx(b"ftyp", &[b"iso6".to_vec(), u32b(0), b"iso6".to_vec(), b"mp41".to_vec()].concat())
}

fn tkhd(track_id: u32, duration: u32) -> Vec<u8> {
    let body = [u32b(0), u32b(0), u32b(track_id), u32b(0), u32b(duration), vec![0u8; 60]].concat();
    bx(b"tkhd", &full(0, 7, &body))
}

fn mdhd(timescale: u32, duration: u32) -> Vec<u8> {
    let body = [u32b(0), u32b(0), u32b(timescale), u32b(duration), u16b(0x55c4), u16b(0)].concat();
    bx(b"mdhd", &full(0, 0, &body))
}

fn hdlr(name: &[u8]) -> Vec<u8> {
    let body = [u32b(0), b"soun".to_vec(), vec![0u8; 12], name.to_vec()].concat();
    bx(b"hdlr", &full(0, 0, &body))
}

/// An AudioSpecificConfig of two bytes: 5 bits of object type, 4 of frequency index,
/// 4 of channel configuration.
fn audio_config(object_type: u8, frequency: u8, channels: u8) -> Vec<u8> {
    let bits: u16 = ((object_type as u16) << 11) | ((frequency as u16) << 7) | ((channels as u16) << 3);
    u16b(bits)
}

fn esds(config: &[u8], avg_bitrate: u32) -> Vec<u8> {
    let specific = desc(0x05, config);
    let decoder = desc(
        0x04,
        &[vec![0x40, 0x15], vec![0, 0x18, 0], u32b(160000), u32b(avg_bitrate), specific].concat(),
    );
    let sl = desc(0x06, &[0x02]);
    let es = desc(0x03, &[u16b(1), vec![0], decoder, sl].concat());
    bx(b"esds", &full(0, 0, &es))
}

fn mp4a(child: Vec<u8>) -> Vec<u8> {
    let body = [
        vec![0u8; 6],
        u16b(1),
        vec![0u8; 8],
        u16b(2),
        u16b(16),
        vec![0u8; 4],
        u32b(44100 << 16),
        child,
    ]
    .concat();
    bx(b"mp4a", &body)
}

fn stsd(entries: &[Vec<u8>]) -> Vec<u8> {
    let body = [u32b(entries.len() as u32), entries.concat()].concat();
    bx(b"stsd", &full(0, 0, &body))
}

fn trak(sample_description: Vec<u8>) -> Vec<u8> {
    let stbl = bx(b"stbl", &sample_description);
    let minf = bx(b"minf", &stbl);
    let mdia = bx(b"mdia", &[mdhd(44100, 441000), hdlr(b"SoundHandler"), minf].concat());
    bx(b"trak", &[tkhd(1, 10000), mdia].concat())
}

fn trex(default_duration: u32) -> Vec<u8> {
    let body = [u32b(1), u32b(1), u32b(default_duration), u32b(0), u32b(0)].concat();
    bx(b"trex", &full(0, 0, &body))
}

fn moov_with(sample_description: Vec<u8>, mvex: bool) -> Vec<u8> {
    let mut children = trak(sample_description);
    if mvex {
        children.extend(bx(b"mvex", &trex(1024)));
    }
    bx(b"moov", &children)
}

fn aac_stsd() -> Vec<u8> {
    stsd(&[mp4a(esds(&audio_config(2, 4, 2), 128000))])
}

/// An initialization segment: `ftyp`, a `free` box, then `moov`.
fn init_segment() -> Vec<u8> {
    [ftyp(), bx(b"free", &[0u8; 4]), moov_with(aac_stsd(), true)].concat()
}

fn sidx(first_offset: u32, refs: &[(u32, u32)]) -> Vec<u8> {
    let mut body = [u32b(1), u32b(44100), u32b(0), u32b(first_offset), u16b(0), u16b(refs.len() as u16)].concat();
    for &(size, duration) in refs {
        body.extend(u32b(size & 0x7fff_ffff));
        body.extend(u32b(duration));
        body.extend(u32b(0x9000_0000));
    }
    bx(b"sidx", &full(0, 0, &body))
}

fn index_segment() -> Vec<u8> {
    sidx(10, &[(100, 1000), (200, 2000)])
}

fn audio() -> StreamAudioInfo {
    StreamAudioInfo::new(
        Some("http://example.com/a.m4s"),
        Some(128000),
        Some("audio/mp4"),
        Some("mp4a.40.2"),
        Some("0-99"),
        Some("100-799"),
    )
}

fn tfhd(default_duration: Option<u32>) -> Vec<u8> {
    match default_duration {
        Some(d) => bx(b"tfhd", &full(0, 0x08, &[u32b(1), u32b(d)].concat())),
        None => bx(b"tfhd", &full(0, 0, &u32b(1))),
    }
}

fn tfdt(base: u64) -> Vec<u8> {
    bx(b"tfdt", &full(1, 0, &u64b(base)))
}

/// A track run storing durations and sizes, with a data offset.
fn trun_full(records: &[(u32, u32)]) -> Vec<u8> {
    let mut body = [u32b(records.len() as u32), u32b(0)].concat();
    for &(duration, size) in records {
        body.extend(u32b(duration));
        body.extend(u32b(size));
    }
    bx(b"trun", &full(0, 0x000301, &body))
}

/// A track run storing sizes only.
fn trun_sizes(sizes: &[u32]) -> Vec<u8> {
    let mut body = u32b(sizes.len() as u32);
    for &size in sizes {
        body.extend(u32b(size));
    }
    bx(b"trun", &full(0, 0x000200, &body))
}

fn moof(traf_children: Vec<u8>) -> Vec<u8> {
    let mfhd = bx(b"mfhd", &full(0, 0, &u32b(1)));
    bx(b"moof", &[mfhd, bx(b"traf", &traf_children)].concat())
}

fn fragment_bytes() -> Vec<u8> {
    let traf = [tfhd(None), tfdt(2048), trun_full(&[(1024, 10), (1024, 20), (1024, 5)])].concat();
    let data: Vec<u8> = (0u8..35).collect();
    [moof(traf), bx(b"mdat", &data)].concat()
}

fn message(e: &Error) -> String {
    match e {
        Error::IOError(m) => m.clone(),
        Error::InternalError(m) => m.clone(),
    }
}

fn is_internal(e: &Error) -> bool {
    matches!(e, Error::InternalError(_))
}

fn metadata() -> MP4Metadata {
    MP4Metadata::parse(&audio(), &init_segment(), &index_segment()).unwrap()
}

// ---------------------------------------------------------------------------------------
// Metadata
// ---------------------------------------------------------------------------------------

#[test]
fn metadata_reads_codec_and_file_type() {
    let m = metadata();
    assert_eq!(m.get_major_brand(), BoxType(box_type_u32(['i', 's', 'o', '6'])));
    assert_eq!(m.get_minor_version(), 0);
    assert_eq!(
        m.get_compatible_brands(),
        &[BoxType(box_type_u32(['i', 's', 'o', '6'])), BoxType(box_type_u32(['m', 'p', '4', '1']))]
    );
    assert_eq!(m.get_default_sample_duration(), 1024);
    assert_eq!(m.get_bitrate(), 128000);
    assert_eq!(m.get_channel_configuration(), ChannelConfig::Stereo);
    assert_eq!(m.audio_object_type, AudioObjectType::AacLowComplexity);
    assert_eq!(m.sampling_frequence_index, SamplingFrequenceIndex::Freq44100);
    assert_eq!(m.sample_rate(), 44100);
    assert_eq!(m.data_start_offset, 799);
    assert_eq!(m.url, "http://example.com/a.m4s");
}

#[test]
fn metadata_segments_follow_each_other() {
    let m = metadata();
    let segments = m.get_segments();
    assert_eq!(segments.len(), 2);
    assert_eq!(segments[0].data_range, (810, 909));
    assert_eq!(segments[0].time_range, (0, 1000));
    assert_eq!(segments[1].data_range, (910, 1109));
    assert_eq!(segments[1].time_range, (1000, 3000));
    assert_eq!(segments[1].data_range.0, segments[0].data_range.1 + 1);
    assert_eq!(segments[1].time_range.0, segments[0].time_range.1);
}

#[test]
fn metadata_without_moov_is_refused() {
    let init = [ftyp(), bx(b"free", &[0u8; 4])].concat();
    let e = MP4Metadata::parse(&audio(), &init, &index_segment()).err().unwrap();
    assert!(!is_internal(&e));
}

#[test]
fn metadata_needs_ftyp_first() {
    let init = [moov_with(aac_stsd(), true)].concat();
    let e = MP4Metadata::parse(&audio(), &init, &index_segment()).err().unwrap();
    assert_eq!(message(&e), "cannot get FTYP");
}

#[test]
fn metadata_box_other_than_free_before_moov_is_refused() {
    let init = [ftyp(), bx(b"mdat", &[1, 2]), moov_with(aac_stsd(), true)].concat();
    let e = MP4Metadata::parse(&audio(), &init, &index_segment()).err().unwrap();
    assert_eq!(message(&e), "cannot find moov box");
}

#[test]
fn metadata_without_mvex_is_refused() {
    let init = [ftyp(), moov_with(aac_stsd(), false)].concat();
    let e = MP4Metadata::parse(&audio(), &init, &index_segment()).err().unwrap();
    assert_eq!(message(&e), "cannot find MVEX");
    assert!(!is_internal(&e));
}

#[test]
fn metadata_without_audio_entry_is_refused() {
    let init = [ftyp(), moov_with(stsd(&[]), true)].concat();
    let e = MP4Metadata::parse(&audio(), &init, &index_segment()).err().unwrap();
    assert_eq!(message(&e), "cannot find Audio Codec");
}

#[test]
fn metadata_unknown_object_type_is_unsupported() {
    let init = [ftyp(), moov_with(stsd(&[mp4a(esds(&audio_config(0, 4, 2), 1))]), true)].concat();
    let e = MP4Metadata::parse(&audio(), &init, &index_segment()).err().unwrap();
    assert!(is_internal(&e));
    assert_eq!(message(&e), "invalid audio object type");
}

#[test]
fn metadata_unknown_frequency_is_unsupported() {
    let init = [ftyp(), moov_with(stsd(&[mp4a(esds(&audio_config(2, 13, 2), 1))]), true)].concat();
    let e = MP4Metadata::parse(&audio(), &init, &index_segment()).err().unwrap();
    assert!(is_internal(&e));
    assert_eq!(message(&e), "invalid sampling frequency index");
}

#[test]
fn metadata_reserved_channel_configuration_is_unsupported() {
    let init = [ftyp(), moov_with(stsd(&[mp4a(esds(&audio_config(2, 4, 9), 1))]), true)].concat();
    let e = MP4Metadata::parse(&audio(), &init, &index_segment()).err().unwrap();
    assert!(is_internal(&e));
    assert_eq!(message(&e), "invalid channel configuration");
}

#[test]
fn metadata_entry_without_esds_names_the_box() {
    let init = [ftyp(), moov_with(stsd(&[mp4a(bx(b"abcd", &[]))]), true)].concat();
    let e = MP4Metadata::parse(&audio(), &init, &index_segment()).err().unwrap();
    assert_eq!(message(&e), "unknown dref box type: abcd");
}

#[test]
fn metadata_wants_sidx() {
    let e = MP4Metadata::parse(&audio(), &init_segment(), &bx(b"free", &[])).err().unwrap();
    assert_eq!(message(&e), "want sidx");
}

#[test]
fn metadata_segment_offsets_overflow_is_unsupported() {
    let huge = StreamAudioInfo::new(
        Some("u"),
        None,
        None,
        None,
        Some("0-1"),
        Some(&format!("0-{}", usize::MAX - 5)),
    );
    let e = MP4Metadata::parse(&huge, &init_segment(), &index_segment()).err().unwrap();
    assert!(is_internal(&e));
    assert_eq!(message(&e), "segment offsets overflow");
}

// ---------------------------------------------------------------------------------------
// Header
// ---------------------------------------------------------------------------------------

#[test]
fn header_gives_segment_ranges() {
    let h = MP4Header::parse(&audio(), &init_segment(), &index_segment()).unwrap();
    assert_eq!(h.get_major_brand(), BoxType(box_type_u32(['i', 's', 'o', '6'])));
    assert_eq!(h.get_minor_version(), 0);
    assert_eq!(h.get_compatible_brands().len(), 2);
    assert_eq!(h.get_default_sample_duration(), 1024);
    let (range, entry) = h.get_reference(0).unwrap();
    assert_eq!(range, (810, 909));
    assert_eq!(entry.get_references_size(), 100);
    assert_eq!(entry.starts_with_sap, 1);
    assert_eq!(entry.sap_type, 1);
    let (range, entry) = h.get_reference(1).unwrap();
    assert_eq!(range, (910, 1109));
    assert_eq!(entry.get_subsegment_duration(), 2000);
    assert!(h.get_reference(2).is_none());
}

#[test]
fn header_reference_ranges_agree_with_metadata_segments() {
    let h = MP4Header::parse(&audio(), &init_segment(), &index_segment()).unwrap();
    let m = metadata();
    for (i, segment) in m.get_segments().iter().enumerate() {
        assert_eq!(h.get_reference(i).unwrap().0, segment.data_range);
    }
}

#[test]
fn header_without_trex_is_refused() {
    let init = [ftyp(), moov_with(aac_stsd(), false)].concat();
    let e = MP4Header::parse(&audio(), &init, &index_segment()).err().unwrap();
    assert_eq!(message(&e), "cannot find MVEX");
}

// ---------------------------------------------------------------------------------------
// Track data
// ---------------------------------------------------------------------------------------

#[test]
fn track_init_data_reads_first_track() {
    let bytes = [bx(b"free", &[]), moov_with(aac_stsd(), true)].concat();
    let mut stream = BoxStream::new(&bytes);
    let t = TrackInitData::parse(&mut stream).unwrap();
    assert_eq!(t.get_track_id(), 1);
    assert_eq!(t.get_duration(), 10000);
    assert_eq!(t.get_timescale(), 44100);
    assert_eq!(t.handler_type, BoxType(box_type_u32(['s', 'o', 'u', 'n'])));
    assert_eq!(t.name, "SoundHandler");
    assert_eq!(t.codec.channel_count, 2);
    assert_eq!(t.codec.sample_rate, 44100);
}

#[test]
fn track_init_data_without_entry_is_unsupported() {
    let bytes = moov_with(stsd(&[]), true);
    let mut stream = BoxStream::new(&bytes);
    let e = TrackInitData::parse(&mut stream).err().unwrap();
    assert!(is_internal(&e));
    assert_eq!(message(&e), "only support audio codec");
}

#[test]
fn track_init_data_refuses_invalid_name() {
    let stbl = bx(b"stbl", &aac_stsd());
    let minf = bx(b"minf", &stbl);
    let mdia = bx(b"mdia", &[mdhd(1, 1), hdlr(&[0xff, 0xfe]), minf].concat());
    let bytes = bx(b"moov", &bx(b"trak", &[tkhd(1, 1), mdia].concat()));
    let mut stream = BoxStream::new(&bytes);
    let e = TrackInitData::parse(&mut stream).err().unwrap();
    assert!(!is_internal(&e));
}

// ---------------------------------------------------------------------------------------
// Fragments
// ---------------------------------------------------------------------------------------

#[test]
fn fragment_samples_follow_each_other() {
    let m = metadata();
    let f = MP4Fragment::parse(&m, &fragment_bytes()).unwrap();
    assert_eq!(f.get_sample_count(), 3);
    assert_eq!(
        f.get_samples(),
        &[
            MP4Sample::new(2048, 1024, (0, 10)),
            MP4Sample::new(3072, 1024, (10, 30)),
            MP4Sample::new(4096, 1024, (30, 35)),
        ]
    );
    let (sample, bytes) = f.get_sample(1).unwrap();
    assert_eq!(sample.range, (10, 30));
    assert_eq!(bytes, &(10u8..30).collect::<Vec<u8>>()[..]);
    assert!(f.get_sample(3).is_none());
}

#[test]
fn fragment_durations_default_to_tfhd() {
    let m = metadata();
    let traf = [tfhd(Some(512)), trun_sizes(&[4, 6])].concat();
    let bytes = [moof(traf), bx(b"mdat", &[0u8; 10])].concat();
    let f = MP4Fragment::parse(&m, &bytes).unwrap();
    assert_eq!(f.get_samples(), &[MP4Sample::new(0, 512, (0, 4)), MP4Sample::new(512, 512, (4, 10))]);
}

#[test]
fn fragment_durations_default_to_metadata() {
    let m = metadata();
    let traf = [tfhd(Some(0)), tfdt(100), trun_sizes(&[4, 6])].concat();
    let bytes = [moof(traf), bx(b"mdat", &[0u8; 10])].concat();
    let f = MP4Fragment::parse(&m, &bytes).unwrap();
    assert_eq!(f.get_samples(), &[MP4Sample::new(100, 1024, (0, 4)), MP4Sample::new(1124, 1024, (4, 10))]);
}

#[test]
fn fragment_without_trun_is_refused() {
    let m = metadata();
    let bytes = [moof([tfhd(None), tfdt(0)].concat()), bx(b"mdat", &[])].concat();
    let e = MP4Fragment::parse(&m, &bytes).err().unwrap();
    assert_eq!(message(&e), "not found TRUN");
}

#[test]
fn fragment_without_mdat_is_refused() {
    let m = metadata();
    let bytes = moof([tfdt(0), trun_sizes(&[1])].concat());
    let e = MP4Fragment::parse(&m, &bytes).err().unwrap();
    assert!(!is_internal(&e));
}

#[test]
fn fragment_must_start_with_moof() {
    let m = metadata();
    let e = MP4Fragment::parse(&m, &bx(b"mdat", &[1])).err().unwrap();
    assert_eq!(message(&e), "not found MOOF");
}

#[test]
fn fragment_start_time_overflow_is_unsupported() {
    let m = metadata();
    let traf = [tfdt(u64::MAX - 10), trun_full(&[(1024, 1), (1024, 1)])].concat();
    let bytes = [moof(traf), bx(b"mdat", &[0u8; 2])].concat();
    let e = MP4Fragment::parse(&m, &bytes).err().unwrap();
    assert!(is_internal(&e));
    assert_eq!(message(&e), "sample offsets overflow");
}

#[test]
fn fragment_sample_beyond_data_is_reported() {
    let m = metadata();
    let traf = [tfdt(0), trun_sizes(&[4, 60])].concat();
    let bytes = [moof(traf), bx(b"mdat", &[0u8; 10])].concat();
    let f = MP4Fragment::parse(&m, &bytes).unwrap();
    assert!(f.sample_fits(0));
    assert!(!f.sample_fits(1));
    assert!(f.sample_fits(2));
}

#[test]
fn parse_samples_zips_sizes_and_durations() {
    let m = metadata();
    let traf = [tfdt(0), trun_full(&[(10, 1), (20, 2)])].concat();
    let bytes = moof(traf);
    let mut stream = BoxStream::new(&bytes);
    let b = parse_box(&mut stream).unwrap();
    let c = b.into_movie_fragment().unwrap();
    let samples = MP4Fragment::parse_samples(&m, &c).unwrap();
    assert_eq!(samples, vec![MP4Sample::new(0, 10, (0, 1)), MP4Sample::new(10, 20, (1, 3))]);
}

// ---------------------------------------------------------------------------------------
// Playback progress
// ---------------------------------------------------------------------------------------

fn second_fragment_bytes() -> Vec<u8> {
    let traf = [tfdt(1000), trun_full(&[(1000, 3)])].concat();
    [moof(traf), bx(b"mdat", &[7, 8, 9])].concat()
}

#[test]
fn progress_walks_through_segments() {
    let mut p = Progress::new(metadata());
    assert_eq!(p.pending_fetch().unwrap(), Some((810, 909)));
    assert_eq!(p.pending_fetch().unwrap(), None);
    p.set_fragment(&fragment_bytes()).unwrap();
    assert!(p.current_sample_fits());
    let (s0, b0) = p.take_sample().unwrap();
    assert_eq!(s0.start_time, 2048);
    assert_eq!(b0, (0u8..10).collect::<Vec<u8>>());
    let (s1, _) = p.take_sample().unwrap();
    assert_eq!(s1.range, (10, 30));
    let (s2, b2) = p.take_sample().unwrap();
    assert_eq!(s2.range, (30, 35));
    assert_eq!(b2, vec![30, 31, 32, 33, 34]);
    assert_eq!(p.fragment_index, 1);
    assert_eq!(p.sample_index, 0);
    assert_eq!(p.pending_fetch().unwrap(), Some((910, 1109)));
    p.set_fragment(&second_fragment_bytes()).unwrap();
    let (s, b) = p.take_sample().unwrap();
    assert_eq!(s.start_time, 1000);
    assert_eq!(b, vec![7, 8, 9]);
    let e = p.pending_fetch().err().unwrap();
    assert_eq!(message(&e), "out of references limit");
    assert!(p.fragment.is_none());
    assert!(p.take_sample().is_none());
}

#[test]
fn progress_keeps_fragment_when_bytes_are_refused() {
    let mut p = Progress::new(metadata());
    p.pending_fetch().unwrap();
    p.set_fragment(&fragment_bytes()).unwrap();
    assert!(p.set_fragment(&[1, 2, 3]).is_err());
    assert_eq!(p.fragment.as_ref().unwrap().get_sample_count(), 3);
}

#[test]
fn progress_seeks_to_covering_segment_and_sample() {
    let mut p = Progress::new(metadata());
    p.seek_segment(1500).unwrap();
    assert_eq!(p.fragment_index, 1);
    assert!(p.should_upgrade_fragment);
    assert_eq!(p.pending_fetch().unwrap(), Some((910, 1109)));
    let traf = [tfhd(Some(512)), trun_sizes(&[4, 6])].concat();
    p.set_fragment(&[moof(traf), bx(b"mdat", &[0u8; 10])].concat()).unwrap();
    p.seek_sample(600).unwrap();
    assert_eq!(p.sample_index, 1);
    let (sample, bytes) = p.take_sample().unwrap();
    assert_eq!(sample, MP4Sample::new(512, 512, (4, 10)));
    assert_eq!(bytes.len(), 6);
    assert_eq!(p.fragment_index, 2);
}

#[test]
fn progress_search_misses_are_refused_with_the_index() {
    let mut p = Progress::new(metadata());
    let e = p.enter_segment(Err(1234), 1500).err().unwrap();
    assert!(is_internal(&e));
    assert_eq!(message(&e), "1234");
    assert_eq!(p.fragment_index, 0);
    let e = p.enter_segment(Ok(1), 0).err().unwrap();
    assert_eq!(message(&e), "1");
    assert_eq!(p.fragment_index, 0);
    let e = p.enter_segment(Ok(7), 1500).err().unwrap();
    assert_eq!(message(&e), "7");
    p.enter_segment(Ok(1), 1500).unwrap();
    assert_eq!(p.fragment_index, 1);
    let e = p.enter_sample(Err(0), 1500).err().unwrap();
    assert_eq!(message(&e), "0");
    let e = p.enter_sample(Ok(0), 1500).err().unwrap();
    assert_eq!(message(&e), "0");
}

#[test]
fn progress_seek_past_the_end_changes_nothing() {
    let mut p = Progress::new(metadata());
    p.pending_fetch().unwrap();
    assert!(p.seek_segment(u64::MAX).is_err());
    assert_eq!(p.fragment_index, 0);
    assert!(!p.should_upgrade_fragment);
    p.set_fragment(&fragment_bytes()).unwrap();
    assert!(p.seek_sample(u64::MAX).is_err());
    assert_eq!(p.sample_index, 0);
}

#[test]
fn progress_seek_sample_without_fragment_changes_nothing() {
    let mut p = Progress::new(metadata());
    p.seek_sample(5).unwrap();
    assert_eq!(p.sample_index, 0);
}

#[test]
fn progress_starts_at_the_first_segment() {
    let p = Progress::new(metadata());
    assert_eq!(p.fragment_index, 0);
    assert_eq!(p.sample_index, 0);
    assert!(p.should_upgrade_fragment);
    assert!(p.fragment.is_none());
}

#[test]
fn fragment_without_track_fragment_or_run_is_refused() {
    let mfhd = bx(b"mfhd", &full(0, 0, &u32b(1)));
    let no_traf = [bx(b"moof", &mfhd), bx(b"mdat", &[1, 2])].concat();
    let e = MP4Fragment::parse(&metadata(), &no_traf).err().unwrap();
    assert!(!is_internal(&e));
    assert_eq!(message(&e), "not found TRAF");
    let no_trun = [moof(tfhd(Some(512))), bx(b"mdat", &[1, 2])].concat();
    let e = MP4Fragment::parse(&metadata(), &no_trun).err().unwrap();
    assert!(!is_internal(&e));
    assert_eq!(message(&e), "not found TRUN");
}

#[test]
fn movie_is_read_before_the_index_is_needed() {
    let init = [ftyp(), moov_with(stsd(&[mp4a(esds(&audio_config(0, 4, 2), 1))]), true)].concat();
    let e = MP4Metadata::read_movie(&init).err().unwrap();
    assert!(is_internal(&e));
    assert_eq!(message(&e), "invalid audio object type");
    let movie = MP4Metadata::read_movie(&init_segment()).unwrap();
    assert_eq!(movie.bitrate, metadata().bitrate);
    assert_eq!(movie.default_sample_duration, metadata().default_sample_duration);
    let m = MP4Metadata::from_index(&audio(), movie, &index_segment()).unwrap();
    let (a, b) = (m.get_segments(), metadata().get_segments().to_vec());
    assert_eq!(a.len(), b.len());
    for (x, y) in a.iter().zip(b.iter()) {
        assert_eq!((x.data_range, x.time_range), (y.data_range, y.time_range));
    }
    let movie = MP4Metadata::read_movie(&init_segment()).unwrap();
    let e = MP4Metadata::from_index(&audio(), movie, &bx(b"free", &[])).err().unwrap();
    assert_eq!(message(&e), "want sidx");
}

#[test]
fn header_references_are_those_of_the_index_box() {
    let h = MP4Header::parse(&audio(), &init_segment(), &index_segment()).unwrap();
    let bytes = index_segment();
    let mut stream = BoxStream::new(&bytes);
    let sidx = parse_box(&mut stream).unwrap().into_segment_index().unwrap();
    for i in 0..sidx.count() + 2 {
        let a = h.get_reference(i).map(|(range, r)| (range, *r));
        let b = sidx.get_reference(audio().data_start_offset(), i).map(|(range, r)| (range, *r));
        assert_eq!(a, b);
    }
    assert!(h.get_reference(sidx.count()).is_none());
}

#[test]
fn header_head_is_read_before_the_index() {
    let (file_type, duration) = MP4Header::read_head(&init_segment()).unwrap();
    assert_eq!(duration, metadata().default_sample_duration);
    let h = MP4Header::from_index(&audio(), file_type, duration, &index_segment()).unwrap();
    assert_eq!(h.get_default_sample_duration(), duration);
    assert_eq!(h.get_major_brand(), metadata().get_major_brand());
    assert!(MP4Header::read_head(&[]).is_err());
    let (file_type, duration) = MP4Header::read_head(&init_segment()).unwrap();
    let e = MP4Header::from_index(&audio(), file_type, duration, &bx(b"free", &[])).err().unwrap();
    assert_eq!(message(&e), "want sidx");
}

#[test]
fn seek_in_a_single_segment_stream_finds_it() {
    let index = sidx(10, &[(100, 1000)]);
    let m = MP4Metadata::parse(&audio(), &init_segment(), &index).unwrap();
    let mut p = Progress::new(m);
    p.pending_fetch().unwrap();
    p.seek_segment(999).unwrap();
    assert_eq!(p.fragment_index, 0);
    assert!(p.should_upgrade_fragment);
    assert!(p.seek_segment(1000).is_err());
}
