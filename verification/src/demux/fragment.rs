use vstd::prelude::*;
use crate::errors::{Error, internal_error, io_error};
use crate::parsing::container::{
    ContainerBox, MOOF, Slot, TRAF, box_parsed_from, container_parsed_from, container_view, find_in,
    lemma_container_parsed, lemma_get_parsed,
};
use crate::parsing::enter::{parse_box, spec_parse_box};
use crate::parsing::lookup::{lemma_leaf_parsed, lemma_top_parsed};
use crate::parsing::utils::box_stream::BoxStream;
use crate::parsing::spec::mdat::{MDAT, MediaDataBox};
use crate::parsing::spec::tfdt::TrackFragmentBaseMediaDecodeTimeBox;
use crate::parsing::spec::tfhd::TrackFragmentHeaderBox;
use crate::parsing::spec::trun::RunShape;
use crate::parsing::utils::box_stream::{be32, be64};
use crate::parsing::mp4box::MP4Box;
use crate::parsing::spec::tfdt::TFDT;
use crate::parsing::spec::tfhd::TFHD;
use crate::parsing::spec::trun::{TRUN, TrackRunBox};
use super::metadata::MP4Metadata;
use super::sample::MP4Sample;

verus! {

/// One fragment of an audio stream: its samples and the media data they lie in.
pub struct MP4Fragment {
    pub samples: Vec<MP4Sample>,
    pub data: Vec<u8>,
}

// ---------------------------------------------------------------------------------------
// The samples of a track run
// ---------------------------------------------------------------------------------------

/// Sum of the first `n` values of `xs`.
pub open spec fn seq_sum(xs: Seq<u32>, n: int) -> int
    decreases n,
{
    if n <= 0 {
        0
    } else {
        seq_sum(xs, n - 1) + xs[n - 1]
    }
}

/// Sums only grow.
pub proof fn lemma_seq_sum_monotone(xs: Seq<u32>, i: int, j: int)
    requires
        i <= j,
    ensures
        seq_sum(xs, i) <= seq_sum(xs, j),
    decreases j - i,
{
    if i < j {
        lemma_seq_sum_monotone(xs, i, j - 1);
    }
}

/// The durations of the samples of a run: those it stores, or `count` times `default`
/// when it stores none.
pub open spec fn run_durations(durations: Seq<u32>, count: int, default: u32) -> Seq<u32> {
    if durations.len() == 0 {
        Seq::new(count as nat, |i: int| default)
    } else {
        durations
    }
}

/// The samples of a run whose sizes are `sizes` and whose durations are `times`: as many
/// as the shorter of the two gives, laid one after the other from byte 0 of the media
/// data and from time `base` on.
pub open spec fn spec_samples(base: u64, sizes: Seq<u32>, times: Seq<u32>) -> Seq<MP4Sample> {
    let n = if sizes.len() < times.len() {
        sizes.len()
    } else {
        times.len()
    };
    Seq::new(
        n,
        |i: int|
            MP4Sample {
                start_time: (base + seq_sum(times, i)) as u64,
                duration: times[i],
                range: (seq_sum(sizes, i) as usize, seq_sum(sizes, i + 1) as usize),
            },
    )
}

/// The start time of sample `i` and the time after it fit a `u64`.
pub open spec fn time_fits(base: u64, times: Seq<u32>, i: int) -> bool {
    &&& base + seq_sum(times, i) <= u64::MAX
    &&& seq_sum(times, i + 1) <= u64::MAX
}

/// Every offset and time computed for the samples fits its type.
pub open spec fn samples_fit(base: u64, sizes: Seq<u32>, times: Seq<u32>) -> bool {
    &&& seq_sum(sizes, sizes.len() as int) <= usize::MAX
    &&& forall|i: int| 0 <= i < times.len() ==> #[trigger] time_fits(base, times, i)
}

/// The samples of a track run whose first sample starts at `base`: `sizes` gives their
/// sizes, and `durations` their durations, or, when empty, `count` samples last
/// `default` each. Offsets or times that do not fit are refused.
pub fn build_samples(base: u64, default: u32, sizes: &[u32], durations: &[u32], count: usize) -> (r:
    Result<Vec<MP4Sample>, Error>)
    ensures
        r is Ok <==> samples_fit(base, sizes@, run_durations(durations@, count as int, default)),
        r matches Ok(v) ==> v@ == spec_samples(
            base,
            sizes@,
            run_durations(durations@, count as int, default),
        ),
        r matches Err(e) ==> e.is_internal() && e.message() == "sample offsets overflow"@,
{
    let ghost times = run_durations(durations@, count as int, default);
    let mut ranges: Vec<(usize, usize)> = Vec::new();
    let mut offset: usize = 0;
    let mut i: usize = 0;
    while i < sizes.len()
        invariant
            i <= sizes@.len(),
            offset == seq_sum(sizes@, i as int),
            ranges@.len() == i,
            forall|j: int|
                0 <= j < i ==> #[trigger] ranges@[j] == (
                    seq_sum(sizes@, j) as usize,
                    seq_sum(sizes@, j + 1) as usize,
                ),
        decreases sizes@.len() - i,
    {
        let size = sizes[i] as usize;
        if size > usize::MAX - offset {
            proof {
                lemma_seq_sum_monotone(sizes@, i + 1, sizes@.len() as int);
            }
            return Err(internal_error("sample offsets overflow"));
        }
        ranges.push((offset, offset + size));
        offset = offset + size;
        i = i + 1;
    }
    let limit = if durations.len() == 0 {
        count
    } else {
        durations.len()
    };
    let mut starts: Vec<(u64, u32)> = Vec::new();
    let mut elapsed: u64 = 0;
    let mut j: usize = 0;
    while j < limit
        invariant
            limit == times.len(),
            times == run_durations(durations@, count as int, default),
            j <= limit,
            elapsed == seq_sum(times, j as int),
            starts@.len() == j,
            forall|k: int| 0 <= k < j ==> #[trigger] time_fits(base, times, k),
            forall|k: int|
                0 <= k < j ==> #[trigger] starts@[k] == (
                    (base + seq_sum(times, k)) as u64,
                    times[k],
                ),
        decreases limit - j,
    {
        let duration = if durations.len() == 0 {
            default
        } else {
            durations[j]
        };
        assert(duration == times[j as int]);
        if elapsed > u64::MAX - base || duration as u64 > u64::MAX - elapsed {
            assert(!time_fits(base, times, j as int));
            return Err(internal_error("sample offsets overflow"));
        }
        assert(time_fits(base, times, j as int));
        starts.push((base + elapsed, duration));
        elapsed = elapsed + duration as u64;
        j = j + 1;
    }
    let n = if ranges.len() < starts.len() {
        ranges.len()
    } else {
        starts.len()
    };
    let mut samples: Vec<MP4Sample> = Vec::new();
    let mut k: usize = 0;
    while k < n
        invariant
            n <= ranges@.len(),
            n <= starts@.len(),
            n == spec_samples(base, sizes@, times).len(),
            ranges@.len() == sizes@.len(),
            starts@.len() == times.len(),
            k <= n,
            samples@.len() == k,
            forall|j: int|
                0 <= j < ranges@.len() ==> #[trigger] ranges@[j] == (
                    seq_sum(sizes@, j) as usize,
                    seq_sum(sizes@, j + 1) as usize,
                ),
            forall|j: int|
                0 <= j < starts@.len() ==> #[trigger] starts@[j] == (
                    (base + seq_sum(times, j)) as u64,
                    times[j],
                ),
            forall|j: int| 0 <= j < k ==> #[trigger] samples@[j] == spec_samples(base, sizes@, times)[j],
        decreases n - k,
    {
        let (start_time, duration) = starts[k];
        samples.push(MP4Sample::new(start_time, duration, ranges[k]));
        k = k + 1;
    }
    assert(samples@ =~= spec_samples(base, sizes@, times));
    Ok(samples)
}

/// The samples follow each other without gap or overlap: the first starts at byte 0 of
/// the media data and at time `base`, each one starts at the byte where the one before
/// ends and at the time it ends, and each spans its size and lasts its duration.
pub proof fn lemma_samples_contiguous(base: u64, sizes: Seq<u32>, times: Seq<u32>)
    requires
        samples_fit(base, sizes, times),
    ensures
        spec_samples(base, sizes, times).len() > 0 ==> spec_samples(base, sizes, times)[0].range.0
            == 0 && spec_samples(base, sizes, times)[0].start_time == base,
        forall|i: int|
            0 <= i < spec_samples(base, sizes, times).len() - 1 ==> {
                &&& (#[trigger] spec_samples(base, sizes, times)[i + 1]).range.0 == spec_samples(
                    base,
                    sizes,
                    times,
                )[i].range.1
                &&& spec_samples(base, sizes, times)[i + 1].start_time == spec_samples(
                    base,
                    sizes,
                    times,
                )[i].start_time + spec_samples(base, sizes, times)[i].duration
            },
        forall|i: int|
            0 <= i < spec_samples(base, sizes, times).len() ==> (#[trigger] spec_samples(
                base,
                sizes,
                times,
            )[i]).range.1 - spec_samples(base, sizes, times)[i].range.0 == sizes[i],
{
    let v = spec_samples(base, sizes, times);
    assert forall|i: int| 0 <= i < v.len() implies {
        &&& v[i].range.0 == seq_sum(sizes, i)
        &&& v[i].range.1 == seq_sum(sizes, i + 1)
        &&& v[i].start_time == base + seq_sum(times, i)
    } by {
        lemma_seq_sum_monotone(sizes, 0, i);
        lemma_seq_sum_monotone(sizes, i + 1, sizes.len() as int);
        lemma_seq_sum_monotone(times, 0, i);
        assert(time_fits(base, times, i));
    }
    assert forall|i: int| 0 <= i < v.len() - 1 implies {
        &&& (#[trigger] v[i + 1]).range.0 == v[i].range.1
        &&& v[i + 1].start_time == v[i].start_time + v[i].duration
    } by {
        assert(v[i + 1].range.0 == seq_sum(sizes, i + 1));
        assert(v[i + 1].start_time == base + seq_sum(times, i + 1));
    }
    assert forall|i: int| 0 <= i < v.len() implies (#[trigger] v[i]).range.1 - v[i].range.0
        == sizes[i] by {
        assert(v[i].range.0 == seq_sum(sizes, i));
    }
}

// ---------------------------------------------------------------------------------------
// Where the samples of a fragment come from
// ---------------------------------------------------------------------------------------

/// The children of the first track fragment box of a movie fragment.
pub open spec fn traf_of(fragment: ContainerBox) -> Option<ContainerBox> {
    match fragment.spec_get(TRAF) {
        Some(b) => container_view(b),
        None => None,
    }
}

/// The decode time of the first sample of a track fragment: that of its first `tfdt`
/// box, 0 when it has none.
pub open spec fn decode_time_of(traf: ContainerBox) -> u64 {
    match traf.spec_get(TFDT) {
        Some(MP4Box::TrackFragmentBaseMediaDecodeTime(t)) => t.base_media_decode_time,
        _ => 0,
    }
}

/// The sample duration of a track fragment: that of its first `tfhd` box when not 0,
/// else `default`.
pub open spec fn default_duration_of(traf: ContainerBox, default: u32) -> u32 {
    match traf.spec_get(TFHD) {
        Some(MP4Box::TrackFragmentHeader(h)) => if h.default_sample_duration != 0 {
            h.default_sample_duration
        } else {
            default
        },
        _ => default,
    }
}

/// The first track run box of a track fragment.
pub open spec fn run_of(traf: ContainerBox) -> Option<TrackRunBox> {
    match traf.spec_get(TRUN) {
        Some(MP4Box::TrackRun(r)) => Some(r),
        _ => None,
    }
}

/// The durations of the samples of the run of a track fragment.
pub open spec fn traf_durations(traf: ContainerBox, run: TrackRunBox, default: u32) -> Seq<u32> {
    run_durations(
        run.sample_duration@,
        run.sample_count as int,
        default_duration_of(traf, default),
    )
}

/// The samples of a movie fragment can be computed: it has a track fragment with a run
/// whose offsets and times fit.
pub open spec fn fragment_samples_ok(fragment: ContainerBox, default: u32) -> bool {
    traf_of(fragment) matches Some(t) && (run_of(t) matches Some(run) && samples_fit(
        decode_time_of(t),
        run.sample_size@,
        traf_durations(t, run, default),
    ))
}

/// The samples of a movie fragment whose track fragment has a run.
pub open spec fn fragment_samples(fragment: ContainerBox, default: u32) -> Seq<MP4Sample> {
    let t = traf_of(fragment).unwrap();
    let run = run_of(t).unwrap();
    spec_samples(decode_time_of(t), run.sample_size@, traf_durations(t, run, default))
}

/// The first track fragment of a movie fragment.
fn track_fragment_in(fragment: &ContainerBox) -> (r: Result<&ContainerBox, Error>)
    ensures
        r is Ok <==> traf_of(*fragment) is Some,
        r matches Ok(c) ==> traf_of(*fragment) == Some(*c),
        r matches Err(e) ==> e.is_io() && e.message() == "not found TRAF"@,
{
    match fragment.get(TRAF) {
        Some(b) => match b.as_container() {
            Some(c) => Ok(c),
            None => Err(io_error("not found TRAF")),
        },
        None => Err(io_error("not found TRAF")),
    }
}

/// The start time and the default sample duration of a track fragment, given the
/// duration that the metadata gives.
fn fragment_defaults(traf: &ContainerBox, default: u32) -> (r: (u64, u32))
    ensures
        r == (decode_time_of(*traf), default_duration_of(*traf, default)),
{
    let base_start_time = match traf.get(TFDT) {
        Some(b) => match b.as_decode_time() {
            Some(t) => t.get_base_media_decode_time(),
            None => 0,
        },
        None => 0,
    };
    let default_sample_duration = match traf.get(TFHD) {
        Some(b) => match b.as_fragment_header() {
            Some(h) => {
                let duration = h.get_default_sample_duration();
                if duration != 0 {
                    duration
                } else {
                    default
                }
            },
            None => default,
        },
        None => default,
    };
    (base_start_time, default_sample_duration)
}

/// The first track run of a track fragment.
fn run_in(traf: &ContainerBox) -> (r: Result<&TrackRunBox, Error>)
    ensures
        r is Ok <==> run_of(*traf) is Some,
        r matches Ok(x) ==> run_of(*traf) == Some(*x),
        r matches Err(e) ==> e.is_io() && e.message() == "not found TRUN"@,
{
    match traf.get(TRUN) {
        Some(b) => match b.as_track_run() {
            Some(x) => Ok(x),
            None => Err(io_error("not found TRUN")),
        },
        None => Err(io_error("not found TRUN")),
    }
}


// ---------------------------------------------------------------------------------------
// The same, read from the bytes of a fragment
// ---------------------------------------------------------------------------------------

/// The values of one field of the stored records of a track run of shape `sh`, at offset
/// `off` in each record; none when the run does not store the field.
pub open spec fn column_values(s: Seq<u8>, sh: RunShape, present: bool, off: int) -> Seq<u32> {
    Seq::new(
        (if present {
            TrackRunBox::stored_records(sh)
        } else {
            0
        }) as nat,
        |i: int| be32(s, sh.records + sh.layout.record_len() * i + off),
    )
}

/// The sample sizes that the track run whose payload `run` describes stores.
pub open spec fn run_sizes(s: Seq<u8>, run: Slot) -> Seq<u32> {
    let sh = TrackRunBox::shape(s, run.start, run.size);
    column_values(s, sh, sh.layout.size, sh.layout.size_off())
}

/// The durations of the samples of the track fragment `traf` whose run `run` is, with
/// `default` as the duration that the metadata gives.
pub open spec fn run_times(s: Seq<u8>, traf: Slot, run: Slot, default: u32) -> Seq<u32> {
    let sh = TrackRunBox::shape(s, run.start, run.size);
    run_durations(
        column_values(s, sh, sh.layout.duration, 0),
        be32(s, run.start + 4) as int,
        stored_default_duration(s, traf, default),
    )
}

/// The decode time that the first `tfdt` box of the track fragment `traf` stores, 0 when
/// it has none.
pub open spec fn stored_decode_time(s: Seq<u8>, traf: Slot) -> u64 {
    match find_in(s, traf, TFDT) {
        Some(t) => match TrackFragmentBaseMediaDecodeTimeBox::spec_parse(s, t.start) {
            Some((x, _)) => x.base_media_decode_time,
            None => 0,
        },
        None => 0,
    }
}

/// The default sample duration that the first `tfhd` box of the track fragment `traf`
/// stores when not 0, else `default`.
pub open spec fn stored_default_duration(s: Seq<u8>, traf: Slot, default: u32) -> u32 {
    match find_in(s, traf, TFHD) {
        Some(t) => match TrackFragmentHeaderBox::spec_parse(s, t.start) {
            Some((x, _)) => if x.default_sample_duration != 0 {
                x.default_sample_duration
            } else {
                default
            },
            None => default,
        },
        None => default,
    }
}

/// The samples of the movie fragment whose `moof` payload `moof` describes can be
/// computed: it has a track fragment with a run whose offsets and times fit.
pub open spec fn moof_samples_ok(s: Seq<u8>, moof: Slot, default: u32) -> bool {
    find_in(s, moof, TRAF) matches Some(t) && (find_in(s, t, TRUN) matches Some(run) && samples_fit(
        stored_decode_time(s, t),
        run_sizes(s, run),
        run_times(s, t, run, default),
    ))
}

/// The samples of the movie fragment whose `moof` payload `moof` describes.
pub open spec fn moof_samples(s: Seq<u8>, moof: Slot, default: u32) -> Seq<MP4Sample> {
    let t = find_in(s, moof, TRAF).unwrap();
    let run = find_in(s, t, TRUN).unwrap();
    spec_samples(stored_decode_time(s, t), run_sizes(s, run), run_times(s, t, run, default))
}

/// The first of the samples laid out from time `base` starts at `base`.
proof fn lemma_first_sample_at_base(base: u64, sizes: Seq<u32>, times: Seq<u32>)
    requires
        spec_samples(base, sizes, times).len() > 0,
    ensures
        spec_samples(base, sizes, times)[0].start_time == base,
{
    assert(seq_sum(times, 0) == 0);
}

/// The first sample of a fragment starts at the decode time that the first `tfdt` box of
/// its track fragment stores right after its version and flags: a 64-bit value when the
/// version is 1, a 32-bit value otherwise; at time 0 when the track fragment has no
/// `tfdt` box.
pub proof fn lemma_fragment_start_time(f: MP4Fragment, data: Seq<u8>, default: u32)
    requires
        fragment_ok(data, default),
        moof_slot(data) matches Some((m, _)) && f.samples@ == moof_samples(data, m, default),
        f.samples@.len() > 0,
    ensures
        moof_slot(data) matches Some((m, _)) && find_in(data, m, TRAF) matches Some(t) && match find_in(
            data,
            t,
            TFDT,
        ) {
            Some(d) => {
                &&& (data[d.start] == 1 && d.start + 12 <= data.len()) ==> f.samples@[0].start_time
                    == be64(data, d.start + 4)
                &&& (data[d.start] != 1 && d.start + 8 <= data.len()) ==> f.samples@[0].start_time
                    == be32(data, d.start + 4)
            },
            None => f.samples@[0].start_time == 0,
        },
{
    let (m, _) = moof_slot(data).unwrap();
    let t = find_in(data, m, TRAF).unwrap();
    lemma_moof_first_start(data, m, default);
    lemma_stored_decode_time(data, t);
}

/// The first sample of a movie fragment starts at the decode time its track fragment
/// stores.
proof fn lemma_moof_first_start(data: Seq<u8>, m: Slot, default: u32)
    requires
        moof_samples_ok(data, m, default),
        moof_samples(data, m, default).len() > 0,
    ensures
        find_in(data, m, TRAF) matches Some(t) && moof_samples(data, m, default)[0].start_time
            == stored_decode_time(data, t),
{
    let t = find_in(data, m, TRAF).unwrap();
    let run = find_in(data, t, TRUN).unwrap();
    let base = stored_decode_time(data, t);
    let sizes = run_sizes(data, run);
    let times = run_times(data, t, run, default);
    assert(moof_samples(data, m, default) == spec_samples(base, sizes, times));
    lemma_first_sample_at_base(base, sizes, times);
}

/// The decode time a track fragment stores is read from its first `tfdt` box right after
/// the version and flags: 64 bits wide in version 1, 32 bits wide otherwise.
proof fn lemma_stored_decode_time(data: Seq<u8>, t: Slot)
    ensures
        match find_in(data, t, TFDT) {
            Some(d) => {
                &&& (data[d.start] == 1 && d.start + 12 <= data.len()) ==> stored_decode_time(data, t)
                    == be64(data, d.start + 4)
                &&& (data[d.start] != 1 && d.start + 8 <= data.len()) ==> stored_decode_time(data, t)
                    == be32(data, d.start + 4)
            },
            None => stored_decode_time(data, t) == 0,
        },
{
}

/// The `moof` box at the start of a fragment.
pub open spec fn moof_slot(s: Seq<u8>) -> Option<(Slot, int)> {
    match spec_parse_box(s, 0) {
        Some((m, e)) => if m.typ == MOOF {
            Some((m, e))
        } else {
            None
        },
        None => None,
    }
}

/// The `mdat` box after the `moof` box of a fragment.
pub open spec fn mdat_slot(s: Seq<u8>) -> Option<Slot> {
    match moof_slot(s) {
        Some((_, e)) => match spec_parse_box(s, e) {
            Some((d, _)) => if d.typ == MDAT {
                Some(d)
            } else {
                None
            },
            None => None,
        },
        None => None,
    }
}

/// The fragment `s` can be read: a `moof` box whose samples can be computed, then a
/// `mdat` box.
pub open spec fn fragment_ok(s: Seq<u8>, default: u32) -> bool {
    &&& moof_slot(s) matches Some((m, _)) && moof_samples_ok(s, m, default)
    &&& mdat_slot(s) is Some
}

/// A parsed box of type `moof` is a movie fragment holding the children parsed from its
/// payload.
proof fn lemma_container_kind(b: MP4Box, s: Seq<u8>, p: int, size: int)
    requires
        box_parsed_from(&b, s, p, size),
    ensures
        b.kind() == MOOF ==> (b matches MP4Box::CompressedMovieFragment(c) && container_parsed_from(
            &c,
            s,
            p,
            size,
            MOOF,
        )),
{
}

/// A parsed track run holds the sizes, durations and count stored in its payload.
proof fn lemma_run_columns(run: TrackRunBox, s: Seq<u8>, slot: Slot)
    requires
        run.parsed_from(s, slot.start, slot.size),
    ensures
        run.sample_size@ == run_sizes(s, slot),
        run.sample_duration@ == column_values(
            s,
            TrackRunBox::shape(s, slot.start, slot.size),
            TrackRunBox::shape(s, slot.start, slot.size).layout.duration,
            0,
        ),
        run.sample_count == be32(s, slot.start + 4),
{
    let sh = TrackRunBox::shape(s, slot.start, slot.size);
    assert(run.sample_size@ =~= run_sizes(s, slot));
    assert(run.sample_duration@ =~= column_values(s, sh, sh.layout.duration, 0));
}

/// The samples computed from a parsed movie fragment are those its bytes give.
proof fn lemma_fragment_bytes(c: ContainerBox, s: Seq<u8>, moof: Slot, default: u32)
    requires
        container_parsed_from(&c, s, moof.start, moof.size, MOOF),
        moof.typ == MOOF,
    ensures
        fragment_samples_ok(c, default) <==> moof_samples_ok(s, moof, default),
        (traf_of(c) matches Some(t) && run_of(t) is Some) <==> (find_in(s, moof, TRAF) matches Some(
            t,
        ) && find_in(s, t, TRUN) is Some),
        fragment_samples_ok(c, default) ==> fragment_samples(c, default) == moof_samples(
            s,
            moof,
            default,
        ),
{
    lemma_get_parsed(&c, s, moof.start, moof.size, MOOF, TRAF);
    if let Some(b) = c.spec_get(TRAF) {
        let ts = find_in(s, moof, TRAF).unwrap();
        lemma_container_parsed(b, s, ts.start, ts.size);
        let t = traf_of(c).unwrap();
        lemma_get_parsed(&t, s, ts.start, ts.size, TRAF, TRUN);
        lemma_get_parsed(&t, s, ts.start, ts.size, TRAF, TFDT);
        lemma_get_parsed(&t, s, ts.start, ts.size, TRAF, TFHD);
        if let Some(x) = t.spec_get(TFDT) {
            let xs = find_in(s, ts, TFDT).unwrap();
            lemma_leaf_parsed(x, s, xs.start, xs.size);
        }
        if let Some(x) = t.spec_get(TFHD) {
            let xs = find_in(s, ts, TFHD).unwrap();
            lemma_leaf_parsed(x, s, xs.start, xs.size);
        }
        assert(decode_time_of(t) == stored_decode_time(s, ts));
        assert(default_duration_of(t, default) == stored_default_duration(s, ts, default));
        if let Some(x) = t.spec_get(TRUN) {
            let rs = find_in(s, ts, TRUN).unwrap();
            lemma_leaf_parsed(x, s, rs.start, rs.size);
            let run = run_of(t).unwrap();
            lemma_run_columns(run, s, rs);
            assert(traf_durations(t, run, default) == run_times(s, ts, rs, default));
        }
    }
}

/// Reads the `moof` box at the start of a fragment.
fn read_moof(stream: &mut BoxStream) -> (r: Result<ContainerBox, Error>)
    requires
        old(stream).wf(),
        old(stream).position() == 0,
    ensures
        final(stream).wf(),
        final(stream).bytes() == old(stream).bytes(),
        r is Ok <==> moof_slot(old(stream).bytes()) is Some,
        r matches Ok(c) ==> moof_slot(old(stream).bytes()) matches Some((m, e)) && final(stream).position()
            == e && container_parsed_from(&c, old(stream).bytes(), m.start, m.size, MOOF) && m.typ
            == MOOF,
        r matches Err(e) ==> e.is_io(),
{
    let ghost s = old(stream).bytes();
    let first = parse_box(stream)?;
    proof {
        let (slot, _) = spec_parse_box(s, 0).unwrap();
        lemma_container_kind(first, s, slot.start, slot.size);
    }
    match first.into_movie_fragment() {
        Some(c) => Ok(c),
        None => Err(io_error("not found MOOF")),
    }
}

/// Reads the `mdat` box after the `moof` box of a fragment.
fn read_mdat(stream: &mut BoxStream) -> (r: Result<MediaDataBox, Error>)
    requires
        old(stream).wf(),
        moof_slot(old(stream).bytes()) matches Some((_, e)) && old(stream).position() == e,
    ensures
        r is Ok <==> mdat_slot(old(stream).bytes()) is Some,
        r matches Ok(d) ==> mdat_slot(old(stream).bytes()) matches Some(slot) && d.data@
            == old(stream).bytes().subrange(slot.start, slot.start + slot.size),
        r matches Err(e) ==> e.is_io(),
{
    let ghost s = old(stream).bytes();
    let ghost e = old(stream).position();
    let second = parse_box(stream)?;
    proof {
        let (slot, _) = spec_parse_box(s, e).unwrap();
        lemma_top_parsed(second, s, slot.start, slot.size);
    }
    match second.into_media_data() {
        Some(d) => Ok(d),
        None => Err(io_error("not found MDAT")),
    }
}

impl MP4Fragment {
    /// The samples of the movie fragment whose `moof` box holds the children of
    /// `fragment`: from its first `traf` box, the first `trun` box gives the sample sizes
    /// and durations, the `tfdt` box the start time (0 without one), and the `tfhd` box
    /// or else the metadata the duration of samples whose duration the run omits.
    pub fn parse_samples(metadata: &MP4Metadata, fragment: &ContainerBox) -> (r: Result<
        Vec<MP4Sample>,
        Error,
    >)
        ensures
            r is Ok <==> fragment_samples_ok(*fragment, metadata.default_sample_duration),
            r matches Ok(v) ==> v@ == fragment_samples(*fragment, metadata.default_sample_duration),
            r matches Err(e) ==> (e.is_internal() <==> (traf_of(*fragment) matches Some(t) && run_of(
                t,
            ) is Some)),
            traf_of(*fragment) is None ==> (r matches Err(e) && e.is_io() && e.message()
                == "not found TRAF"@),
            traf_of(*fragment) matches Some(t) && run_of(t) is None ==> (r matches Err(e)
                && e.is_io() && e.message() == "not found TRUN"@),
    {
        let track_fragment = track_fragment_in(fragment)?;
        let (base_start_time, default_sample_duration) = fragment_defaults(
            track_fragment,
            metadata.get_default_sample_duration(),
        );
        let track_run = run_in(track_fragment)?;
        build_samples(
            base_start_time,
            default_sample_duration,
            track_run.get_sample_size(),
            track_run.get_sample_duration(),
            track_run.get_sample_count(),
        )
    }

    /// Reads a fragment of the stream that `metadata` describes from its bytes: a `moof`
    /// box, whose samples `parse_samples` computes, then a `mdat` box, whose payload is
    /// the media data.
    pub fn parse(metadata: &MP4Metadata, data: &[u8]) -> (r: Result<Self, Error>)
        ensures
            r is Ok <==> fragment_ok(data@, metadata.default_sample_duration),
            r matches Ok(f) ==> moof_slot(data@) matches Some((m, _)) && mdat_slot(data@) matches Some(
                d,
            ) && f.samples@ == moof_samples(data@, m, metadata.default_sample_duration) && f.data@
                == data@.subrange(d.start, d.start + d.size),
            r matches Err(e) ==> (e.is_internal() <==> (moof_slot(data@) matches Some((m, _))
                && find_in(data@, m, TRAF) matches Some(t) && find_in(data@, t, TRUN) is Some
                && !moof_samples_ok(data@, m, metadata.default_sample_duration))),
    {
        let ghost s = data@;
        let mut stream = BoxStream::new(data);
        let fragment = read_moof(&mut stream)?;
        proof {
            let (m, _) = moof_slot(s).unwrap();
            lemma_fragment_bytes(fragment, s, m, metadata.default_sample_duration);
        }
        let samples = Self::parse_samples(metadata, &fragment)?;
        let media_data = read_mdat(&mut stream)?;
        Ok(MP4Fragment { samples, data: media_data.into_data() })
    }

    /// The samples of the fragment.
    pub fn get_samples(&self) -> (r: &[MP4Sample])
        ensures
            r@ == self.samples@,
    {
        self.samples.as_slice()
    }

    /// The number of samples of the fragment.
    pub fn get_sample_count(&self) -> (r: usize)
        ensures
            r == self.samples@.len(),
    {
        self.samples.len()
    }

    /// The bytes of sample `index` lie within the media data.
    pub open spec fn sample_in_data(&self, index: int) -> bool {
        0 <= index < self.samples@.len() ==> self.samples@[index].range.0
            <= self.samples@[index].range.1 <= self.data@.len()
    }

    /// Whether the bytes of sample `index` lie within the media data, as `get_sample`
    /// needs.
    pub fn sample_fits(&self, index: usize) -> (r: bool)
        ensures
            r == self.sample_in_data(index as int),
    {
        if index < self.samples.len() {
            let range = self.samples[index].range;
            range.0 <= range.1 && range.1 <= self.data.len()
        } else {
            true
        }
    }

    /// Sample `index` and its bytes; nothing past the last sample.
    pub fn get_sample(&self, index: usize) -> (r: Option<(&MP4Sample, &[u8])>)
        requires
            self.sample_in_data(index as int),
        ensures
            r is Some <==> index < self.samples@.len(),
            r matches Some((sample, bytes)) ==> *sample == self.samples@[index as int] && bytes@
                == self.data@.subrange(sample.range.0 as int, sample.range.1 as int),
    {
        if index < self.samples.len() {
            let sample = &self.samples[index];
            let bytes = vstd::slice::slice_subrange(
                self.data.as_slice(),
                sample.range.0,
                sample.range.1,
            );
            Some((sample, bytes))
        } else {
            None
        }
    }
}

} // verus!
