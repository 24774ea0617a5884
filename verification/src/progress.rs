use vstd::prelude::*;
use std::cmp::Ordering;
use crate::demux::fragment::{
    MP4Fragment, fragment_ok, lemma_samples_contiguous, mdat_slot, moof_samples, moof_slot, run_sizes,
    run_times, spec_samples, stored_decode_time,
};
use crate::parsing::container::{TRAF, find_in};
use crate::parsing::spec::trun::TRUN;
use crate::bili_api::StreamAudioInfo;
use crate::demux::metadata::{
    MP4Metadata, SegmentIndex, index_entries, lemma_segments_contiguous, metadata_ok, spec_segments,
};
use crate::demux::sample::MP4Sample;
use crate::errors::{Error, internal_error, internal_error_number};
use crate::parsing::utils::text::decimal_chars;

verus! {

/// Where playback of an audio stream stands: the stream's metadata, the fragment being
/// played (once fetched) and the next sample in it.
///
/// Fetching is left to the caller. `pending_fetch` says which bytes to fetch next, if any,
/// and `set_fragment` takes them; `take_sample` then hands out the samples one by one,
/// and asks for the next fragment after the last sample of this one.
pub struct Progress {
    pub metadata: MP4Metadata,
    pub fragment_index: usize,
    pub fragment: Option<MP4Fragment>,
    pub should_upgrade_fragment: bool,
    pub sample_index: usize,
}

/// Segment `segment` covers time `t`.
pub open spec fn segment_holds(segment: SegmentIndex, t: u64) -> bool {
    segment.time_range.0 <= t < segment.time_range.1
}

/// Sample `sample` covers time `t`.
pub open spec fn sample_holds(sample: MP4Sample, t: u64) -> bool {
    sample.start_time <= t && t - sample.start_time < sample.duration
}

/// In segments laid one after the other in time, each ends no later than any later one
/// starts.
proof fn lemma_ends_before_starts(segs: Seq<SegmentIndex>, i: int, j: int)
    requires
        0 <= i < j < segs.len(),
        forall|k: int| 0 <= k < segs.len() ==> (#[trigger] segs[k]).time_range.0 <= segs[k].time_range.1,
        forall|k: int|
            0 <= k < segs.len() - 1 ==> (#[trigger] segs[k + 1]).time_range.0 == segs[k].time_range.1,
    ensures
        segs[i].time_range.1 <= segs[j].time_range.0,
    decreases j - i,
{
    if j > i + 1 {
        lemma_ends_before_starts(segs, i, j - 1);
        let k = j - 1;
        assert(segs[k + 1].time_range.0 == segs[k].time_range.1);
        assert(segs[k].time_range.0 <= segs[k].time_range.1);
    } else {
        assert(segs[i + 1].time_range.0 == segs[i].time_range.1);
    }
}

/// A time before the end of segment `k` of segments laid one after the other from time 0
/// is covered by one of the first `k + 1`.
proof fn lemma_covered_up_to(segs: Seq<SegmentIndex>, k: int, t: u64)
    requires
        0 <= k < segs.len(),
        segs[0].time_range.0 == 0,
        forall|i: int| 0 <= i < segs.len() ==> (#[trigger] segs[i]).time_range.0 <= segs[i].time_range.1,
        forall|i: int|
            0 <= i < segs.len() - 1 ==> (#[trigger] segs[i + 1]).time_range.0 == segs[i].time_range.1,
        t < segs[k].time_range.1,
    ensures
        exists|i: int| 0 <= i <= k && segment_holds(#[trigger] segs[i], t),
    decreases k,
{
    if k == 0 {
        assert(segment_holds(segs[0], t));
    } else if t < segs[k - 1].time_range.1 {
        lemma_covered_up_to(segs, k - 1, t);
    } else {
        let h = k - 1;
        assert(segs[h + 1].time_range.0 == segs[h].time_range.1);
        assert(segment_holds(segs[k], t));
    }
}

/// Segments laid one after the other from time 0, each starting where the one before
/// ends, cover every time before the end of the last one, each by exactly one segment: a
/// segment covers the times from its start, included, to its end, excluded. In particular
/// time 0 is covered by the first segment when it is not empty.
pub proof fn lemma_contiguous_segments_cover(segs: Seq<SegmentIndex>, t: u64)
    requires
        segs.len() > 0,
        segs[0].time_range.0 == 0,
        forall|i: int| 0 <= i < segs.len() ==> (#[trigger] segs[i]).time_range.0 <= segs[i].time_range.1,
        forall|i: int|
            0 <= i < segs.len() - 1 ==> (#[trigger] segs[i + 1]).time_range.0 == segs[i].time_range.1,
    ensures
        t < segs[segs.len() - 1].time_range.1 ==> exists|i: int|
            0 <= i < segs.len() && segment_holds(#[trigger] segs[i], t),
        forall|i: int, j: int|
            0 <= i < segs.len() && 0 <= j < segs.len() && segment_holds(#[trigger] segs[i], t)
                && segment_holds(#[trigger] segs[j], t) ==> i == j,
        forall|i: int|
            0 <= i < segs.len() && segs[i].time_range.0 < segs[i].time_range.1 ==> segment_holds(
                #[trigger] segs[i],
                segs[i].time_range.0,
            ),
        t >= segs[segs.len() - 1].time_range.1 ==> forall|i: int|
            0 <= i < segs.len() ==> !segment_holds(#[trigger] segs[i], t),
{
    if t < segs[segs.len() - 1].time_range.1 {
        lemma_covered_up_to(segs, segs.len() - 1, t);
    }
    assert forall|i: int, j: int|
        0 <= i < segs.len() && 0 <= j < segs.len() && segment_holds(#[trigger] segs[i], t)
            && segment_holds(#[trigger] segs[j], t) implies i == j by {
        if i < j {
            lemma_ends_before_starts(segs, i, j);
        } else if j < i {
            lemma_ends_before_starts(segs, j, i);
        }
    }
    assert forall|i: int| 0 <= i < segs.len() implies !segment_holds(#[trigger] segs[i], t)
        || t < segs[segs.len() - 1].time_range.1 by {
        if i < segs.len() - 1 {
            lemma_ends_before_starts(segs, i, segs.len() - 1);
        }
    }
}

/// The segments of a stream's metadata start at time 0 and cover every time before the
/// end of the last one, each time by exactly one segment; past that end no segment covers
/// a time. So the start of a stream whose first segment is not empty is covered by its
/// first segment.
pub proof fn lemma_stream_times_covered(
    m: MP4Metadata,
    audio: &StreamAudioInfo,
    s: Seq<u8>,
    x: Seq<u8>,
    t: u64,
)
    requires
        m.read_from(audio, s, x),
        metadata_ok(audio, s, x),
        m.segments@.len() > 0,
    ensures
        m.segments@[0].time_range.0 == 0,
        t < m.segments@[m.segments@.len() - 1].time_range.1 ==> exists|i: int|
            0 <= i < m.segments@.len() && segment_holds(#[trigger] m.segments@[i], t),
        forall|i: int, j: int|
            0 <= i < m.segments@.len() && 0 <= j < m.segments@.len() && segment_holds(
                #[trigger] m.segments@[i],
                t,
            ) && segment_holds(#[trigger] m.segments@[j], t) ==> i == j,
        t >= m.segments@[m.segments@.len() - 1].time_range.1 ==> forall|i: int|
            0 <= i < m.segments@.len() ==> !segment_holds(#[trigger] m.segments@[i], t),
        m.segments@[0].time_range.0 < m.segments@[0].time_range.1 ==> segment_holds(
            m.segments@[0],
            0,
        ),
{
    let (base, refs) = index_entries(audio, x).unwrap();
    let segs = m.segments@;
    lemma_segments_contiguous(base, refs);
    assert forall|i: int| 0 <= i < segs.len() implies (#[trigger] segs[i]).time_range.0
        <= segs[i].time_range.1 by {
        assert(spec_segments(base, refs)[i] == segs[i]);
    }
    assert forall|i: int| 0 <= i < segs.len() - 1 implies (#[trigger] segs[i + 1]).time_range.0
        == segs[i].time_range.1 by {
        assert(spec_segments(base, refs)[i + 1] == segs[i + 1]);
    }
    lemma_contiguous_segments_cover(segs, t);
    lemma_contiguous_segments_cover(segs, 0);
}

/// In samples laid one after the other in time, each ends no later than any later one
/// starts.
proof fn lemma_sample_ends_before_starts(v: Seq<MP4Sample>, i: int, j: int)
    requires
        0 <= i < j < v.len(),
        forall|k: int|
            0 <= k < v.len() - 1 ==> (#[trigger] v[k + 1]).start_time == v[k].start_time
                + v[k].duration,
    ensures
        v[i].start_time + v[i].duration <= v[j].start_time,
    decreases j - i,
{
    let k = j - 1;
    assert(v[k + 1].start_time == v[k].start_time + v[k].duration);
    if j > i + 1 {
        lemma_sample_ends_before_starts(v, i, k);
    }
}

/// A time from the start of the first of samples laid one after the other and before the
/// end of sample `k` is covered by one of the first `k + 1`.
proof fn lemma_sample_covered_up_to(v: Seq<MP4Sample>, k: int, t: u64)
    requires
        0 <= k < v.len(),
        forall|i: int|
            0 <= i < v.len() - 1 ==> (#[trigger] v[i + 1]).start_time == v[i].start_time
                + v[i].duration,
        v[0].start_time <= t < v[k].start_time + v[k].duration,
    ensures
        exists|i: int| 0 <= i <= k && sample_holds(#[trigger] v[i], t),
    decreases k,
{
    if k == 0 {
        assert(sample_holds(v[0], t));
    } else {
        let h = k - 1;
        assert(v[h + 1].start_time == v[h].start_time + v[h].duration);
        if t < v[h].start_time + v[h].duration {
            lemma_sample_covered_up_to(v, h, t);
        } else {
            assert(sample_holds(v[k], t));
        }
    }
}

/// Samples laid one after the other, each starting where the one before ends, cover every
/// time from the start of the first to the end of the last, each by exactly one sample: a
/// sample covers the times from its start, included, to its start plus its duration,
/// excluded. In particular a sample that lasts covers its own start.
pub proof fn lemma_contiguous_samples_cover(v: Seq<MP4Sample>, t: u64)
    requires
        v.len() > 0,
        forall|i: int|
            0 <= i < v.len() - 1 ==> (#[trigger] v[i + 1]).start_time == v[i].start_time
                + v[i].duration,
    ensures
        v[0].start_time <= t < v[v.len() - 1].start_time + v[v.len() - 1].duration ==> exists|i: int|
            0 <= i < v.len() && sample_holds(#[trigger] v[i], t),
        forall|i: int, j: int|
            0 <= i < v.len() && 0 <= j < v.len() && sample_holds(#[trigger] v[i], t)
                && sample_holds(#[trigger] v[j], t) ==> i == j,
        forall|i: int|
            0 <= i < v.len() && v[i].duration > 0 ==> sample_holds(#[trigger] v[i], v[i].start_time),
{
    if v[0].start_time <= t < v[v.len() - 1].start_time + v[v.len() - 1].duration {
        lemma_sample_covered_up_to(v, v.len() - 1, t);
    }
    assert forall|i: int, j: int|
        0 <= i < v.len() && 0 <= j < v.len() && sample_holds(#[trigger] v[i], t)
            && sample_holds(#[trigger] v[j], t) implies i == j by {
        if i < j {
            lemma_sample_ends_before_starts(v, i, j);
        } else if j < i {
            lemma_sample_ends_before_starts(v, j, i);
        }
    }
}

/// The samples of a fragment cover every time from the fragment's first sample to the end
/// of its last, each time by exactly one sample.
pub proof fn lemma_fragment_times_covered(f: MP4Fragment, data: Seq<u8>, default: u32, t: u64)
    requires
        fragment_ok(data, default),
        moof_slot(data) matches Some((m, _)) && f.samples@ == moof_samples(data, m, default),
        f.samples@.len() > 0,
    ensures
        f.samples@[0].start_time <= t < f.samples@[f.samples@.len() - 1].start_time + f.samples@[f.samples@.len() - 1].duration
            ==> exists|i: int| 0 <= i < f.samples@.len() && sample_holds(#[trigger] f.samples@[i], t),
        forall|i: int, j: int|
            0 <= i < f.samples@.len() && 0 <= j < f.samples@.len() && sample_holds(
                #[trigger] f.samples@[i],
                t,
            ) && sample_holds(#[trigger] f.samples@[j], t) ==> i == j,
{
    let (m, _) = moof_slot(data).unwrap();
    let tr = find_in(data, m, TRAF).unwrap();
    let run = find_in(data, tr, TRUN).unwrap();
    let base = stored_decode_time(data, tr);
    let sizes = run_sizes(data, run);
    let times = run_times(data, tr, run, default);
    assert(f.samples@ == spec_samples(base, sizes, times));
    lemma_samples_contiguous(base, sizes, times);
    lemma_contiguous_samples_cover(f.samples@, t);
}

/// `i` is the index of a segment of `segments` that covers `t`.
pub open spec fn segment_found(segments: Seq<SegmentIndex>, i: usize, t: u64) -> bool {
    i < segments.len() && segment_holds(segments[i as int], t)
}

/// `i` is the index of a sample of `samples` that covers `t`.
pub open spec fn sample_found(samples: Seq<MP4Sample>, i: usize, t: u64) -> bool {
    i < samples.len() && sample_holds(samples[i as int], t)
}

/// Where a segment stands in the order that std's `binary_search_by` asks of the slice it
/// searches, by what `segment_order` says of it: `Less` (0) before `Equal` (1) before
/// `Greater` (2).
pub open spec fn segment_rank(segment: SegmentIndex, t: u64) -> int {
    if segment_holds(segment, t) {
        1
    } else if t < segment.time_range.0 {
        0
    } else {
        2
    }
}

/// Where a sample stands in the order that std's `binary_search_by` asks of the slice it
/// searches, by what `sample_order` says of it.
pub open spec fn sample_rank(sample: MP4Sample, t: u64) -> int {
    if sample_holds(sample, t) {
        1
    } else if t < sample.start_time {
        0
    } else {
        2
    }
}

/// What `segment_order` says of the segments, read in order, never goes back: the slice
/// is ordered as std's `binary_search_by` asks.
pub open spec fn segments_in_search_order(segments: Seq<SegmentIndex>, t: u64) -> bool {
    forall|i: int, j: int|
        0 <= i <= j < segments.len() ==> segment_rank(#[trigger] segments[i], t) <= segment_rank(
            #[trigger] segments[j],
            t,
        )
}

/// What `sample_order` says of the samples, read in order, never goes back.
pub open spec fn samples_in_search_order(samples: Seq<MP4Sample>, t: u64) -> bool {
    forall|i: int, j: int|
        0 <= i <= j < samples.len() ==> sample_rank(#[trigger] samples[i], t) <= sample_rank(
            #[trigger] samples[j],
            t,
        )
}

/// Some segment of `segments` covers `t`.
pub open spec fn segments_cover(segments: Seq<SegmentIndex>, t: u64) -> bool {
    exists|k: int| 0 <= k < segments.len() && segment_holds(#[trigger] segments[k], t)
}

/// Some sample of `samples` covers `t`.
pub open spec fn samples_cover(samples: Seq<MP4Sample>, t: u64) -> bool {
    exists|k: int| 0 <= k < samples.len() && sample_holds(#[trigger] samples[k], t)
}

/// What std's `binary_search_by` returns on `segments` with the comparison of
/// `segment_order`.
pub uninterp spec fn segment_search(segments: Seq<SegmentIndex>, t: u64) -> Result<usize, usize>;

/// What std's `binary_search_by` returns on `samples` with the comparison of
/// `sample_order`.
pub uninterp spec fn sample_search(samples: Seq<MP4Sample>, t: u64) -> Result<usize, usize>;

/// How a segment compares with time `t` in a search for the segment that covers `t`:
/// `Equal` when it covers `t`, `Less` when it starts after `t`, `Greater` when it ends at
/// or before `t`.
pub fn segment_order(segment: &SegmentIndex, t: u64) -> (r: Ordering)
    ensures
        r == (if segment_holds(*segment, t) {
            Ordering::Equal
        } else if t < segment.time_range.0 {
            Ordering::Less
        } else {
            Ordering::Greater
        }),
{
    if segment.covers(t) {
        Ordering::Equal
    } else if t < segment.time_range.0 {
        Ordering::Less
    } else {
        Ordering::Greater
    }
}

/// How a sample compares with time `t` in a search for the sample that covers `t`:
/// `Equal` when it covers `t`, `Less` when it starts after `t`, `Greater` when it ends at
/// or before `t`.
pub fn sample_order(sample: &MP4Sample, t: u64) -> (r: Ordering)
    ensures
        r == (if sample_holds(*sample, t) {
            Ordering::Equal
        } else if t < sample.start_time {
            Ordering::Less
        } else {
            Ordering::Greater
        }),
{
    if sample.covers(t) {
        Ordering::Equal
    } else if t < sample.start_time {
        Ordering::Less
    } else {
        Ordering::Greater
    }
}

/// Searches `segments` for one that covers `t` with std's `slice::binary_search_by`,
/// comparing by `segment_order`. Its result is named `segment_search`. Its documentation
/// promises that, on a slice ordered as the comparison asks, an element that compares
/// `Equal` is found and `Ok` names such an element; on any other slice the result is
/// unspecified, and nothing more is stated of it, so the caller checks it.
#[verifier::external_body]
fn search_segments(segments: &[SegmentIndex], t: u64) -> (r: Result<usize, usize>)
    ensures
        r == segment_search(segments@, t),
        segments_in_search_order(segments@, t) && segments_cover(segments@, t) ==> r is Ok
            && segment_found(segments@, r->Ok_0, t),
{
    segments.binary_search_by(|segment| segment_order(segment, t))
}

/// Searches `samples` for one that covers `t` with std's `slice::binary_search_by`,
/// comparing by `sample_order`. Its result is named `sample_search`. Its documentation
/// promises that, on a slice ordered as the comparison asks, an element that compares
/// `Equal` is found and `Ok` names such an element; on any other slice the result is
/// unspecified, and nothing more is stated of it, so the caller checks it.
#[verifier::external_body]
fn search_samples(samples: &[MP4Sample], t: u64) -> (r: Result<usize, usize>)
    ensures
        r == sample_search(samples@, t),
        samples_in_search_order(samples@, t) && samples_cover(samples@, t) ==> r is Ok
            && sample_found(samples@, r->Ok_0, t),
{
    samples.binary_search_by(|sample| sample_order(sample, t))
}

/// What handing out the next sample does to playback state `p`: the sample at the current
/// position of the fragment in hand, and the state moved past it, at the first sample of
/// the next segment after the last sample of the fragment; nothing and no change without a
/// fragment in hand or past its last sample.
pub open spec fn after_take(p: Progress) -> (Option<MP4Sample>, Progress) {
    match p.fragment {
        Some(f) => if p.sample_index < f.samples@.len() {
            let last = p.sample_index + 1 >= f.samples@.len();
            (
                Some(f.samples@[p.sample_index as int]),
                Progress {
                    metadata: p.metadata,
                    fragment_index: if last {
                        (p.fragment_index + 1) as usize
                    } else {
                        p.fragment_index
                    },
                    fragment: p.fragment,
                    should_upgrade_fragment: last || p.should_upgrade_fragment,
                    sample_index: if last {
                        0
                    } else {
                        (p.sample_index + 1) as usize
                    },
                },
            )
        } else {
            (None, p)
        },
        None => (None, p),
    }
}

/// The samples handed out by `n` steps of `after_take` from state `p`, and the state after.
pub open spec fn take_n(p: Progress, n: nat) -> (Seq<MP4Sample>, Progress)
    decreases n,
{
    if n == 0 {
        (Seq::empty(), p)
    } else {
        let (s, q) = after_take(p);
        let (rest, last) = take_n(q, (n - 1) as nat);
        (
            match s {
                Some(x) => seq![x] + rest,
                None => rest,
            },
            last,
        )
    }
}

/// Playing the fragment in hand hands out each of its samples once, in order, from the
/// current one to the last, and then stands at the first sample of the next segment, whose
/// fragment is to be fetched; the fragment in hand and the metadata stay.
pub proof fn lemma_fragment_played_in_order(p: Progress)
    requires
        p.wf(),
        !p.should_upgrade_fragment,
        p.metadata.segments@.len() <= usize::MAX,
        p.fragment matches Some(f) && p.sample_index < f.samples@.len() <= usize::MAX,
    ensures
        ({
            let f = p.fragment.unwrap();
            let n = (f.samples@.len() - p.sample_index) as nat;
            &&& take_n(p, n).0 == f.samples@.subrange(p.sample_index as int, f.samples@.len() as int)
            &&& take_n(p, n).1.fragment_index == p.fragment_index + 1
            &&& take_n(p, n).1.sample_index == 0
            &&& take_n(p, n).1.should_upgrade_fragment
            &&& take_n(p, n).1.fragment == p.fragment
            &&& take_n(p, n).1.metadata == p.metadata
        }),
    decreases p.fragment.unwrap().samples@.len() - p.sample_index,
{
    let f = p.fragment.unwrap();
    let len = f.samples@.len();
    let i = p.sample_index as int;
    let n = (len - i) as nat;
    let (s, q) = after_take(p);
    assert(s == Some(f.samples@[i]));
    assert(take_n(p, n) == (seq![f.samples@[i]] + take_n(q, (n - 1) as nat).0, take_n(
        q,
        (n - 1) as nat,
    ).1));
    if i + 1 >= len {
        assert(n == 1);
        assert(take_n(q, 0).0 =~= Seq::<MP4Sample>::empty());
        assert(seq![f.samples@[i]] =~= f.samples@.subrange(i, len as int));
    } else {
        assert(q.fragment == p.fragment);
        assert(q.sample_index == i + 1);
        assert(q.fragment_index == p.fragment_index);
        lemma_fragment_played_in_order(q);
        assert(seq![f.samples@[i]] + f.samples@.subrange(i + 1, len as int) =~= f.samples@.subrange(
            i,
            len as int,
        ));
    }
}

impl SegmentIndex {
    /// Whether the segment covers time `t`.
    pub fn covers(&self, t: u64) -> (r: bool)
        ensures
            r == segment_holds(*self, t),
    {
        self.time_range.0 <= t && t < self.time_range.1
    }
}

impl MP4Sample {
    /// Whether the sample covers time `t`.
    pub fn covers(&self, t: u64) -> (r: bool)
        ensures
            r == sample_holds(*self, t),
    {
        self.start_time <= t && t - self.start_time < self.duration as u64
    }
}

impl Progress {
    /// After a fetch was asked for and answered, the fragment in hand is one of the
    /// stream's segments.
    pub open spec fn wf(&self) -> bool {
        !self.should_upgrade_fragment && self.fragment is Some ==> self.fragment_index
            < self.metadata.segments@.len()
    }

    /// The sample that `take_sample` hands out next lies within its fragment's media data.
    pub open spec fn current_in_data(&self) -> bool {
        self.fragment matches Some(f) ==> f.sample_in_data(self.sample_index as int)
    }

    /// Starts playing an audio stream whose metadata is `metadata`, from its first
    /// segment, which is to be fetched.
    pub fn new(metadata: MP4Metadata) -> (r: Self)
        ensures
            r.metadata == metadata,
            r.fragment_index == 0,
            r.fragment is None,
            r.should_upgrade_fragment,
            r.sample_index == 0,
            r.wf(),
    {
        Progress {
            metadata,
            fragment_index: 0,
            fragment: None,
            should_upgrade_fragment: true,
            sample_index: 0,
        }
    }

    /// Moves to the segment that the search for time `t` gave, once it is checked to
    /// cover `t`: `Ok(i)` with segment `i` covering `t` makes that segment the one to fetch
    /// next; `Err(i)`, or an index that does not cover `t`, is refused with the number `i`
    /// as message, and nothing changes.
    pub fn enter_segment(&mut self, found: Result<usize, usize>, t: u64) -> (r: Result<(), Error>)
        requires
            old(self).wf(),
        ensures
            final(self).wf(),
            r is Ok ==> final(self).fragment_index < final(self).metadata.segments@.len()
                && segment_holds(final(self).metadata.segments@[final(self).fragment_index as int], t),
            r is Ok <==> (found matches Ok(i) && segment_found(old(self).metadata.segments@, i, t)),
            r is Ok ==> found == Ok::<usize, usize>(final(self).fragment_index)
                && final(self).should_upgrade_fragment && final(self).metadata == old(self).metadata
                && final(self).fragment == old(self).fragment && final(self).sample_index
                == old(self).sample_index,
            r matches Err(e) ==> e.is_internal() && e.message() == decimal_chars(
                match found {
                    Ok(i) => i,
                    Err(i) => i,
                } as nat,
            ) && *final(self) == *old(self),
    {
        match found {
            Ok(i) => {
                if i < self.metadata.segments.len() && self.metadata.segments[i].covers(t) {
                    self.fragment_index = i;
                    self.should_upgrade_fragment = true;
                    Ok(())
                } else {
                    Err(internal_error_number(i))
                }
            },
            Err(i) => Err(internal_error_number(i)),
        }
    }

    /// Looks for the segment that covers time `t`, as the first step of moving playback
    /// there, and enters it: it becomes the segment to fetch next. When no segment covers
    /// `t` the move is refused and nothing changes; a search that gives `Err(i)` is
    /// refused with the number `i` as message.
    pub fn seek_segment(&mut self, t: u64) -> (r: Result<(), Error>)
        requires
            old(self).wf(),
        ensures
            final(self).wf(),
            r is Ok ==> final(self).fragment_index < final(self).metadata.segments@.len()
                && segment_holds(final(self).metadata.segments@[final(self).fragment_index as int], t)
                && final(self).should_upgrade_fragment && final(self).metadata == old(self).metadata
                && final(self).fragment == old(self).fragment && final(self).sample_index
                == old(self).sample_index,
            r is Err ==> *final(self) == *old(self),
            (forall|j: int| 0 <= j < old(self).metadata.segments@.len() ==> !segment_holds(
                #[trigger] old(self).metadata.segments@[j], t)) ==> r is Err,
            segments_in_search_order(old(self).metadata.segments@, t) && segments_cover(
                old(self).metadata.segments@,
                t,
            ) ==> r is Ok,
            r is Ok <==> (segment_search(old(self).metadata.segments@, t) matches Ok(i)
                && segment_found(old(self).metadata.segments@, i, t)),
            r is Ok ==> segment_search(old(self).metadata.segments@, t) == Ok::<usize, usize>(final(self).fragment_index),
            segment_search(old(self).metadata.segments@, t) matches Err(i) ==> (r matches Err(e)
                && e.is_internal() && e.message() == decimal_chars(i as nat)),
    {
        let found = search_segments(self.metadata.segments.as_slice(), t);
        self.enter_segment(found, t)
    }

    /// Says which bytes of the stream to fetch next: nothing when the fragment in hand is
    /// current, else the byte range of the current segment, after which the fragment
    /// counts as current. Past the last segment the fragment is dropped and the request
    /// refused.
    pub fn pending_fetch(&mut self) -> (r: Result<Option<(usize, usize)>, Error>)
        requires
            old(self).wf(),
        ensures
            final(self).wf(),
            !final(self).should_upgrade_fragment,
            final(self).metadata == old(self).metadata,
            final(self).fragment_index == old(self).fragment_index,
            final(self).sample_index == old(self).sample_index,
            !old(self).should_upgrade_fragment ==> r == Ok::<Option<(usize, usize)>, Error>(None)
                && final(self).fragment == old(self).fragment,
            old(self).should_upgrade_fragment && old(self).fragment_index
                < old(self).metadata.segments@.len() ==> r == Ok::<Option<(usize, usize)>, Error>(
                Some(old(self).metadata.segments@[old(self).fragment_index as int].data_range),
            ) && final(self).fragment == old(self).fragment,
            old(self).should_upgrade_fragment && old(self).fragment_index
                >= old(self).metadata.segments@.len() ==> (r matches Err(e) && e.is_internal()
                && e.message() == "out of references limit"@) && final(self).fragment is None,
    {
        if !self.should_upgrade_fragment {
            return Ok(None);
        }
        self.should_upgrade_fragment = false;
        if self.fragment_index >= self.metadata.segments.len() {
            self.fragment = None;
            return Err(internal_error("out of references limit"));
        }
        Ok(Some(self.metadata.segments[self.fragment_index].data_range))
    }

    /// Takes the fetched bytes of the current segment as the fragment in hand; bytes that
    /// hold no fragment are refused and the fragment in hand stays.
    pub fn set_fragment(&mut self, data: &[u8]) -> (r: Result<(), Error>)
        requires
            old(self).wf(),
            !old(self).should_upgrade_fragment,
            old(self).fragment_index < old(self).metadata.segments@.len(),
        ensures
            final(self).wf(),
            final(self).metadata == old(self).metadata,
            final(self).fragment_index == old(self).fragment_index,
            final(self).sample_index == old(self).sample_index,
            final(self).should_upgrade_fragment == old(self).should_upgrade_fragment,
            r is Ok <==> fragment_ok(data@, old(self).metadata.default_sample_duration),
            r is Ok ==> (final(self).fragment matches Some(f) && moof_slot(data@) matches Some((m, _))
                && mdat_slot(data@) matches Some(d) && f.samples@ == moof_samples(
                data@,
                m,
                old(self).metadata.default_sample_duration,
            ) && f.data@ == data@.subrange(d.start, d.start + d.size)),
            r is Err ==> final(self).fragment == old(self).fragment,
    {
        let fragment = MP4Fragment::parse(&self.metadata, data)?;
        self.fragment = Some(fragment);
        Ok(())
    }

    /// Moves to the sample of the fragment in hand that the search for time `t` gave,
    /// once it is checked to cover `t`: `Ok(i)` with sample `i` covering `t` makes it the
    /// next one; `Err(i)`, an index that does not cover `t`, or no fragment in hand, is
    /// refused with the number `i` as message, and nothing changes.
    pub fn enter_sample(&mut self, found: Result<usize, usize>, t: u64) -> (r: Result<(), Error>)
        requires
            old(self).wf(),
        ensures
            final(self).wf(),
            r is Ok <==> (found matches Ok(i) && old(self).fragment matches Some(f)
                && sample_found(f.samples@, i, t)),
            r is Ok ==> found == Ok::<usize, usize>(final(self).sample_index)
                && final(self).fragment_index == old(self).fragment_index
                && final(self).should_upgrade_fragment == old(self).should_upgrade_fragment
                && final(self).metadata == old(self).metadata && final(self).fragment == old(self).fragment,
            r matches Err(e) ==> e.is_internal() && e.message() == decimal_chars(
                match found {
                    Ok(i) => i,
                    Err(i) => i,
                } as nat,
            ) && *final(self) == *old(self),
    {
        match found {
            Ok(i) => {
                let fits = match &self.fragment {
                    Some(fragment) => i < fragment.samples.len() && fragment.samples[i].covers(t),
                    None => false,
                };
                if fits {
                    self.sample_index = i;
                    Ok(())
                } else {
                    Err(internal_error_number(i))
                }
            },
            Err(i) => Err(internal_error_number(i)),
        }
    }

    /// Looks for the sample of the fragment in hand that covers time `t`, as the last step
    /// of moving playback there, and makes it the next one; without a fragment in hand
    /// nothing changes. When no sample of the fragment covers `t` the move is refused and
    /// nothing changes; a search that gives `Err(i)` is refused with the number `i` as
    /// message.
    pub fn seek_sample(&mut self, t: u64) -> (r: Result<(), Error>)
        requires
            old(self).wf(),
        ensures
            final(self).wf(),
            r is Err ==> *final(self) == *old(self),
            old(self).fragment is None ==> r is Ok && *final(self) == *old(self),
            old(self).fragment matches Some(f) ==> {
                &&& r is Ok ==> final(self).sample_index < f.samples@.len() && sample_holds(
                    f.samples@[final(self).sample_index as int],
                    t,
                ) && final(self).fragment_index == old(self).fragment_index
                    && final(self).should_upgrade_fragment == old(self).should_upgrade_fragment
                    && final(self).metadata == old(self).metadata && final(self).fragment
                    == old(self).fragment
                &&& (forall|j: int| 0 <= j < f.samples@.len() ==> !sample_holds(
                    #[trigger] f.samples@[j], t)) ==> r is Err
                &&& samples_in_search_order(f.samples@, t) && samples_cover(f.samples@, t) ==> r is Ok
                &&& r is Ok <==> (sample_search(f.samples@, t) matches Ok(i) && sample_found(
                    f.samples@,
                    i,
                    t,
                ))
                &&& r is Ok ==> sample_search(f.samples@, t) == Ok::<usize, usize>(final(self).sample_index)
                &&& sample_search(f.samples@, t) matches Err(i) ==> (r matches Err(e)
                    && e.is_internal() && e.message() == decimal_chars(i as nat))
            },
    {
        let found = match &self.fragment {
            Some(fragment) => search_samples(fragment.samples.as_slice(), t),
            None => {
                return Ok(());
            },
        };
        self.enter_sample(found, t)
    }

    /// Whether the sample that `take_sample` hands out next lies within its fragment's
    /// media data, as `take_sample` needs.
    pub fn current_sample_fits(&self) -> (r: bool)
        ensures
            r == self.current_in_data(),
    {
        match &self.fragment {
            Some(fragment) => fragment.sample_fits(self.sample_index),
            None => true,
        }
    }

    /// Hands out the next sample of the fragment in hand and its bytes, and moves past it;
    /// after the last sample of the fragment, moves to the first sample of the next
    /// segment, whose fragment is then to be fetched. Nothing without a fragment in hand
    /// or past its last sample.
    pub fn take_sample(&mut self) -> (r: Option<(MP4Sample, Vec<u8>)>)
        requires
            old(self).wf(),
            !old(self).should_upgrade_fragment,
            old(self).current_in_data(),
        ensures
            final(self).wf(),
            *final(self) == after_take(*old(self)).1,
            r is Some <==> after_take(*old(self)).0 is Some,
            r matches Some((sample, bytes)) ==> after_take(*old(self)).0 == Some(sample) && bytes@
                == old(self).fragment.unwrap().data@.subrange(
                sample.range.0 as int,
                sample.range.1 as int,
            ),
    {
        let (sample, bytes, count) = match &self.fragment {
            Some(fragment) => match fragment.get_sample(self.sample_index) {
                Some((sample, bytes)) => (*sample, vstd::slice::slice_to_vec(bytes), fragment.get_sample_count()),
                None => {
                    return None;
                },
            },
            None => {
                return None;
            },
        };
        let segment_count = self.metadata.segments.len();
        assert(self.fragment_index < segment_count);
        if self.sample_index + 1 >= count {
            self.sample_index = 0;
            self.fragment_index = self.fragment_index + 1;
            self.should_upgrade_fragment = true;
        } else {
            self.sample_index = self.sample_index + 1;
        }
        Some((sample, bytes))
    }
}

} // verus!
