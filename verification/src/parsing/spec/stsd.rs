use vstd::prelude::*;
use crate::errors::{Error, io_error, io_error_with_type};
use crate::parsing::utils::box_stream::{BoxStream, be32, spec_box_header};
use super::audio_sample::{AudioSampleBox, MP4A};

verus! {

/// `stsd`
pub const STSD: u32 = 0x64737473;

/// The payload positions and sizes of `n` `mp4a` sample entries starting at `q`, and where
/// the last one ends.
pub open spec fn stsd_walk(s: Seq<u8>, q: int, n: nat) -> Option<(Seq<(int, int)>, int)>
    decreases n,
{
    if n == 0 {
        Some((Seq::empty(), q))
    } else {
        match spec_box_header(s, q, 0) {
            Some((typ, bs, h)) => if bs < h || typ.0 != MP4A {
                None
            } else {
                match AudioSampleBox::spec_end(s, q + h, bs - h) {
                    Some(e) => match stsd_walk(s, e, (n - 1) as nat) {
                        Some((rest, end)) => Some((seq![(q + h, bs - h)] + rest, end)),
                        None => None,
                    },
                    None => None,
                }
            },
            None => None,
        }
    }
}

/// Sample description box: the sample entries of a track, of which only `mp4a` audio
/// entries are read.
pub struct SampleDescriptionBox {
    pub entries: Vec<AudioSampleBox>,
}

impl SampleDescriptionBox {
    /// Where parsing the payload at `p` ends, if it succeeds.
    pub open spec fn spec_end(s: Seq<u8>, p: int) -> Option<int> {
        if p < 0 || p + 8 > s.len() {
            None
        } else {
            match stsd_walk(s, p + 8, be32(s, p + 4) as nat) {
                Some((_, end)) => Some(end),
                None => None,
            }
        }
    }

    /// The box holds the entries stored at `p`.
    pub open spec fn parsed_from(&self, s: Seq<u8>, p: int) -> bool {
        stsd_walk(s, p + 8, be32(s, p + 4) as nat) matches Some((slots, _)) && {
            &&& self.entries@.len() == slots.len()
            &&& forall|i: int|
                0 <= i < slots.len() ==> #[trigger] self.entries@[i].parsed_from(
                    s,
                    slots[i].0,
                    slots[i].1,
                )
        }
    }

    /// Parses the payload of a `stsd` box.
    pub fn parse(stream: &mut BoxStream, size: usize) -> (r: Result<Self, Error>)
        requires
            old(stream).wf(),
        ensures
            old(stream).same_bytes(*final(stream)),
            r is Ok <==> Self::spec_end(old(stream).bytes(), old(stream).position()) is Some,
            r matches Ok(b) ==> Some(final(stream).position()) == Self::spec_end(
                old(stream).bytes(),
                old(stream).position(),
            ) && b.parsed_from(old(stream).bytes(), old(stream).position()),
            r matches Err(e) ==> e.is_io(),
    {
        let ghost s = old(stream).bytes();
        let ghost p = old(stream).position();
        let _ = stream.read_box_version_flag_header()?;
        let entry_count = stream.read_u32()?;
        let mut entries: Vec<AudioSampleBox> = Vec::new();
        let ghost mut slots: Seq<(int, int)> = Seq::empty();
        let mut i: u32 = 0;
        while i < entry_count
            invariant
                old(stream).same_bytes(*stream),
                s == old(stream).bytes(),
                p == old(stream).position(),
                p + 8 <= s.len(),
                entry_count == be32(s, p + 4),
                i <= entry_count,
                entries@.len() == i,
                slots.len() == i,
                forall|j: int|
                    0 <= j < i ==> #[trigger] entries@[j].parsed_from(s, slots[j].0, slots[j].1),
                stsd_walk(s, p + 8, entry_count as nat) == (match stsd_walk(
                    s,
                    stream.position(),
                    (entry_count - i) as nat,
                ) {
                    Some((rest, end)) => Some((slots + rest, end)),
                    None => None,
                }),
            decreases entry_count - i,
        {
            let ghost q = stream.position();
            let (typ, box_size, hdr_size) = stream.read_box_common_header(0)?;
            if box_size < hdr_size {
                return Err(io_error("invalid box size"));
            }
            if typ.0 != MP4A {
                return Err(io_error_with_type("unknown stsd box type: ", typ));
            }
            let entry = AudioSampleBox::parse(stream, box_size - hdr_size)?;
            proof {
                let n = (entry_count - i) as nat;
                assert(stsd_walk(s, q, n) == (match stsd_walk(s, stream.position(), (n - 1) as nat) {
                    Some((rest, end)) => Some((seq![(q + hdr_size, box_size - hdr_size)] + rest, end)),
                    None => None,
                }));
                let ghost old_slots = slots;
                slots = slots.push((q + hdr_size, box_size - hdr_size));
                assert forall|rest: Seq<(int, int)>|
                    old_slots + (seq![(q + hdr_size, box_size - hdr_size)] + rest) == slots
                        + rest by {
                    assert(old_slots + (seq![(q + hdr_size, box_size - hdr_size)] + rest) =~= slots
                        + rest);
                }
            }
            entries.push(entry);
            i = i + 1;
        }
        assert(slots + Seq::<(int, int)>::empty() =~= slots);
        Ok(SampleDescriptionBox { entries })
    }

    /// Moves the first audio sample entry out of the box, if it holds one.
    pub fn into_audio_sample(self) -> (r: Option<AudioSampleBox>)
        ensures
            self.entries@.len() > 0 ==> r == Some(self.entries@[0]),
            self.entries@.len() == 0 ==> r is None,
    {
        if self.entries.len() > 0 {
            let mut entries = self.entries;
            Some(entries.remove(0))
        } else {
            None
        }
    }

    /// The first audio sample entry, if any.
    pub fn get_audio_sample(&self) -> (r: Option<&AudioSampleBox>)
        ensures
            self.entries@.len() > 0 ==> r == Some(&self.entries@[0]),
            self.entries@.len() == 0 ==> r is None,
    {
        if self.entries.len() > 0 {
            Some(&self.entries[0])
        } else {
            None
        }
    }
}

} // verus!
