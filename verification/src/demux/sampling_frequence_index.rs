use vstd::prelude::*;
use crate::errors::{Error, internal_error};

verus! {

/// An index into the table of sampling frequencies of MPEG-4 audio.
#[derive(Debug, PartialEq, Eq, Structural, Clone, Copy)]
pub enum SamplingFrequenceIndex {
    Freq96000,
    Freq88200,
    Freq64000,
    Freq48000,
    Freq44100,
    Freq32000,
    Freq24000,
    Freq22050,
    Freq16000,
    Freq12000,
    Freq11025,
    Freq8000,
    Freq7350,
}

impl SamplingFrequenceIndex {
    /// The index in the table.
    pub open spec fn spec_index(self) -> u32 {
        match self {
            SamplingFrequenceIndex::Freq96000 => 0,
            SamplingFrequenceIndex::Freq88200 => 1,
            SamplingFrequenceIndex::Freq64000 => 2,
            SamplingFrequenceIndex::Freq48000 => 3,
            SamplingFrequenceIndex::Freq44100 => 4,
            SamplingFrequenceIndex::Freq32000 => 5,
            SamplingFrequenceIndex::Freq24000 => 6,
            SamplingFrequenceIndex::Freq22050 => 7,
            SamplingFrequenceIndex::Freq16000 => 8,
            SamplingFrequenceIndex::Freq12000 => 9,
            SamplingFrequenceIndex::Freq11025 => 10,
            SamplingFrequenceIndex::Freq8000 => 11,
            SamplingFrequenceIndex::Freq7350 => 12,
        }
    }

    /// The sampling frequency in Hz.
    pub open spec fn spec_sample_rate(self) -> u32 {
        match self {
            SamplingFrequenceIndex::Freq96000 => 96000,
            SamplingFrequenceIndex::Freq88200 => 88200,
            SamplingFrequenceIndex::Freq64000 => 64000,
            SamplingFrequenceIndex::Freq48000 => 48000,
            SamplingFrequenceIndex::Freq44100 => 44100,
            SamplingFrequenceIndex::Freq32000 => 32000,
            SamplingFrequenceIndex::Freq24000 => 24000,
            SamplingFrequenceIndex::Freq22050 => 22050,
            SamplingFrequenceIndex::Freq16000 => 16000,
            SamplingFrequenceIndex::Freq12000 => 12000,
            SamplingFrequenceIndex::Freq11025 => 11025,
            SamplingFrequenceIndex::Freq8000 => 8000,
            SamplingFrequenceIndex::Freq7350 => 7350,
        }
    }

    /// The table entry at `value`; indexes past the table are refused.
    pub fn try_from(value: u32) -> (r: Result<SamplingFrequenceIndex, Error>)
        ensures
            r is Ok <==> value <= 0xc,
            r matches Ok(f) ==> f.spec_index() == value,
            r matches Err(e) ==> e.is_internal() && e.message()
                == "invalid sampling frequency index"@,
    {
        match value {
            0 => Ok(SamplingFrequenceIndex::Freq96000),
            1 => Ok(SamplingFrequenceIndex::Freq88200),
            2 => Ok(SamplingFrequenceIndex::Freq64000),
            3 => Ok(SamplingFrequenceIndex::Freq48000),
            4 => Ok(SamplingFrequenceIndex::Freq44100),
            5 => Ok(SamplingFrequenceIndex::Freq32000),
            6 => Ok(SamplingFrequenceIndex::Freq24000),
            7 => Ok(SamplingFrequenceIndex::Freq22050),
            8 => Ok(SamplingFrequenceIndex::Freq16000),
            9 => Ok(SamplingFrequenceIndex::Freq12000),
            10 => Ok(SamplingFrequenceIndex::Freq11025),
            11 => Ok(SamplingFrequenceIndex::Freq8000),
            12 => Ok(SamplingFrequenceIndex::Freq7350),
            _ => Err(internal_error("invalid sampling frequency index")),
        }
    }

    /// The sampling frequency in Hz.
    pub fn sample_rate(&self) -> (r: u32)
        ensures
            r == self.spec_sample_rate(),
    {
        match *self {
            SamplingFrequenceIndex::Freq96000 => 96000,
            SamplingFrequenceIndex::Freq88200 => 88200,
            SamplingFrequenceIndex::Freq64000 => 64000,
            SamplingFrequenceIndex::Freq48000 => 48000,
            SamplingFrequenceIndex::Freq44100 => 44100,
            SamplingFrequenceIndex::Freq32000 => 32000,
            SamplingFrequenceIndex::Freq24000 => 24000,
            SamplingFrequenceIndex::Freq22050 => 22050,
            SamplingFrequenceIndex::Freq16000 => 16000,
            SamplingFrequenceIndex::Freq12000 => 12000,
            SamplingFrequenceIndex::Freq11025 => 11025,
            SamplingFrequenceIndex::Freq8000 => 8000,
            SamplingFrequenceIndex::Freq7350 => 7350,
        }
    }
}

/// A later table entry stands for a lower frequency.
pub proof fn lemma_sample_rate_decreasing(a: SamplingFrequenceIndex, b: SamplingFrequenceIndex)
    requires
        a.spec_index() < b.spec_index(),
    ensures
        a.spec_sample_rate() > b.spec_sample_rate(),
{
}

} // verus!
