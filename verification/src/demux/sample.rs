use vstd::prelude::*;

verus! {

/// One audio frame of a fragment: when it starts, how long it lasts and where its bytes
/// lie in the fragment's media data (`range.0` included, `range.1` excluded).
#[derive(Debug, PartialEq, Eq, Clone, Copy)]
pub struct MP4Sample {
    pub start_time: u64,
    pub duration: u32,
    pub range: (usize, usize),
}

impl MP4Sample {
    /// A sample with the given start time, duration and byte range.
    pub fn new(start_time: u64, duration: u32, range: (usize, usize)) -> (r: Self)
        ensures
            r == (MP4Sample { start_time, duration, range }),
    {
        MP4Sample { start_time, duration, range }
    }
}

} // verus!
