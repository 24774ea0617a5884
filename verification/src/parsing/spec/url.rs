use vstd::prelude::*;
use crate::errors::Error;
use crate::parsing::utils::box_stream::BoxStream;

verus! {

/// `url `
pub const URL: u32 = 0x206c7275;

/// Index of the first zero byte of `s` at or after `i`.
pub open spec fn first_zero_from(s: Seq<u8>, i: int) -> Option<int>
    decreases s.len() - i,
{
    if i < 0 || i >= s.len() {
        None
    } else if s[i] == 0 {
        Some(i)
    } else {
        first_zero_from(s, i + 1)
    }
}

/// Data entry URL box: the location of the media, absent when the flags are `0x000001`
/// (media in the same file).
pub struct DataEntryUrlBox {
    pub location: Vec<u8>,
}

impl DataEntryUrlBox {
    /// The box stores no location: its flags are exactly `0x000001`.
    pub open spec fn self_contained(s: Seq<u8>, p: int) -> bool {
        s[p + 1] == 0 && s[p + 2] == 0 && s[p + 3] == 1
    }

    /// Where parsing the payload at `p` ends, if it succeeds.
    pub open spec fn spec_end(s: Seq<u8>, p: int) -> Option<int> {
        if p < 0 || p + 4 > s.len() {
            None
        } else if Self::self_contained(s, p) {
            Some(p + 4)
        } else {
            match first_zero_from(s, p + 4) {
                Some(z) => Some(z + 1),
                None => None,
            }
        }
    }

    /// The box holds the location stored at `p`.
    pub open spec fn parsed_from(&self, s: Seq<u8>, p: int) -> bool {
        if Self::self_contained(s, p) {
            self.location@.len() == 0
        } else {
            self.location@ == s.subrange(p + 4, first_zero_from(s, p + 4).unwrap())
        }
    }

    /// Parses the payload of a `url ` box: a zero-terminated location unless the flags say
    /// that the media is in the same file.
    pub fn parse(stream: &mut BoxStream, size: usize) -> (r: Result<Self, Error>)
        requires
            old(stream).wf(),
        ensures
            old(stream).same_bytes(*final(stream)),
            r is Ok <==> Self::spec_end(old(stream).bytes(), old(stream).position()) is Some,
            r matches Ok(b) ==> Some(final(stream).position()) == Self::spec_end(
                old(stream).bytes(),
                old(stream).position(),
            ) && b.parsed_from(old(stream).bytes(), old(stream).position()),
            r matches Err(e) ==> e.is_io(),
    {
        let ghost s = old(stream).bytes();
        let ghost p = old(stream).position();
        let (_, flag) = stream.read_box_version_flag_header()?;
        let mut location: Vec<u8> = Vec::new();
        if flag[0] != 0x00 || flag[1] != 0x00 || flag[2] != 0x01 {
            loop
                invariant_except_break
                    first_zero_from(s, p + 4) == first_zero_from(s, stream.position()),
                    location@ == s.subrange(p + 4, stream.position()),
                invariant
                    stream.wf(),
                    s == old(stream).bytes(),
                    p == old(stream).position(),
                    stream.bytes() == s,
                    0 <= p,
                    p + 4 <= stream.position(),
                    !Self::self_contained(s, p),
                ensures
                    first_zero_from(s, p + 4) == Some(stream.position() - 1),
                    location@ == s.subrange(p + 4, stream.position() - 1),
                decreases stream.remaining(),
            {
                let b = stream.read_u8()?;
                if b == 0 {
                    break;
                }
                location.push(b);
                assert(location@ =~= s.subrange(p + 4, stream.position()));
            }
        }
        Ok(DataEntryUrlBox { location })
    }
}

} // verus!
