use vstd::prelude::*;
use crate::errors::{Error, io_error_with_type};
use crate::parsing::utils::box_stream::{BoxStream, be16};
use crate::parsing::utils::box_type::BoxType;

verus! {

/// `roll`
pub const ROLL: u32 = 0x6c6c6f72;

/// An entry of a sample group description.
#[derive(Clone, Copy, Debug, PartialEq, Eq, Structural)]
pub enum SampleGroup {
    Roll(SampleGroupRoll),
}

/// A roll recovery entry: how many samples must be decoded before a sample is correct.
#[derive(Clone, Copy, Debug, PartialEq, Eq, Structural)]
pub struct SampleGroupRoll {
    pub roll_distance: u16,
}

impl SampleGroupRoll {
    /// Parses a roll recovery entry.
    pub fn parse(stream: &mut BoxStream) -> (r: Result<Self, Error>)
        requires
            old(stream).wf(),
        ensures
            old(stream).same_bytes(*final(stream)),
            r is Ok <==> old(stream).remaining() >= 2,
            r matches Ok(g) ==> g.roll_distance == be16(old(stream).bytes(), old(stream).position())
                && final(stream).position() == old(stream).position() + 2,
            r matches Err(e) ==> e.is_io(),
    {
        let roll_distance = stream.read_u16()?;
        Ok(SampleGroupRoll { roll_distance })
    }
}

impl SampleGroup {
    /// The entry of grouping type `typ` stored at `p` and where it ends, if it can be read;
    /// only roll recovery entries are known.
    pub open spec fn spec_parse(s: Seq<u8>, p: int, typ: BoxType) -> Option<(Self, int)> {
        if typ.0 != ROLL || p < 0 || p + 2 > s.len() {
            None
        } else {
            Some((SampleGroup::Roll(SampleGroupRoll { roll_distance: be16(s, p) }), p + 2))
        }
    }

    /// Parses an entry of grouping type `typ`; the description length is not used by the
    /// entries known here.
    pub fn parse(stream: &mut BoxStream, typ: BoxType, description_length: usize) -> (r: Result<
        Self,
        Error,
    >)
        requires
            old(stream).wf(),
        ensures
            old(stream).same_bytes(*final(stream)),
            r is Ok <==> Self::spec_parse(old(stream).bytes(), old(stream).position(), typ) is Some,
            r matches Ok(g) ==> Self::spec_parse(old(stream).bytes(), old(stream).position(), typ)
                == Some((g, final(stream).position())),
            r matches Err(e) ==> e.is_io(),
    {
        if typ.0 == ROLL {
            let roll = SampleGroupRoll::parse(stream)?;
            Ok(SampleGroup::Roll(roll))
        } else {
            Err(io_error_with_type("sample group unknown type: ", typ))
        }
    }
}

} // verus!
