use vstd::prelude::*;
use vstd::utf8::{decode_utf8, valid_utf8};
use crate::errors::{Error, io_error};
use crate::parsing::utils::box_stream::{BoxStream, le32};
use crate::parsing::utils::box_type::BoxType;
use crate::parsing::utils::text::utf8_to_string;

verus! {

/// `hdlr`
pub const HDLR: u32 = 0x726c6468;

/// `vide`
pub const VIDE: u32 = 0x65646976;

/// `soun`
pub const SOUN: u32 = 0x6e756f73;

/// Handler reference box: the kind of media of a track and a readable name.
pub struct HandlerBox {
    pub handler: BoxType,
    pub name: String,
}

impl HandlerBox {
    /// The bytes of the name of a version-0 box of `size` bytes at `p`.
    pub open spec fn name_bytes(s: Seq<u8>, p: int, size: int) -> Seq<u8> {
        s.subrange(p + 24, p + size)
    }

    /// Where parsing a payload of `size` bytes at `p` ends, if it succeeds: a version-0 box
    /// holds a UTF-8 name up to its end; other versions hold nothing the parser reads.
    pub open spec fn spec_end(s: Seq<u8>, p: int, size: int) -> Option<int> {
        if p + 4 > s.len() {
            None
        } else if s[p] != 0 {
            Some(p + 4)
        } else if p + 24 > s.len() || size < 24 || p + size > s.len() || !valid_utf8(
            Self::name_bytes(s, p, size),
        ) {
            None
        } else {
            Some(p + size)
        }
    }

    /// The handler type stored in the box at `p`.
    pub open spec fn spec_handler(s: Seq<u8>, p: int) -> BoxType {
        if s[p] == 0 {
            BoxType(le32(s, p + 8))
        } else {
            BoxType(0)
        }
    }

    /// The name stored in the box of `size` bytes at `p`.
    pub open spec fn spec_name(s: Seq<u8>, p: int, size: int) -> Seq<char> {
        if s[p] == 0 {
            decode_utf8(Self::name_bytes(s, p, size))
        } else {
            Seq::<char>::empty()
        }
    }

    /// The box holds the handler type and name stored at `p`.
    pub open spec fn parsed_from(&self, s: Seq<u8>, p: int, size: int) -> bool {
        if s[p] == 0 {
            &&& self.handler == BoxType(le32(s, p + 8))
            &&& self.name@ == decode_utf8(Self::name_bytes(s, p, size))
        } else {
            &&& self.handler == BoxType(0)
            &&& self.name@ == Seq::<char>::empty()
        }
    }

    /// Parses the payload of a `hdlr` box of `size` bytes.
    pub fn parse(stream: &mut BoxStream, size: usize) -> (r: Result<Self, Error>)
        requires
            old(stream).wf(),
        ensures
            old(stream).same_bytes(*final(stream)),
            r is Ok <==> Self::spec_end(old(stream).bytes(), old(stream).position(), size as int)
                is Some,
            r matches Ok(b) ==> Some(final(stream).position()) == Self::spec_end(
                old(stream).bytes(),
                old(stream).position(),
                size as int,
            ) && b.parsed_from(old(stream).bytes(), old(stream).position(), size as int),
            r matches Err(e) ==> e.is_io(),
    {
        let (version, _) = stream.read_box_version_flag_header()?;
        if version == 0 {
            stream.skip_bytes(4)?;
            let handler = stream.read_box_type()?;
            stream.skip_bytes(12)?;
            if size < 24 {
                return Err(io_error("invalid box size"));
            }
            let name = stream.read_exact(size - 24)?;
            match utf8_to_string(name.as_slice()) {
                Ok(name) => Ok(HandlerBox { handler, name }),
                Err(msg) => Err(Error::IOError(msg)),
            }
        } else {
            Ok(HandlerBox { handler: BoxType(0), name: String::new() })
        }
    }

    /// The kind of media of the track.
    pub fn get_handler_type(&self) -> (r: BoxType)
        ensures
            r == self.handler,
    {
        self.handler
    }

    /// The name of the handler.
    pub fn get_name(&self) -> (r: &str)
        ensures
            r@ == self.name@,
    {
        self.name.as_str()
    }
}

} // verus!
