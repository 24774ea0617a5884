use vstd::prelude::*;
use crate::errors::{Error, io_error};
use crate::parsing::utils::box_stream::{BoxStream, be32, le32};
use crate::parsing::utils::box_type::BoxType;

verus! {

/// `ftyp`
pub const FTYP: u32 = 0x70797466;

/// File type box: the brand the file conforms to and the brands it is compatible with.
pub struct FileTypeBox {
    pub major_brand: BoxType,
    pub minor_version: u32,
    pub compatible_brands: Vec<BoxType>,
}

impl FileTypeBox {
    /// Number of compatible brands in a payload of `size` bytes.
    pub open spec fn brand_count(size: int) -> int {
        (size - 8) / 4
    }

    /// Where parsing a payload of `size` bytes at `p` ends, if it succeeds.
    pub open spec fn spec_end(s: Seq<u8>, p: int, size: int) -> Option<int> {
        let end = p + 8 + 4 * Self::brand_count(size);
        if size >= 8 && end <= s.len() {
            Some(end)
        } else {
            None
        }
    }

    /// The box holds the fields stored at `p`.
    pub open spec fn parsed_from(&self, s: Seq<u8>, p: int, size: int) -> bool {
        &&& self.major_brand == BoxType(le32(s, p))
        &&& self.minor_version == be32(s, p + 4)
        &&& self.compatible_brands@.len() == Self::brand_count(size)
        &&& forall|i: int|
            0 <= i < self.compatible_brands@.len() ==> #[trigger] self.compatible_brands@[i]
                == BoxType(le32(s, p + 8 + 4 * i))
    }

    /// A file type box holds its major brand (four characters) and minor version, then as
    /// many compatible brands, of four characters each, as fit in the rest of its payload;
    /// brand `i` is read from bytes `8 + 4 i` on.
    pub proof fn lemma_brands_fill_payload(b: Self, s: Seq<u8>, p: int, size: int)
        requires
            b.parsed_from(s, p, size),
            size >= 8,
        ensures
            b.major_brand == BoxType(le32(s, p)),
            b.minor_version == be32(s, p + 4),
            8 + 4 * b.compatible_brands@.len() <= size < 8 + 4 * (b.compatible_brands@.len() + 1),
            forall|i: int|
                0 <= i < b.compatible_brands@.len() ==> #[trigger] b.compatible_brands@[i] == BoxType(
                    le32(s, p + 8 + 4 * i),
                ),
    {
    }

    /// Parses the payload of a `ftyp` box of `size` bytes.
    pub fn parse(stream: &mut BoxStream, size: usize) -> (r: Result<Self, Error>)
        requires
            old(stream).wf(),
        ensures
            old(stream).same_bytes(*final(stream)),
            r is Ok <==> Self::spec_end(old(stream).bytes(), old(stream).position(), size as int)
                is Some,
            r matches Ok(b) ==> Some(final(stream).position()) == Self::spec_end(
                old(stream).bytes(),
                old(stream).position(),
                size as int,
            ) && b.parsed_from(old(stream).bytes(), old(stream).position(), size as int),
            r matches Err(e) ==> e.is_io(),
    {
        let ghost s = old(stream).bytes();
        let ghost p = old(stream).position();
        let major_brand = stream.read_box_type()?;
        let minor_version = stream.read_u32()?;
        if size < 8 {
            return Err(io_error("invalid box size"));
        }
        let mut toparse = size - 8;
        let mut compatible_brands: Vec<BoxType> = Vec::new();
        while toparse >= 4
            invariant
                stream.wf(),
                s == old(stream).bytes(),
                p == old(stream).position(),
                stream.bytes() == s,
                size >= 8,
                0 <= p,
                p + 8 <= s.len(),
                toparse + 4 * compatible_brands@.len() == size - 8,
                stream.position() == p + 8 + 4 * compatible_brands@.len(),
                forall|i: int|
                    0 <= i < compatible_brands@.len() ==> #[trigger] compatible_brands@[i]
                        == BoxType(le32(s, p + 8 + 4 * i)),
            decreases toparse,
        {
            let t = stream.read_box_type()?;
            compatible_brands.push(t);
            toparse = toparse - 4;
        }
        assert(compatible_brands@.len() == Self::brand_count(size as int));
        Ok(FileTypeBox { major_brand, minor_version, compatible_brands })
    }
}

} // verus!
