use vstd::prelude::*;
use super::box_stream::le32;

verus! {

/// A four-character box type, stored as read from the file: the first character in the
/// least significant byte.
#[derive(Clone, Copy, Debug, PartialEq, Eq, Structural)]
pub struct BoxType(pub u32);

/// The code of four characters that each fit in a byte, the first in the least
/// significant byte.
pub open spec fn spec_box_type_u32(v: [char; 4]) -> u32 {
    (v[0] as u32 as int + v[1] as u32 as int * 0x100 + v[2] as u32 as int * 0x10000 + v[3] as u32 as int
        * 0x1000000) as u32
}

/// Packs four characters into a box-type code, the first in the least significant byte.
/// Bits of a character above its lowest byte spill into the following characters' bytes
/// (or out of the word), as the shifts and `|` of the formula give them.
pub fn box_type_u32(v: [char; 4]) -> (r: u32)
    ensures
        r == (v[0] as u32) | ((v[1] as u32) << 8u32) | ((v[2] as u32) << 16u32) | ((v[3] as u32)
            << 24u32),
        (v[0] as u32) < 256 && (v[1] as u32) < 256 && (v[2] as u32) < 256 && (v[3] as u32) < 256
            ==> r == spec_box_type_u32(v),
{
    let c0 = v[0] as u32;
    let c1 = v[1] as u32;
    let c2 = v[2] as u32;
    let c3 = v[3] as u32;
    let r = c0 | (c1 << 8u32) | (c2 << 16u32) | (c3 << 24u32);
    assert(c0 < 256 && c1 < 256 && c2 < 256 && c3 < 256 ==> c0 | (c1 << 8u32) | (c2 << 16u32) | (c3
        << 24u32) == c0 + c1 * 0x100 + c2 * 0x10000 + c3 * 0x1000000) by (bit_vector);
    r
}

/// Byte `i` (0 = least significant) of a 32-bit value.
pub open spec fn byte_of(v: u32, i: int) -> u8 {
    ((v as int / pow_256_of(i)) % 256) as u8
}

/// `256^i` for the four byte positions of a `u32`.
pub open spec fn pow_256_of(i: int) -> int {
    if i == 0 {
        1
    } else if i == 1 {
        0x100
    } else if i == 2 {
        0x10000
    } else {
        0x1000000
    }
}

/// Four characters of one byte each, stored in this order at `p`, read back as a box
/// type: the code that reading them gives is the one that packing them gives, and the type
/// of that code shows the same four characters in the same order.
pub proof fn lemma_box_type_round_trip(v: [char; 4], s: Seq<u8>, p: int)
    requires
        (v[0] as u32) < 256,
        (v[1] as u32) < 256,
        (v[2] as u32) < 256,
        (v[3] as u32) < 256,
        0 <= p,
        p + 4 <= s.len(),
        s[p] as u32 == v[0] as u32,
        s[p + 1] as u32 == v[1] as u32,
        s[p + 2] as u32 == v[2] as u32,
        s[p + 3] as u32 == v[3] as u32,
    ensures
        le32(s, p) == spec_box_type_u32(v),
        BoxType(le32(s, p)).spec_chars() == v@,
{
    let c0 = v[0] as u32 as int;
    let c1 = v[1] as u32 as int;
    let c2 = v[2] as u32 as int;
    let c3 = v[3] as u32 as int;
    let code = c0 + c1 * 0x100 + c2 * 0x10000 + c3 * 0x1000000;
    assert(0 <= code < 0x1_0000_0000);
    assert(code / 0x100 == c1 + c2 * 0x100 + c3 * 0x10000 && code % 0x100 == c0) by (nonlinear_arith)
        requires
            code == c0 + c1 * 0x100 + c2 * 0x10000 + c3 * 0x1000000,
            0 <= c0 < 256,
            0 <= c1 < 256,
            0 <= c2 < 256,
            0 <= c3 < 256,
    ;
    assert(code / 0x10000 == c2 + c3 * 0x100 && code / 0x100 % 0x100 == c1) by (nonlinear_arith)
        requires
            code == c0 + c1 * 0x100 + c2 * 0x10000 + c3 * 0x1000000,
            0 <= c0 < 256,
            0 <= c1 < 256,
            0 <= c2 < 256,
            0 <= c3 < 256,
    ;
    assert(code / 0x1000000 == c3 && code / 0x10000 % 0x100 == c2) by (nonlinear_arith)
        requires
            code == c0 + c1 * 0x100 + c2 * 0x10000 + c3 * 0x1000000,
            0 <= c0 < 256,
            0 <= c1 < 256,
            0 <= c2 < 256,
            0 <= c3 < 256,
    ;
    let t = BoxType(le32(s, p));
    assert(t.0 as int == code);
    assert(byte_of(t.0, 0) as u32 == v[0] as u32);
    assert(byte_of(t.0, 1) as u32 == v[1] as u32);
    assert(byte_of(t.0, 2) as u32 == v[2] as u32);
    assert(byte_of(t.0, 3) as u32 == v[3] as u32);
    assert forall|i: int| 0 <= i < 4 implies t.spec_chars()[i] == v@[i] by {
        let b = byte_of(t.0, i);
        assert(b as u32 == v[i] as u32);
        vstd::utf8::char_u32_cast(v[i], v[i] as u32);
        assert((b as u32) as char == v[i]);
        assert(b as char == (b as u32) as char);
    }
    assert(t.spec_chars() =~= v@);
}

impl BoxType {
    /// The four characters of the type, each byte taken as a character code.
    pub open spec fn spec_chars(self) -> Seq<char> {
        seq![
            byte_of(self.0, 0) as char,
            byte_of(self.0, 1) as char,
            byte_of(self.0, 2) as char,
            byte_of(self.0, 3) as char,
        ]
    }

    /// The four characters of the type, each byte taken as a character code.
    pub fn chars(&self) -> (r: [char; 4])
        ensures
            r@ == self.spec_chars(),
    {
        let v = self.0;
        let b0 = (v % 0x100) as u8;
        let b1 = (v / 0x100 % 0x100) as u8;
        let b2 = (v / 0x10000 % 0x100) as u8;
        let b3 = (v / 0x1000000 % 0x100) as u8;
        let r = [b0 as char, b1 as char, b2 as char, b3 as char];
        assert(r@ =~= self.spec_chars());
        r
    }
}

} // verus!
