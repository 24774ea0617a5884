use vstd::prelude::*;
use vstd::utf8::{decode_utf8, valid_utf8};

verus! {

/// Decodes UTF-8 bytes into a string with `std::str::from_utf8`, which accepts exactly
/// the valid UTF-8 sequences and decodes them scalar by scalar; on invalid input it gives
/// the text of std's `Utf8Error`, whose wording is not stated here.
#[verifier::external_body]
pub fn utf8_to_string(bytes: &[u8]) -> (r: Result<String, String>)
    ensures
        r is Ok <==> valid_utf8(bytes@),
        r matches Ok(s) ==> s@ == decode_utf8(bytes@),
{
    match std::str::from_utf8(bytes) {
        Ok(s) => Ok(s.to_owned()),
        Err(err) => Err(err.to_string()),
    }
}

/// Collects characters into a string with std's `FromIterator<char>` for `String`, which
/// keeps them in order.
#[verifier::external_body]
pub fn string_from_chars(chars: &[char]) -> (r: String)
    ensures
        r@ == chars@,
{
    chars.iter().collect()
}

/// The decimal digits of `v`, most significant first, without leading zeros.
pub open spec fn decimal_chars(v: nat) -> Seq<char>
    decreases v,
{
    if v < 10 {
        seq![(v + 48) as char]
    } else {
        decimal_chars(v / 10).push(((v % 10) + 48) as char)
    }
}

/// The decimal digits of `v`.
pub fn decimal_digits(v: usize) -> (r: Vec<char>)
    ensures
        r@ == decimal_chars(v as nat),
    decreases v,
{
    let d = ((v % 10) as u8 + 48u8) as char;
    if v < 10 {
        let mut r: Vec<char> = Vec::new();
        r.push(d);
        assert(r@ =~= decimal_chars(v as nat));
        r
    } else {
        let mut r = decimal_digits(v / 10);
        r.push(d);
        r
    }
}

/// The decimal digits of a byte value.
pub fn decimal_u8(v: u8) -> (r: String)
    ensures
        r@ == decimal_chars(v as nat),
{
    let d0 = ((v % 10) + 48) as char;
    if v < 10 {
        let cs = [d0];
        assert(cs@ =~= decimal_chars(v as nat));
        string_from_chars(&cs)
    } else if v < 100 {
        let d1 = ((v / 10) + 48) as char;
        let cs = [d1, d0];
        assert(cs@ =~= decimal_chars(v as nat)) by {
            reveal_with_fuel(decimal_chars, 2);
        }
        string_from_chars(&cs)
    } else {
        let d1 = ((v / 10 % 10) + 48) as char;
        let d2 = ((v / 100) + 48) as char;
        let cs = [d2, d1, d0];
        assert(cs@ =~= decimal_chars(v as nat)) by {
            reveal_with_fuel(decimal_chars, 3);
        }
        string_from_chars(&cs)
    }
}

} // verus!
