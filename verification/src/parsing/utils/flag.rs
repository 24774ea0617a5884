use vstd::prelude::*;

verus! {

/// True when `flag` and `target_flag` share at least one set bit.
pub fn check_flag(flag: &[u8; 3], target_flag: &[u8; 3]) -> (r: bool)
    ensures
        r == ((flag[0] & target_flag[0]) != 0 || (flag[1] & target_flag[1]) != 0 || (flag[2]
            & target_flag[2]) != 0),
{
    let a = flag[0] & target_flag[0];
    let b = flag[1] & target_flag[1];
    let c = flag[2] & target_flag[2];
    assert((a | b | c) != 0 <==> (a != 0 || b != 0 || c != 0)) by (bit_vector);
    (a | b | c) != 0
}

/// Masking with zero clears every bit.
pub proof fn lemma_and_zero(a: u8)
    ensures
        a & 0u8 == 0u8,
{
    assert(a & 0u8 == 0u8) by (bit_vector);
}

} // verus!
