//! Bit-level helpers shared by the decoders and the executer.
use vstd::prelude::*;
use vstd::arithmetic::power2::pow2;

verus! {

/// The `width` bits of `x` that start at bit `lo`, read as an unsigned number.
pub open spec fn field(x: u32, lo: nat, width: nat) -> int {
    (x as int / pow2(lo) as int) % pow2(width) as int
}

/// Whether bit `i` of `x` is set.
pub open spec fn bit(x: u32, i: nat) -> bool {
    field(x, i, 1) == 1
}

/// Sign extension of `num` from bit `width - 1`: when that bit is set, every
/// bit from `width` upwards is set too; otherwise `num` is left as it is.
pub open spec fn sign_extended(num: u32, width: u32) -> u32 {
    if (num >> ((width - 1) as u32)) & 1 == 1 {
        num | (!0u32 << width)
    } else {
        num
    }
}

/// Sign extension of `num` from bit `bitnum - 1`.
pub fn sign_extend(num: u32, bitnum: u32) -> (r: u32)
    requires
        1 <= bitnum <= 31,
    ensures
        r == sign_extended(num, bitnum),
{
    let shift = bitnum - 1;
    let msb = (num >> shift) & 1;
    assert(msb == 0 || msb == 1) by (bit_vector)
        requires msb == (num >> shift) & 1;
    if msb == 0 {
        num
    } else {
        num | (!0u32 << bitnum)
    }
}

} // verus!
