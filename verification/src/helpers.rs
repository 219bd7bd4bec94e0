//! Address arithmetic shared by every subsystem.

use vstd::prelude::*;

verus! {

/// Whether `addr` is a canonical x86_64 virtual address: bits 63..48 are all
/// copies of bit 47.
pub open spec fn spec_is_canonical(addr: u64) -> bool {
    addr < 0x8000_0000_0000 || addr >= 0xffff_8000_0000_0000
}

/// Tells whether `addr` is canonical, by comparing the upper sixteen bits with
/// the sign bit (bit 47).
pub fn is_canonical(addr: u64) -> (r: bool)
    ensures
        r == spec_is_canonical(addr),
{
    let sign: u64 = (addr >> 47) & 1;
    assert(((addr >> 47) & 1 == 0 && addr >> 48 == 0) <==> addr < 0x8000_0000_0000)
        by (bit_vector);
    assert(((addr >> 47) & 1 != 0 && addr >> 48 == 0xffff) <==> addr >= 0xffff_8000_0000_0000)
        by (bit_vector);
    if sign == 0 {
        addr >> 48 == 0
    } else {
        addr >> 48 == 0xffff
    }
}


/// Whether `n` is a power of two.
pub open spec fn is_power_of_two(n: u64) -> bool {
    n != 0 && n & ((n - 1) as u64) == 0
}

/// `x` rounded up to the next multiple of `align`, for `align` a power of
/// two: the sum `x + align - 1` with the bits below `align` cleared.
pub open spec fn spec_align_up(x: u64, align: u64) -> u64 {
    ((x + align - 1) as u64) & !((align - 1) as u64)
}

/// Rounds `x` up to a multiple of `align`. For a power of two the result has
/// no bit set below `align`, is not below `x` and is less than `align` above
/// it: the least multiple of `align` that is not below `x`.
pub fn align_up(x: u64, align: u64) -> (r: u64)
    requires
        align > 0,
        x + align - 1 <= u64::MAX,
    ensures
        r == spec_align_up(x, align),
        is_power_of_two(align) ==> r & ((align - 1) as u64) == 0 && x <= r < x + align,
{
    let mask: u64 = align - 1;
    let sum: u64 = x + mask;
    assert((sum & !mask) & mask == 0) by (bit_vector);
    assert(align & mask == 0 ==> x <= (sum & !mask) && (sum & !mask) - x < align) by (bit_vector)
        requires
            align != 0,
            mask == align - 1,
            sum == x + mask,
    ;
    sum & !mask
}

} // verus!
