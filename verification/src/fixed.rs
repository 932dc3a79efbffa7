//! Fixed-point scales shared by the whole crate.
//!
//! Metric lengths, camera intrinsics and pose entries are integers scaled by
//! [`FX`]; normalized device depth is an integer in `0 ..= NDC_ONE`, with
//! `NDC_ONE` meaning "far plane / no geometry hit".

use vstd::prelude::*;

verus! {

/// One metric unit (and the unit entry of rotation matrices), fixed-point.
pub const FX: i64 = 65536;

/// Largest admissible magnitude for a fixed-point coordinate: keeps every
/// product of two coordinates inside `i128` with plenty of headroom.
pub const FX_BOUND: i64 = 0x8000_0000;

/// One (the far plane) in the normalized-device-depth scale.
pub const NDC_ONE: u32 = 1048576;

/// Bounds a product by the product of the factor bounds; the workhorse of the
/// overflow proofs throughout the crate.
pub proof fn lemma_mul_in_range(a: int, b: int, bound_a: int, bound_b: int)
    requires
        -bound_a <= a <= bound_a,
        -bound_b <= b <= bound_b,
        0 <= bound_a,
        0 <= bound_b,
    ensures
        -(bound_a * bound_b) <= a * b <= bound_a * bound_b,
{
    assert(-(bound_a * bound_b) <= a * b <= bound_a * bound_b) by (nonlinear_arith)
        requires
            -bound_a <= a <= bound_a,
            -bound_b <= b <= bound_b,
            0 <= bound_a,
            0 <= bound_b,
    ;
}

/// A square is never negative.
pub proof fn lemma_square_nonneg(a: int)
    ensures
        a * a >= 0,
{
    assert(a * a >= 0) by (nonlinear_arith);
}

/// A product of nonnegative factors is nonnegative.
pub proof fn lemma_mul_nonneg(a: int, b: int)
    requires
        0 <= a,
        0 <= b,
    ensures
        0 <= a * b,
{
    assert(a * b >= 0) by (nonlinear_arith)
        requires
            a >= 0,
            b >= 0,
    ;
}

/// Clamp a value into `lo ..= hi`.
pub fn clamp_i64(x: i64, lo: i64, hi: i64) -> (r: i64)
    requires
        lo <= hi,
    ensures
        lo <= r <= hi,
        r == if x < lo { lo } else if x > hi { hi } else { x },
{
    if x < lo {
        lo
    } else if x > hi {
        hi
    } else {
        x
    }
}

} // verus!
