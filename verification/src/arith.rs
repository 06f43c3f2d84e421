use vstd::prelude::*;

verus! {

/// Integer division rounding toward zero, as Rust's `/` does on signed
/// integers.
pub open spec fn div_trunc(a: int, b: int) -> int
    recommends
        b > 0,
{
    if a >= 0 {
        a / b
    } else {
        -((-a) / b)
    }
}

/// Clamps a mathematical integer into the range of `i128`, as the
/// saturating operations on `i128` do.
pub open spec fn clamp_i128(v: int) -> i128 {
    if v > i128::MAX {
        i128::MAX
    } else if v < i128::MIN {
        i128::MIN
    } else {
        v as i128
    }
}

pub fn saturating_add_i128(a: i128, b: i128) -> (r: i128)
    ensures
        r == clamp_i128(a + b),
{
    match a.checked_add(b) {
        Some(s) => s,
        None => if b > 0 {
            i128::MAX
        } else {
            i128::MIN
        },
    }
}

pub fn saturating_mul_i128(a: i128, b: i128) -> (r: i128)
    ensures
        r == clamp_i128(a * b),
{
    match a.checked_mul(b) {
        Some(p) => p,
        None => {
            if (a > 0) == (b > 0) {
                assert(a * b > i128::MAX) by (nonlinear_arith)
                    requires
                        a * b > i128::MAX || a * b < i128::MIN,
                        (a > 0) == (b > 0),
                ;
                i128::MAX
            } else {
                assert(a * b < i128::MIN) by (nonlinear_arith)
                    requires
                        a * b > i128::MAX || a * b < i128::MIN,
                        (a > 0) != (b > 0),
                ;
                i128::MIN
            }
        },
    }
}

} // verus!
