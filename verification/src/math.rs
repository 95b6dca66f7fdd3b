//! Overflow-checked fixed-point primitives: multiply-divide over widened
//! precision, checked addition and subtraction that fail instead of
//! wrapping, and deterministic floor roots on `u128`.

use crate::error::AppError;
use vstd::prelude::*;

verus! {

/// `floor(a * b / c)`, computed over 128-bit intermediates.
///
/// Fails with `Overflow` when `c == 0` or when the quotient does not
/// fit in 64 bits; never wraps.
pub fn mul_div_floor(a: u64, b: u64, c: u64) -> (r: Result<u64, AppError>)
    ensures
        c != 0 && a * b / (c as int) <= u64::MAX ==> r == Ok::<u64, AppError>((a * b / (c as int)) as u64),
        c == 0 || a * b / (c as int) > u64::MAX ==> r == Err::<u64, AppError>(AppError::Overflow),
{
    if c == 0 {
        return Err(AppError::Overflow);
    }
    proof {
        assert((a as u128) * (b as u128) <= u128::MAX) by (nonlinear_arith)
            requires
                a <= u64::MAX && b <= u64::MAX,
        ;
    }
    let wide: u128 = (a as u128) * (b as u128);
    let q: u128 = wide / (c as u128);
    proof {
        assert(wide / (c as u128) == a * b / (c as int)) by (nonlinear_arith)
            requires
                wide == a * b,
                c > 0,
        ;
    }
    if q > u64::MAX as u128 {
        return Err(AppError::Overflow);
    }
    Ok(q as u64)
}

/// `a + b`, failing with `Overflow` instead of wrapping.
pub fn add_checked(a: u64, b: u64) -> (r: Result<u64, AppError>)
    ensures
        a + b <= u64::MAX ==> r == Ok::<u64, AppError>((a + b) as u64),
        a + b > u64::MAX ==> r == Err::<u64, AppError>(AppError::Overflow),
{
    match a.checked_add(b) {
        Some(v) => Ok(v),
        None => Err(AppError::Overflow),
    }
}

/// `a - b`, failing with `Underflow` instead of wrapping.
pub fn sub_checked(a: u64, b: u64) -> (r: Result<u64, AppError>)
    ensures
        b <= a ==> r == Ok::<u64, AppError>((a - b) as u64),
        b > a ==> r == Err::<u64, AppError>(AppError::Underflow),
{
    match a.checked_sub(b) {
        Some(v) => Ok(v),
        None => Err(AppError::Underflow),
    }
}

/// Deterministic floor roots. The associated spec functions say what a
/// root is, so that every implementer promises the same floor-rounding
/// behaviour on every platform.
pub trait Roots: Sized {
    /// `r` is the floor square root of `self`.
    spec fn is_floor_sqrt(self, r: Self) -> bool;

    /// `r` is the floor cube root of `self`.
    spec fn is_floor_cbrt(self, r: Self) -> bool;

    /// The largest `r` with `r * r <= self`.
    fn sqrt(self) -> (r: Self)
        ensures
            self.is_floor_sqrt(r),
    ;

    /// The largest `r` with `r * r * r <= self`.
    fn cbrt(self) -> (r: Self)
        ensures
            self.is_floor_cbrt(r),
    ;
}

impl Roots for u128 {
    open spec fn is_floor_sqrt(self, r: u128) -> bool {
        r * r <= self < (r + 1) * (r + 1)
    }

    open spec fn is_floor_cbrt(self, r: u128) -> bool {
        r * r * r <= self < (r + 1) * (r + 1) * (r + 1)
    }

    fn sqrt(self) -> (r: u128) {
        let mut lo: u128 = 0;
        let mut hi: u128 = 0xFFFF_FFFF_FFFF_FFFF;
        proof {
            assert((hi + 1) * (hi + 1) > u128::MAX) by (nonlinear_arith)
                requires
                    hi == 0xFFFF_FFFF_FFFF_FFFFu128,
            ;
        }
        while lo < hi
            invariant
                lo <= hi <= 0xFFFF_FFFF_FFFF_FFFF,
                lo * lo <= self,
                (hi + 1) * (hi + 1) > self,
            decreases hi - lo,
        {
            let mid: u128 = lo + (hi - lo + 1) / 2;
            proof {
                assert(mid * mid <= u128::MAX) by (nonlinear_arith)
                    requires
                        mid <= 0xFFFF_FFFF_FFFF_FFFFu128,
                ;
            }
            if mid * mid <= self {
                lo = mid;
            } else {
                hi = mid - 1;
            }
        }
        lo
    }

    fn cbrt(self) -> (r: u128) {
        let mut lo: u128 = 0;
        let mut hi: u128 = 0x7FF_FFFF_FFFF;
        proof {
            assert((hi + 1) * (hi + 1) * (hi + 1) > u128::MAX) by (nonlinear_arith)
                requires
                    hi == 0x7FF_FFFF_FFFFu128,
            ;
        }
        while lo < hi
            invariant
                lo <= hi <= 0x7FF_FFFF_FFFF,
                lo * lo * lo <= self,
                (hi + 1) * (hi + 1) * (hi + 1) > self,
            decreases hi - lo,
        {
            let mid: u128 = lo + (hi - lo + 1) / 2;
            proof {
                assert(mid * mid <= u128::MAX) by (nonlinear_arith)
                    requires
                        mid <= 0x7FF_FFFF_FFFFu128,
                ;
            }
            let mid_sq: u128 = mid * mid;
            let cube = mid_sq.checked_mul(mid);
            match cube {
                Some(c) => {
                    if c <= self {
                        lo = mid;
                    } else {
                        hi = mid - 1;
                    }
                }
                None => {
                    hi = mid - 1;
                }
            }
        }
        lo
    }
}

} // verus!
