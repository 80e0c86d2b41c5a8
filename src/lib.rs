//! Least common multiple of two fixed-width integers, in four widths.
//!
//! `lcm_s32`, `lcm_u32`, `lcm_s64` and `lcm_u64` return the least common
//! multiple in the type of their arguments, never negative, and are defined
//! only where it fits there: they do not widen, wrap or saturate. The
//! `checked_lcm_*` functions take any arguments and return `None` exactly where
//! the result does not fit.
pub mod math;
mod outside;

use crate::math::{lcm_int, magnitude};
use vstd::prelude::*;

verus! {

/// Least common multiple of two `i32`, never negative; 0 when either is 0.
pub fn lcm_s32(a: i32, b: i32) -> (r: i32)
    requires
        lcm_int(a as int, b as int) <= i32::MAX,
    ensures
        r as int == lcm_int(a as int, b as int),
{
    proof {
        math::lemma_lcm_zero(a as int);
        math::lemma_lcm_zero(b as int);
    }
    if a == 0 || b == 0 {
        return 0;
    }
    proof {
        math::lemma_gcd_bounded(magnitude(a as int), magnitude(b as int));
    }
    let r = outside::num_lcm_i32(a, b);
    r
}

/// Least common multiple of two `u32`; 0 when either is 0.
pub fn lcm_u32(a: u32, b: u32) -> (r: u32)
    requires
        lcm_int(a as int, b as int) <= u32::MAX,
    ensures
        r as int == lcm_int(a as int, b as int),
{
    let r = outside::num_lcm_u32(a, b);
    r
}

/// Least common multiple of two `i64`, never negative; 0 when either is 0.
pub fn lcm_s64(a: i64, b: i64) -> (r: i64)
    requires
        lcm_int(a as int, b as int) <= i64::MAX,
    ensures
        r as int == lcm_int(a as int, b as int),
{
    proof {
        math::lemma_lcm_zero(a as int);
        math::lemma_lcm_zero(b as int);
    }
    if a == 0 || b == 0 {
        return 0;
    }
    proof {
        math::lemma_gcd_bounded(magnitude(a as int), magnitude(b as int));
    }
    let r = outside::num_lcm_i64(a, b);
    r
}

/// Least common multiple of two `u64`; 0 when either is 0.
pub fn lcm_u64(a: u64, b: u64) -> (r: u64)
    requires
        lcm_int(a as int, b as int) <= u64::MAX,
    ensures
        r as int == lcm_int(a as int, b as int),
{
    let r = outside::num_lcm_u64(a, b);
    r
}

/// Least common multiple of two `u32`, or `None` exactly when it exceeds
/// `u32::MAX`.
pub fn checked_lcm_u32(a: u32, b: u32) -> (r: Option<u32>)
    ensures
        r == (if lcm_int(a as int, b as int) <= u32::MAX {
            Some(lcm_int(a as int, b as int) as u32)
        } else {
            None
        }),
{
    let g = outside::num_gcd_u32(a, b);
    proof {
        math::lemma_gcd_zero(a as nat, b as nat);
    }
    if g == 0 {
        return Some(0);
    }
    proof {
        math::lemma_lcm_quotient(a as nat, b as nat);
    }
    (a / g).checked_mul(b)
}

/// Least common multiple of two `u64`, or `None` exactly when it exceeds
/// `u64::MAX`.
pub fn checked_lcm_u64(a: u64, b: u64) -> (r: Option<u64>)
    ensures
        r == (if lcm_int(a as int, b as int) <= u64::MAX {
            Some(lcm_int(a as int, b as int) as u64)
        } else {
            None
        }),
{
    let g = outside::num_gcd_u64(a, b);
    proof {
        math::lemma_gcd_zero(a as nat, b as nat);
    }
    if g == 0 {
        return Some(0);
    }
    proof {
        math::lemma_lcm_quotient(a as nat, b as nat);
    }
    (a / g).checked_mul(b)
}

/// Least common multiple of two `i32`, never negative, or `None` exactly when
/// it exceeds `i32::MAX`.
pub fn checked_lcm_s32(a: i32, b: i32) -> (r: Option<i32>)
    ensures
        r == (if lcm_int(a as int, b as int) <= i32::MAX {
            Some(lcm_int(a as int, b as int) as i32)
        } else {
            None
        }),
{
    match checked_lcm_u32(magnitude_i32(a), magnitude_i32(b)) {
        Some(m) => {
            if m <= i32::MAX as u32 {
                Some(m as i32)
            } else {
                None
            }
        },
        None => None,
    }
}

/// Least common multiple of two `i64`, never negative, or `None` exactly when
/// it exceeds `i64::MAX`.
pub fn checked_lcm_s64(a: i64, b: i64) -> (r: Option<i64>)
    ensures
        r == (if lcm_int(a as int, b as int) <= i64::MAX {
            Some(lcm_int(a as int, b as int) as i64)
        } else {
            None
        }),
{
    match checked_lcm_u64(magnitude_i64(a), magnitude_i64(b)) {
        Some(m) => {
            if m <= i64::MAX as u64 {
                Some(m as i64)
            } else {
                None
            }
        },
        None => None,
    }
}

/// Absolute value of an `i32`, as a `u32` so that `i32::MIN` has one.
fn magnitude_i32(x: i32) -> (r: u32)
    ensures
        r as int == magnitude(x as int),
{
    if x >= 0 {
        x as u32
    } else if x == i32::MIN {
        2147483648u32
    } else {
        (-x) as u32
    }
}

/// Absolute value of an `i64`, as a `u64` so that `i64::MIN` has one.
fn magnitude_i64(x: i64) -> (r: u64)
    ensures
        r as int == magnitude(x as int),
{
    if x >= 0 {
        x as u64
    } else if x == i64::MIN {
        9223372036854775808u64
    } else {
        (-x) as u64
    }
}

} // verus!
