//! Calls into `num_integer`, each under the contract that its source shows.
use crate::math::{gcd_int, lcm_int};
use vstd::prelude::*;

verus! {

/// Relies on `num_integer::lcm` for `i32`: 0 for two zeros, else
/// `(a * (b / gcd(a, b))).abs()`, where `gcd` is the non-negative greatest
/// common divisor. It panics (debug) when that divisor or the result is
/// `2^31`, or the product overflows; the `requires` leaves those inputs out.
#[verifier::external_body]
pub(crate) fn num_lcm_i32(a: i32, b: i32) -> (r: i32)
    requires
        gcd_int(a as int, b as int) <= i32::MAX,
        lcm_int(a as int, b as int) <= i32::MAX,
    ensures
        r as int == lcm_int(a as int, b as int),
{
    num_integer::lcm(a, b)
}

/// Relies on `num_integer::lcm` for `i64`, as for `i32` with `2^63`.
#[verifier::external_body]
pub(crate) fn num_lcm_i64(a: i64, b: i64) -> (r: i64)
    requires
        gcd_int(a as int, b as int) <= i64::MAX,
        lcm_int(a as int, b as int) <= i64::MAX,
    ensures
        r as int == lcm_int(a as int, b as int),
{
    num_integer::lcm(a, b)
}

/// Relies on `num_integer::lcm` for `u32`: 0 for two zeros, else
/// `a * (b / gcd(a, b))`, which overflows (a panic in debug builds) exactly
/// when the least common multiple exceeds `u32::MAX`.
#[verifier::external_body]
pub(crate) fn num_lcm_u32(a: u32, b: u32) -> (r: u32)
    requires
        lcm_int(a as int, b as int) <= u32::MAX,
    ensures
        r as int == lcm_int(a as int, b as int),
{
    num_integer::lcm(a, b)
}

/// Relies on `num_integer::lcm` for `u64`, as for `u32`.
#[verifier::external_body]
pub(crate) fn num_lcm_u64(a: u64, b: u64) -> (r: u64)
    requires
        lcm_int(a as int, b as int) <= u64::MAX,
    ensures
        r as int == lcm_int(a as int, b as int),
{
    num_integer::lcm(a, b)
}

/// Relies on `num_integer::gcd` for `u32` (Stein's algorithm): the greatest
/// common divisor, with `gcd(a, 0) == a` and `gcd(0, b) == b`; it never panics.
#[verifier::external_body]
pub(crate) fn num_gcd_u32(a: u32, b: u32) -> (r: u32)
    ensures
        r as int == gcd_int(a as int, b as int),
{
    num_integer::gcd(a, b)
}

/// Relies on `num_integer::gcd` for `u64`, as for `u32`.
#[verifier::external_body]
pub(crate) fn num_gcd_u64(a: u64, b: u64) -> (r: u64)
    ensures
        r as int == gcd_int(a as int, b as int),
{
    num_integer::gcd(a, b)
}

} // verus!
