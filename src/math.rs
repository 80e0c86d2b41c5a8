//! The mathematical model: greatest common divisor and least common
//! multiple on natural numbers, and the laws the exported functions obey.
use vstd::arithmetic::div_mod::*;
use vstd::prelude::*;

verus! {

/// Greatest common divisor by Euclid's algorithm; `gcd(0, 0) == 0`.
pub open spec fn gcd(a: nat, b: nat) -> nat
    decreases b,
{
    if b == 0 {
        a
    } else {
        gcd(b, a % b)
    }
}

/// Least common multiple; 0 as soon as either argument is 0.
pub open spec fn lcm(a: nat, b: nat) -> nat {
    if gcd(a, b) == 0 {
        0
    } else {
        (a * b / gcd(a, b)) as nat
    }
}

/// Absolute value of an integer.
pub open spec fn magnitude(x: int) -> nat {
    if x < 0 {
        (-x) as nat
    } else {
        x as nat
    }
}

/// Greatest common divisor of the magnitudes of two integers.
pub open spec fn gcd_int(a: int, b: int) -> nat {
    gcd(magnitude(a), magnitude(b))
}

/// Least common multiple of the magnitudes of two integers: never negative.
pub open spec fn lcm_int(a: int, b: int) -> nat {
    lcm(magnitude(a), magnitude(b))
}

/// `d` divides `n`.
pub open spec fn divides(d: int, n: int) -> bool {
    exists|k: int| n == #[trigger] (k * d)
}

/// The divisor is zero only for two zeros.
pub proof fn lemma_gcd_zero(a: nat, b: nat)
    ensures
        (gcd(a, b) == 0) == (a == 0 && b == 0),
    decreases b,
{
    if b != 0 {
        lemma_gcd_zero(b, a % b);
    }
}

/// The cofactors of the greatest common divisor in each argument.
proof fn lemma_gcd_cofactors(a: nat, b: nat) -> (k: (int, int))
    ensures
        a == k.0 * gcd(a, b),
        b == k.1 * gcd(a, b),
    decreases b,
{
    if b == 0 {
        (1, 0)
    } else {
        let (x, y) = lemma_gcd_cofactors(b, a % b);
        let g = gcd(a, b);
        let q = a as int / b as int;
        let r = a as int % b as int;
        lemma_fundamental_div_mod(a as int, b as int);
        assert(a == (x * q + y) * g) by (nonlinear_arith)
            requires
                a == b * q + r,
                b == x * g,
                r == y * g,
        ;
        (x * q + y, x)
    }
}

/// The greatest common divisor does not depend on the order of its arguments.
pub proof fn lemma_gcd_commutes(a: nat, b: nat)
    ensures
        gcd(a, b) == gcd(b, a),
{
    if a < b {
        lemma_small_mod(a, b);
    } else if b < a {
        lemma_small_mod(b, a);
    }
}

/// With a non-zero divisor `g`, the least common multiple is `(a / g) * b`,
/// which is also `a * (b / g)`, and `g` divides both arguments.
pub proof fn lemma_lcm_quotient(a: nat, b: nat)
    requires
        gcd(a, b) > 0,
    ensures
        a % gcd(a, b) == 0,
        b % gcd(a, b) == 0,
        lcm(a, b) == (a / gcd(a, b)) * b,
        lcm(a, b) == a * (b / gcd(a, b)),
{
    let g = gcd(a, b) as int;
    let (x, y) = lemma_gcd_cofactors(a, b);
    assert(a == g * x && b == g * y && a * b == g * (x * b) && x * b == a * y) by (nonlinear_arith)
        requires
            a == x * g,
            b == y * g,
    ;
    lemma_div_multiples_vanish(x, g);
    lemma_div_multiples_vanish(y, g);
    lemma_div_multiples_vanish(x * b, g);
    lemma_mod_multiples_basic(x, g);
    lemma_mod_multiples_basic(y, g);
    assert(x * g == g * x && y * g == g * y) by (nonlinear_arith);
}

/// For non-negative arguments, the least common multiple times the greatest
/// common divisor is the product of the two.
pub proof fn lemma_lcm_times_gcd(a: int, b: int)
    requires
        a >= 0,
        b >= 0,
    ensures
        lcm_int(a, b) * gcd_int(a, b) == a * b,
{
    let (m, n) = (a as nat, b as nat);
    lemma_gcd_zero(m, n);
    if gcd(m, n) > 0 {
        lemma_lcm_quotient(m, n);
        let g = gcd(m, n) as int;
        let q = m as int / g;
        lemma_fundamental_div_mod(m as int, g);
        assert((q * b) * g == a * b) by (nonlinear_arith)
            requires
                a == g * q + 0,
        ;
    }
}

/// The least common multiple with zero is zero, on either side.
pub proof fn lemma_lcm_zero(a: int)
    ensures
        lcm_int(a, 0) == 0,
        lcm_int(0, a) == 0,
{
    let m = magnitude(a);
    lemma_gcd_commutes(m, 0);
    if m > 0 {
        lemma_lcm_quotient(m, 0);
        lemma_lcm_quotient(0, m);
        lemma_small_mod(0, m);
    }
}

/// The least common multiple does not depend on the order of its arguments.
pub proof fn lemma_lcm_commutes(a: int, b: int)
    ensures
        lcm_int(a, b) == lcm_int(b, a),
{
    lemma_gcd_commutes(magnitude(a), magnitude(b));
    assert(magnitude(a) * magnitude(b) == magnitude(b) * magnitude(a)) by (nonlinear_arith);
}

/// The least common multiple of a number with itself is its magnitude.
pub proof fn lemma_lcm_self(a: int)
    ensures
        lcm_int(a, a) == magnitude(a),
{
    let m = magnitude(a);
    if m > 0 {
        lemma_mod_self_0(m as int);
        assert(gcd(m, 0) == m);
        assert(gcd(m, m) == m);
        lemma_lcm_quotient(m, m);
        lemma_div_multiples_vanish(1, m as int);
        assert(m as int * 1 == m);
        assert(m as int / m as int == 1);
    }
}

/// For two non-zero arguments the greatest common divisor is at most each of
/// them and at most their least common multiple.
pub proof fn lemma_gcd_bounded(a: nat, b: nat)
    requires
        a > 0,
        b > 0,
    ensures
        0 < gcd(a, b) <= a,
        gcd(a, b) <= b,
        gcd(a, b) <= lcm(a, b),
{
    lemma_gcd_zero(a, b);
    let g = gcd(a, b) as int;
    let (x, y) = lemma_gcd_cofactors(a, b);
    lemma_lcm_quotient(a, b);
    lemma_div_multiples_vanish(x, g);
    assert(x * g == g * x) by (nonlinear_arith);
    assert(g <= a && g <= b && g <= x * b) by (nonlinear_arith)
        requires
            a == x * g,
            b == y * g,
            a > 0,
            b > 0,
            g > 0,
    ;
}

/// Widening keeps the result: wherever `lcm_s32` is defined, `lcm_s64` is
/// defined on the same values and returns the same least common multiple.
pub proof fn lemma_lcm_s64_agrees_with_s32(a: i32, b: i32)
    requires
        lcm_int(a as int, b as int) <= i32::MAX,
    ensures
        lcm_int((a as i64) as int, (b as i64) as int) <= i64::MAX,
        lcm_int((a as i64) as int, (b as i64) as int) == lcm_int(a as int, b as int),
{
}

/// Widening keeps the result: wherever `lcm_u32` is defined, `lcm_u64` is
/// defined on the same values and returns the same least common multiple.
pub proof fn lemma_lcm_u64_agrees_with_u32(a: u32, b: u32)
    requires
        lcm_int(a as int, b as int) <= u32::MAX,
    ensures
        lcm_int((a as u64) as int, (b as u64) as int) <= u64::MAX,
        lcm_int((a as u64) as int, (b as u64) as int) == lcm_int(a as int, b as int),
{
}

/// Bezout coefficients: the greatest common divisor is an integer
/// combination of the two arguments.
proof fn lemma_bezout(a: nat, b: nat) -> (st: (int, int))
    ensures
        gcd(a, b) == st.0 * a + st.1 * b,
    decreases b,
{
    if b == 0 {
        (1, 0)
    } else {
        let (s, t) = lemma_bezout(b, a % b);
        let q = a as int / b as int;
        let r = a as int % b as int;
        lemma_fundamental_div_mod(a as int, b as int);
        assert(s * b + t * r == t * a + (s - t * q) * b) by (nonlinear_arith)
            requires
                a == b * q + r,
        ;
        (t, s - t * q)
    }
}

/// Divisibility by `d` is divisibility by its magnitude.
proof fn lemma_divides_magnitude(d: int, n: int)
    ensures
        divides(d, n) == divides(magnitude(d) as int, n),
{
    let e = magnitude(d) as int;
    if divides(d, n) {
        let k = choose|k: int| n == #[trigger] (k * d);
        assert(n == (-k) * e || n == k * e) by (nonlinear_arith)
            requires
                n == k * d,
                e == d || e == -d,
        ;
        if n == (-k) * e {
            assert(divides(e, n));
        } else {
            assert(divides(e, n));
        }
    }
    if divides(e, n) {
        let k = choose|k: int| n == #[trigger] (k * e);
        assert(n == (-k) * d || n == k * d) by (nonlinear_arith)
            requires
                n == k * e,
                e == d || e == -d,
        ;
        if n == (-k) * d {
            assert(divides(d, n));
        } else {
            assert(divides(d, n));
        }
    }
}

/// The least common multiple is a multiple of each argument.
pub proof fn lemma_lcm_common_multiple(a: int, b: int)
    ensures
        divides(a, lcm_int(a, b) as int),
        divides(b, lcm_int(a, b) as int),
{
    let (p, q) = (magnitude(a), magnitude(b));
    let l = lcm_int(a, b) as int;
    lemma_gcd_zero(p, q);
    if gcd(p, q) == 0 {
        assert(l == 0 * p && l == 0 * q);
    } else {
        lemma_lcm_quotient(p, q);
        let g = gcd(p, q) as int;
        assert(l == (q as int / g) * p && l == (p as int / g) * q) by (nonlinear_arith)
            requires
                l == (p as int / g) * q,
                l == p * (q as int / g),
        ;
    }
    assert(divides(p as int, l));
    assert(divides(q as int, l));
    lemma_divides_magnitude(a, l);
    lemma_divides_magnitude(b, l);
}

/// The least common multiple divides every common multiple of the arguments,
/// and so is the least positive one when the arguments are non-zero.
pub proof fn lemma_lcm_least(a: int, b: int, m: int)
    requires
        divides(a, m),
        divides(b, m),
    ensures
        divides(lcm_int(a, b) as int, m),
        m > 0 ==> lcm_int(a, b) <= m,
{
    let (p, q) = (magnitude(a), magnitude(b));
    let l = lcm_int(a, b) as int;
    lemma_divides_magnitude(a, m);
    lemma_divides_magnitude(b, m);
    let x = choose|x: int| m == #[trigger] (x * p);
    let y = choose|y: int| m == #[trigger] (y * q);
    lemma_gcd_zero(p, q);
    if gcd(p, q) == 0 {
        assert(m == 0 && l == 0 && m == 0 * l);
    } else {
        let g = gcd(p, q) as int;
        let (s, t) = lemma_bezout(p, q);
        lemma_lcm_times_gcd(p as int, q as int);
        let k = s * y + t * x;
        let pq = p * q;
        assert(m * g == s * (p * m) + t * (q * m)) by (nonlinear_arith)
            requires
                g == s * p + t * q,
        ;
        assert(p * m == pq * y) by (nonlinear_arith)
            requires
                m == y * q,
                pq == p * q,
        ;
        assert(q * m == pq * x) by (nonlinear_arith)
            requires
                m == x * p,
                pq == p * q,
        ;
        assert(s * (pq * y) + t * (pq * x) == pq * k) by (nonlinear_arith)
            requires
                k == s * y + t * x,
        ;
        assert(m * g == (k * l) * g) by (nonlinear_arith)
            requires
                m * g == pq * k,
                l * g == pq,
        ;
        assert(m == k * l) by (nonlinear_arith)
            requires
                m * g == (k * l) * g,
                g > 0,
        ;
        assert(m > 0 ==> l <= m) by (nonlinear_arith)
            requires
                m == k * l,
                l >= 0,
        ;
    }
}

} // verus!
