//! Fixed-point arithmetic helpers.
//!
//! World-space quantities (positions, direction vectors, distances) are
//! carried as `i64` values holding [`FP`] sub-units per world unit (one grid
//! cell). All divisions are Euclidean, so quotients and remainders agree with
//! the mathematical `/` and `%` used in contracts.

use vstd::prelude::*;

verus! {

/// Fixed-point sub-units per world unit (one grid cell).
pub const FP: i64 = 1024;

/// Euclidean division, exact counterpart of the mathematical `/`.
pub fn fdiv(a: i64, b: i64) -> (q: i64)
    requires
        b > 0,
    ensures
        q == a as int / b as int,
{
    proof {
        vstd::arithmetic::div_mod::lemma_fundamental_div_mod(a as int, b as int);
        assert(i64::MIN <= a as int / b as int <= i64::MAX) by (nonlinear_arith)
            requires
                b > 0,
                i64::MIN <= a <= i64::MAX,
                a as int == b as int * (a as int / b as int) + a as int % b as int,
                0 <= (a as int % b as int),
                (a as int % b as int) < b as int,
        ;
    }
    a.checked_div_euclid(b).unwrap()
}

/// Euclidean remainder, exact counterpart of the mathematical `%`.
pub fn fmod(a: i64, b: i64) -> (r: i64)
    requires
        b > 0,
    ensures
        r == a as int % b as int,
        0 <= r < b,
{
    proof {
        vstd::arithmetic::div_mod::lemma_fundamental_div_mod(a as int, b as int);
    }
    a.checked_rem_euclid(b).unwrap()
}

/// `r` is the integer square root of `n`.
pub open spec fn is_isqrt(n: int, r: int) -> bool {
    0 <= r && r * r <= n < (r + 1) * (r + 1)
}

/// The integer square root: the unique `r >= 0` with
/// `r * r <= n < (r + 1) * (r + 1)`.
pub open spec fn spec_isqrt(n: int) -> int {
    choose|r: int| is_isqrt(n, r)
}

/// The integer square root is unique.
pub proof fn lemma_isqrt_unique(n: int, a: int, b: int)
    by (nonlinear_arith)
    requires
        0 <= a,
        0 <= b,
        a * a <= n < (a + 1) * (a + 1),
        b * b <= n < (b + 1) * (b + 1),
    ensures
        a == b,
{
}

/// Computes the integer square root of `n`.
///
/// The loop tests `r + 1 <= n / (r + 1)`, which is equivalent to
/// `(r + 1) * (r + 1) <= n` and never overflows.
pub fn isqrt(n: u64) -> (r: u64)
    ensures
        r * r <= n < (r + 1) * (r + 1),
        r == spec_isqrt(n as int),
{
    let mut r: u64 = 0;
    while r + 1 <= n / (r + 1)
        invariant
            r * r <= n,
            r <= n,
            r < 0x1_0000_0000u64,
        decreases n - r,
    {
        proof {
            let ri = r as int;
            let ni = n as int;
            vstd::arithmetic::div_mod::lemma_fundamental_div_mod(ni, ri + 1);
            assert((ri + 1) * (ri + 1) <= ni && ri + 1 <= ni && ri + 1 < 0x1_0000_0000)
                by (nonlinear_arith)
                requires
                    0 <= ri,
                    ni <= 0xFFFF_FFFF_FFFF_FFFFu64,
                    ri + 1 <= ni / (ri + 1),
                    ni == (ri + 1) * (ni / (ri + 1)) + ni % (ri + 1),
                    0 <= ni % (ri + 1) < ri + 1,
            ;
        }
        r = r + 1;
    }
    proof {
        let ri = r as int;
        let ni = n as int;
        vstd::arithmetic::div_mod::lemma_fundamental_div_mod(ni, ri + 1);
        assert(ni < (ri + 1) * (ri + 1)) by (nonlinear_arith)
            requires
                0 <= ri,
                ri + 1 > ni / (ri + 1),
                ni == (ri + 1) * (ni / (ri + 1)) + ni % (ri + 1),
                0 <= ni % (ri + 1) < ri + 1,
        ;
    }
    proof {
        let ri = r as int;
        let ni = n as int;
        assert(is_isqrt(ni, ri));
        assert(exists|q: int| is_isqrt(ni, q));
        assert(is_isqrt(ni, spec_isqrt(ni)));
        lemma_isqrt_unique(ni, ri, spec_isqrt(ni));
    }
    r
}

/// Division by a divisor of either sign, with the sign normalized onto the
/// divisor first; for positive divisors it is the Euclidean `/`.
pub open spec fn spec_sdiv(a: int, b: int) -> int
    recommends
        b != 0,
{
    if b > 0 {
        a / b
    } else {
        (-a) / (-b)
    }
}

/// Exec counterpart of [`spec_sdiv`].
pub fn sdiv(a: i64, b: i64) -> (q: i64)
    requires
        b != 0,
        a > i64::MIN,
        b > i64::MIN,
    ensures
        q == spec_sdiv(a as int, b as int),
{
    if b > 0 {
        fdiv(a, b)
    } else {
        fdiv(-a, -b)
    }
}

/// Sign of a displacement: the signed unit step used by the collision rule.
pub open spec fn sign(m: int) -> int {
    if m > 0 {
        1
    } else if m < 0 {
        -1
    } else {
        0
    }
}

} // verus!
