//! Integers as the host's double-precision numbers.
use vstd::prelude::*;

verus! {

/// Above this magnitude a double no longer holds every integer.
pub const EXACT_LIMIT: u128 = 0x20_0000_0000_0000;

/// The spacing of doubles around a magnitude `m`: one below `2^53`, doubling
/// with each further binary digit.
pub open spec fn ulp(m: nat) -> nat
    decreases m,
{
    if m < 0x20_0000_0000_0000 {
        1
    } else {
        2 * ulp(m / 2)
    }
}

/// The double nearest to the magnitude `m`, ties to an even multiple of the
/// spacing.
pub open spec fn round_magnitude(m: nat) -> nat {
    let u = ulp(m);
    let q = m / u;
    let r = m % u;
    if 2 * r < u {
        q * u
    } else if 2 * r > u {
        (q + 1) * u
    } else if q % 2 == 0 {
        q * u
    } else {
        (q + 1) * u
    }
}

/// The integer value of the double that the integer `n` converts to.
pub open spec fn to_double(n: int) -> int {
    if n >= 0 {
        round_magnitude(n as nat) as int
    } else {
        -(round_magnitude((-n) as nat) as int)
    }
}

/// The largest magnitude among the integers this library converts: those of
/// `i64` and `u64`.
pub const WIDE_LIMIT: i128 = 0x1_0000_0000_0000_0000;

/// Rounds the magnitude `m` to the nearest double.
fn round_u128(m: u128) -> (r: u128)
    requires
        m <= WIDE_LIMIT,
    ensures
        r == round_magnitude(m as nat),
        r <= m + 4096,
{
    let mut u: u128 = 1;
    let mut t: u128 = m;
    while t >= EXACT_LIMIT
        invariant
            ulp(m as nat) == u * ulp(t as nat),
            1 <= u,
            u * t <= m,
            u <= 4096,
            m <= WIDE_LIMIT,
        decreases t,
    {
        proof {
            assert(ulp(t as nat) == 2 * ulp((t / 2) as nat));
            assert(u * (2 * ulp((t / 2) as nat)) == (2 * u) * ulp((t / 2) as nat)) by (nonlinear_arith);
            assert((2 * u) * (t / 2) <= u * t) by (nonlinear_arith)
                requires
                    1 <= u,
            ;
            assert(u <= 2048) by (nonlinear_arith)
                requires
                    t >= EXACT_LIMIT,
                    u * t <= m,
                    m <= WIDE_LIMIT,
            ;
        }
        t = t / 2;
        u = u * 2;
    }
    assert(ulp(t as nat) == 1);
    let q = m / u;
    assert(ulp(m as nat) == u) by (nonlinear_arith)
        requires
            ulp(m as nat) == u * ulp(t as nat),
            ulp(t as nat) == 1,
    ;
    let rem = m % u;
    assert(q * u <= m) by (nonlinear_arith)
        requires
            q == m / u,
            u >= 1,
    ;
    assert((q + 1) * u <= m + u) by (nonlinear_arith)
        requires
            q == m / u,
            u >= 1,
    ;
    if 2 * rem < u {
        q * u
    } else if 2 * rem > u {
        (q + 1) * u
    } else if q % 2 == 0 {
        q * u
    } else {
        (q + 1) * u
    }
}

/// The value that the integer `n` takes as a host number.
pub fn int_to_double(n: i128) -> (r: i128)
    requires
        -WIDE_LIMIT <= n <= WIDE_LIMIT,
    ensures
        r == to_double(n as int),
{
    if n >= 0 {
        round_u128(n as u128) as i128
    } else {
        let m = round_u128((-n) as u128);
        -(m as i128)
    }
}

} // verus!
