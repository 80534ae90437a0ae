//! Integer arithmetic that agrees with IEEE 754 double precision on
//! nonnegative values: 53 significant bits, ties to even.
use vstd::prelude::*;

verus! {

/// Two to the power 53, the first integer with a neighbour that a double cannot hold.
pub const EXACT_LIMIT: u128 = 0x20_0000_0000_0000;

/// The distance between neighbouring doubles around an integer: the least power of two that
/// leaves a 53-bit quotient.
pub open spec fn ulp(n: nat) -> nat
    decreases n,
{
    if n < EXACT_LIMIT {
        1
    } else {
        2 * ulp(n / 2)
    }
}

/// The quotient rounded to the nearest integer, ties to even.
pub open spec fn half_even(n: nat, d: nat) -> nat {
    let quotient = n / d;
    let remainder = n % d;
    if 2 * remainder < d || (2 * remainder == d && quotient % 2 == 0) {
        quotient
    } else {
        quotient + 1
    }
}

/// The double nearest to an integer, ties to even.
pub open spec fn nearest(n: nat) -> nat {
    half_even(n, ulp(n)) * ulp(n)
}

proof fn lemma_ulp(n: nat)
    ensures
        1 <= ulp(n),
        n >= 1 ==> ulp(n) <= n,
    decreases n,
{
    if n >= EXACT_LIMIT {
        lemma_ulp(n / 2);
    }
}

/// Rounding never doubles a value.
pub proof fn lemma_nearest_bound(n: nat)
    ensures
        nearest(n) <= 2 * n,
{
    lemma_ulp(n);
    let d = ulp(n);
    let q = n / d;
    assert(n == d * q + n % d) by {
        vstd::arithmetic::div_mod::lemma_fundamental_div_mod(n as int, d as int);
    }
    if n == 0 {
        assert(d == 1);
    } else {
        assert((q + 1) * d == d * q + d) by (nonlinear_arith);
        assert(q * d == d * q) by (nonlinear_arith);
    }
}

/// The quotient rounded to the nearest integer, ties to even.
pub fn round_half_even(n: u128, d: u128) -> (quotient: u128)
    requires
        0 < d <= 0x4000_0000_0000_0000_0000_0000_0000_0000,
        n <= 0x4000_0000_0000_0000_0000_0000_0000_0000,
    ensures
        quotient == half_even(n as nat, d as nat),
{
    let quotient: u128 = n / d;
    let remainder: u128 = n % d;
    assert(quotient <= n) by (nonlinear_arith)
        requires
            quotient == n / d,
            d > 0,
    ;
    let twice: u128 = 2 * remainder;
    if twice < d || (twice == d && quotient % 2 == 0) {
        quotient
    } else {
        quotient + 1
    }
}

/// The double nearest to an integer, ties to even.
pub fn to_nearest(n: u128) -> (value: u128)
    requires
        n <= 0x4000_0000_0000_0000_0000_0000_0000_0000,
    ensures
        value == nearest(n as nat),
        value <= 2 * n,
{
    let mut unit: u128 = 1;
    while n / unit >= EXACT_LIMIT
        invariant
            1 <= unit <= 0x4000_0000_0000_0000_0000_0000_0000_0000,
            n <= 0x4000_0000_0000_0000_0000_0000_0000_0000,
            ulp(n as nat) == unit * ulp((n / unit) as nat),
        decreases n / unit,
    {
        proof {
            vstd::arithmetic::div_mod::lemma_div_denominator(n as int, unit as int, 2);
            assert(unit * 2 <= n) by (nonlinear_arith)
                requires
                    n / unit >= EXACT_LIMIT,
                    unit >= 1,
                    EXACT_LIMIT == 0x20_0000_0000_0000,
            ;
            assert(ulp((n / unit) as nat) == 2 * ulp(((n / unit) / 2) as nat));
            assert(unit * (2 * ulp(((n / unit) / 2) as nat)) == (unit * 2) * ulp(
                ((n / unit) / 2) as nat,
            )) by (nonlinear_arith);
        }
        unit = unit * 2;
    }
    proof {
        assert(ulp((n / unit) as nat) == 1);
        assert(unit == ulp(n as nat)) by (nonlinear_arith)
            requires
                ulp(n as nat) == unit * ulp((n / unit) as nat),
                ulp((n / unit) as nat) == 1,
        ;
        lemma_nearest_bound(n as nat);
        assert(half_even(n as nat, unit as nat) * unit == nearest(n as nat));
    }
    round_half_even(n, unit) * unit
}

proof fn lemma_ulp_share(n: nat)
    requires
        n >= 0x20_0000_0000_0000,
    ensures
        ulp(n) * 0x10_0000_0000_0000 <= n,
    decreases n,
{
    if n / 2 >= 0x20_0000_0000_0000 {
        lemma_ulp_share(n / 2);
    } else {
        assert(ulp(n / 2) == 1);
    }
}

/// Rounding keeps every integer of up to 53 bits, and moves any other by no more than one part in
/// two to the power 53.
pub proof fn rounding_is_close(n: nat)
    ensures
        n < 0x20_0000_0000_0000 ==> nearest(n) == n,
        nearest(n) * 0x20_0000_0000_0000 <= n * 0x20_0000_0000_0000 + n,
        nearest(n) * 0x20_0000_0000_0000 + n >= n * 0x20_0000_0000_0000,
{
    lemma_ulp(n);
    let d = ulp(n);
    let q = n / d;
    let r = n % d;
    assert(n == d * q + r && 0 <= r < d) by {
        vstd::arithmetic::div_mod::lemma_fundamental_div_mod(n as int, d as int);
        vstd::arithmetic::div_mod::lemma_mod_bound(n as int, d as int);
    }
    assert((q + 1) * d == d * q + d) by (nonlinear_arith);
    assert(q * d == d * q) by (nonlinear_arith);
    if n < 0x20_0000_0000_0000 {
        assert(d == 1);
        assert(d * q == q) by (nonlinear_arith)
            requires
                d == 1,
        ;
        assert(nearest(n) == n);
    } else {
        lemma_ulp_share(n);
        if 2 * r < d || (2 * r == d && q % 2 == 0) {
            assert(nearest(n) + r == n);
        } else {
            assert(nearest(n) + r == n + d);
        }
    }
}

} // verus!
