//! Exact decimal rendering of byte counts scaled by a power of two.
//!
//! A count converted to a 64-bit float keeps 53 significant bits (rounded to
//! nearest, ties to even); dividing by a power of two is then exact, and a
//! fixed-precision rendering rounds the exact quotient to the requested
//! number of decimals, ties to even.  Everything here is done in integers,
//! so the text is the same as that rendering, digit for digit.

use vstd::prelude::*;
use vstd::arithmetic::div_mod::{lemma_div_denominator, lemma_fundamental_div_mod};
use crate::text::{decimal, padded_decimal, push_char, push_decimal, push_padded_decimal};

verus! {

/// Largest count that a 64-bit float holds exactly without rounding: 2^53.
pub open spec fn exact_limit() -> nat {
    0x20_0000_0000_0000
}

/// Spacing between neighbouring 64-bit floats near `n` (1 below 2^53, doubling per binade above).
pub open spec fn ulp(n: nat) -> nat
    decreases n,
{
    if n < exact_limit() {
        1
    } else {
        2 * ulp(n / 2)
    }
}

/// The integer nearest to `a / d`, ties to the even neighbour.
pub open spec fn round_half_even(a: nat, d: nat) -> nat
    recommends
        d > 0,
{
    let q = a / d;
    let r = a % d;
    if 2 * r > d || (2 * r == d && q % 2 == 1) {
        q + 1
    } else {
        q
    }
}

/// The value of `n` once held in a 64-bit float.
pub open spec fn as_f64(n: nat) -> nat {
    round_half_even(n, ulp(n)) * ulp(n)
}

/// Ten to the power `p`.
pub open spec fn pow10(p: nat) -> nat
    decreases p,
{
    if p == 0 {
        1
    } else {
        10 * pow10((p - 1) as nat)
    }
}

/// `m / den` rendered with exactly `p` decimals, rounding ties to even.
pub open spec fn fixed_text(m: nat, den: nat, p: nat) -> Seq<char> {
    let q = round_half_even(m * pow10(p), den);
    if p == 0 {
        decimal(q)
    } else {
        decimal(q / pow10(p)) + seq!['.'] + padded_decimal(q % pow10(p), p)
    }
}

/// Two to the power `k`.
pub open spec fn pow2_of(k: nat) -> nat
    decreases k,
{
    if k == 0 {
        1
    } else {
        2 * pow2_of((k - 1) as nat)
    }
}

/// What the float value of `bytes / 2^shift`, printed with `p` decimals, reads.
pub open spec fn scaled_text(bytes: nat, shift: nat, p: nat) -> Seq<char> {
    fixed_text(as_f64(bytes), pow2_of(shift), p)
}

proof fn lemma_pow2_bounds(k: nat)
    requires
        k <= 64,
    ensures
        1 <= pow2_of(k) <= 0x1_0000_0000_0000_0000,
    decreases 64 - k,
{
    if k == 64 {
        assert(pow2_of(64) == 0x1_0000_0000_0000_0000) by {
            reveal_with_fuel(pow2_of, 65);
        }
    } else {
        lemma_pow2_bounds(k + 1);
        assert(pow2_of(k + 1) == 2 * pow2_of(k));
    }
}

/// Two to the power `k`, for `k <= 64`.
fn pow2_exec(k: u32) -> (t: u128)
    requires
        k <= 64,
    ensures
        t == pow2_of(k as nat),
        t >= 1,
{
    let mut t: u128 = 1;
    let mut i: u32 = 0;
    while i < k
        invariant
            i <= k <= 64,
            t == pow2_of(i as nat),
        decreases k - i,
    {
        proof {
            lemma_pow2_bounds((i + 1) as nat);
            assert(pow2_of((i + 1) as nat) == 2 * pow2_of(i as nat));
        }
        t = t * 2;
        i = i + 1;
    }
    proof {
        lemma_pow2_bounds(k as nat);
    }
    t
}

proof fn lemma_pow10_bounds(p: nat)
    requires
        p <= 18,
    ensures
        1 <= pow10(p) <= 1_000_000_000_000_000_000,
    decreases 18 - p,
{
    if p == 18 {
        assert(pow10(18) == 1_000_000_000_000_000_000) by {
            reveal_with_fuel(pow10, 19);
        }
    } else {
        lemma_pow10_bounds(p + 1);
        assert(pow10(p + 1) == 10 * pow10(p));
    }
}

proof fn lemma_ulp_positive(n: nat)
    ensures
        ulp(n) >= 1,
    decreases n,
{
    if n >= exact_limit() {
        lemma_ulp_positive(n / 2);
    }
}

/// Above 2^53 the quotient by the spacing keeps 53 significant bits.
proof fn lemma_significand_floor(n: nat)
    requires
        n >= exact_limit(),
    ensures
        n / ulp(n) >= 0x10_0000_0000_0000,
        ulp(n) >= 2,
    decreases n,
{
    let h = n / 2;
    lemma_ulp_positive(h);
    lemma_div_denominator(n as int, 2, ulp(h) as int);
    if h >= exact_limit() {
        lemma_significand_floor(h);
    }
}

/// Counts below 2^53 are held exactly; larger ones stay at least 2^53.
pub proof fn lemma_as_f64_exact_below_limit(n: nat)
    ensures
        n < exact_limit() ==> as_f64(n) == n,
        n >= exact_limit() ==> as_f64(n) >= exact_limit(),
{
    if n >= exact_limit() {
        lemma_significand_floor(n);
        let u = ulp(n);
        let q = n / u;
        assert(round_half_even(n, u) >= q);
        assert(as_f64(n) >= exact_limit()) by (nonlinear_arith)
            requires
                as_f64(n) == round_half_even(n, u) * u,
                round_half_even(n, u) >= q,
                q >= 0x10_0000_0000_0000,
                u >= 2,
        ;
    } else {
        assert(ulp(n) == 1);
        assert(n / 1 == n && n % 1 == 0);
        assert(round_half_even(n, 1) == n);
    }
}

/// The exact rounded quotient `a / d`, ties to even.
fn round_div(a: u128, d: u128) -> (r: u128)
    requires
        d > 0,
    ensures
        r == round_half_even(a as nat, d as nat),
{
    let q = a / d;
    let rem = a % d;
    proof {
        lemma_fundamental_div_mod(a as int, d as int);
    }
    if rem > d - rem || (rem == d - rem && q % 2 == 1) {
        assert(q < a) by (nonlinear_arith)
            requires
                a == d * q + rem,
                rem > 0,
                d >= 1,
        ;
        q + 1
    } else {
        q
    }
}

/// The value that `n as f64` holds, as an integer.
pub fn f64_value(n: u64) -> (m: u128)
    ensures
        m == as_f64(n as nat),
        m <= 2 * (n as nat) + 1,
{
    let ghost nn = n as nat;
    let big: u128 = n as u128;
    let mut u: u128 = 1;
    while big / u >= 0x20_0000_0000_0000
        invariant
            u >= 1,
            u <= nn + 1,
            big == nn,
            ulp(nn) == u * ulp(nn / (u as nat)),
        decreases big - u,
    {
        let ghost v = nn / (u as nat);
        proof {
            lemma_div_denominator(nn as int, u as int, 2);
            assert(ulp(v) == 2 * ulp(v / 2));
            assert(u * 2 <= nn) by (nonlinear_arith)
                requires
                    v == nn / (u as nat),
                    v >= 0x20_0000_0000_0000,
                    u >= 1,
            {
                assert(v * u <= nn);
            }
            assert(ulp(nn) == (u * 2) * ulp(nn / ((u * 2) as nat))) by (nonlinear_arith)
                requires
                    ulp(nn) == u * ulp(v),
                    ulp(v) == 2 * ulp(v / 2),
                    v / 2 == nn / ((u * 2) as nat),
            ;
        }
        u = u * 2;
    }
    proof {
        assert(ulp(nn / (u as nat)) == 1);
        let w = ulp(nn / (u as nat));
        assert(ulp(nn) == u) by (nonlinear_arith)
            requires
                ulp(nn) == u * w,
                w == 1,
        ;
    }
    let q = round_div(big, u);
    proof {
        lemma_fundamental_div_mod(nn as int, u as int);
        assert(q * u <= 2 * nn + 1) by (nonlinear_arith)
            requires
                q <= nn / (u as nat) + 1,
                nn == u * (nn / (u as nat)) + nn % (u as nat),
                nn % (u as nat) >= 0,
                u <= nn + 1,
        ;
    }
    q * u
}

/// Ten to the power `p`, for `p <= 18`.
fn pow10_exec(p: u32) -> (t: u128)
    requires
        p <= 18,
    ensures
        t == pow10(p as nat),
        1 <= t <= 1_000_000_000_000_000_000,
{
    let mut t: u128 = 1;
    let mut i: u32 = 0;
    while i < p
        invariant
            i <= p <= 18,
            t == pow10(i as nat),
        decreases p - i,
    {
        proof {
            lemma_pow10_bounds((i + 1) as nat);
            assert(pow10((i + 1) as nat) == 10 * pow10(i as nat));
        }
        t = t * 10;
        i = i + 1;
    }
    proof {
        lemma_pow10_bounds(p as nat);
    }
    t
}

/// Appends `m / den` with `p` decimals, rounding ties to even.
pub fn push_fixed(out: &mut String, m: u128, den: u128, p: u32)
    requires
        den > 0,
        m <= 0x4_0000_0000_0000_0000,
        p <= 18,
    ensures
        final(out)@ == old(out)@ + fixed_text(m as nat, den as nat, p as nat),
{
    let t = pow10_exec(p);
    assert(m * t <= 0x4_0000_0000_0000_0000 * 1_000_000_000_000_000_000) by (nonlinear_arith)
        requires
            m <= 0x4_0000_0000_0000_0000,
            t <= 1_000_000_000_000_000_000,
    ;
    let q = round_div(m * t, den);
    if p == 0 {
        proof {
            assert(pow10(0) == 1);
        }
        push_decimal(out, q);
    } else {
        push_decimal(out, q / t);
        push_char(out, '.');
        push_padded_decimal(out, q % t, p);
        assert(final(out)@ =~= old(out)@ + fixed_text(m as nat, den as nat, p as nat));
    }
}

/// Appends the float value of `bytes / 2^shift` rendered with `p` decimals.
pub fn push_scaled(out: &mut String, bytes: u64, shift: u32, p: u32)
    requires
        shift <= 64,
        p <= 18,
    ensures
        final(out)@ == old(out)@ + scaled_text(bytes as nat, shift as nat, p as nat),
{
    let m = f64_value(bytes);
    let den = pow2_exec(shift);
    push_fixed(out, m, den, p);
}

} // verus!
