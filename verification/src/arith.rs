//! Fixed-point fee arithmetic.
//!
//! A fee ratio in [0, 1] is stored as an integer number of atomic units,
//! `atomics`, meaning the ratio `atomics / FEE_DIVISOR`. The fee charged on a
//! claimed amount is the floor of `amount * atomics / FEE_DIVISOR`, computed
//! here without overflowing 128-bit arithmetic.

use vstd::prelude::*;

verus! {

use vstd::arithmetic::div_mod::{
    lemma_div_multiples_vanish_fancy, lemma_fundamental_div_mod, lemma_mod_bound,
};

/// Number of atomic units in the ratio 1.0 (an 18-decimal fixed point).
pub const FEE_DIVISOR: u128 = 1_000_000_000_000_000_000;

/// The exact mathematical fee: floor(amount * atomics / FEE_DIVISOR).
pub open spec fn fee_of(amount: u128, atomics: u128) -> int {
    (amount * atomics) / (FEE_DIVISOR as int)
}

/// floor(amount * atomics / FEE_DIVISOR), via the identity
/// a*t/D == (a/D)*t + (a%D)*t/D, whose summands all fit in 128 bits
/// whenever t <= D.
pub fn fee_amount(amount: u128, atomics: u128) -> (fee: u128)
    requires
        atomics <= FEE_DIVISOR,
    ensures
        fee == fee_of(amount, atomics),
        fee <= amount,
{
    let d: u128 = FEE_DIVISOR;
    let q: u128 = amount / d;
    let r: u128 = amount % d;
    proof {
        lemma_fee_decomposition(amount as int, atomics as int, d as int);
    }
    let high: u128 = q * atomics;
    let low: u128 = (r * atomics) / d;
    high + low
}

/// For a = D*q + r with 0 <= r < D and 0 <= t <= D:
/// a*t/D == q*t + (r*t)/D, and that value is at most a.
proof fn lemma_fee_decomposition(a: int, t: int, dd: int)
    requires
        0 <= a,
        0 <= t <= dd,
        0 < dd,
    ensures
        (a * t) / dd == (a / dd) * t + ((a % dd) * t) / dd,
        (a / dd) * t <= a,
        (a % dd) * t < dd * dd,
        (a / dd) * t + ((a % dd) * t) / dd <= a,
{
    let q = a / dd;
    let r = a % dd;
    lemma_fundamental_div_mod(a, dd);
    lemma_mod_bound(a, dd);
    let s = (r * t) / dd;
    let m = (r * t) % dd;
    assert(0 <= r * t) by (nonlinear_arith)
        requires 0 <= r, 0 <= t;
    lemma_fundamental_div_mod(r * t, dd);
    lemma_mod_bound(r * t, dd);
    assert(a * t == dd * (q * t + s) + m) by (nonlinear_arith)
        requires a == dd * q + r, r * t == dd * s + m;
    lemma_div_multiples_vanish_fancy(q * t + s, m, dd);
    assert((a * t) / dd == q * t + s);

    assert(0 <= q) by (nonlinear_arith)
        requires 0 <= a, 0 < dd, a == dd * q + r, 0 <= r < dd;
    assert(q * t <= q * dd) by (nonlinear_arith)
        requires 0 <= q, t <= dd;
    assert(q * dd <= a) by (nonlinear_arith)
        requires a == dd * q + r, 0 <= r;
    assert(r * t < dd * dd) by (nonlinear_arith)
        requires 0 <= r < dd, 0 <= t <= dd, 0 < dd;

    // q*t + (r*t)/dd <= a: since r*t <= r*dd, (r*t)/dd <= r.
    assert(r * t <= r * dd) by (nonlinear_arith)
        requires 0 <= r, t <= dd;
    lemma_div_multiples_vanish_fancy(r, 0, dd);
    assert((r * dd) / dd == r) by {
        assert(r * dd == dd * r + 0) by (nonlinear_arith);
    }
    lemma_div_is_ordered(r * t, r * dd, dd);
    assert(s <= r);
}

/// Dividing both sides of x <= y by a positive d keeps the order.
proof fn lemma_div_is_ordered(x: int, y: int, d: int)
    requires
        0 <= x <= y,
        0 < d,
    ensures
        x / d <= y / d,
{
    lemma_fundamental_div_mod(x, d);
    lemma_fundamental_div_mod(y, d);
    lemma_mod_bound(x, d);
    lemma_mod_bound(y, d);
    assert(x / d <= y / d) by (nonlinear_arith)
        requires
            x == d * (x / d) + (x % d),
            y == d * (y / d) + (y % d),
            0 <= x % d < d,
            0 <= y % d < d,
            x <= y,
            0 < d;
}

/// Splits a claimed amount into the fee kept by the protocol's fee recipient
/// and the remainder to be staked; the two parts add back up exactly.
pub fn split_claimed(amount: u128, atomics: u128) -> (r: (u128, u128))
    requires
        atomics <= FEE_DIVISOR,
    ensures
        r.0 == fee_of(amount, atomics),
        r.1 == amount - r.0,
        r.0 + r.1 == amount,
{
    let fee = fee_amount(amount, atomics);
    (fee, amount - fee)
}

} // verus!
