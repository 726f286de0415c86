//! Fixed-point fractions with eighteen decimal places.
//!
//! A weight is a non-negative number of atomic units, each worth 10^-18, so
//! that `SCALE` units make up 100%. All arithmetic is on integers.

use vstd::prelude::*;

verus! {

/// The number of atomic units in 100%.
pub const SCALE: u128 = 1_000_000_000_000_000_000;

/// The number of atomic units in 1%.
pub const PERCENT: u128 = 10_000_000_000_000_000;

/// The part of `balance` that a weight of `weight` atomic units is entitled
/// to, rounded down to a whole unit of the denomination.
pub open spec fn share_of(balance: nat, weight: nat) -> nat {
    (balance * weight) / (SCALE as nat)
}

/// Splitting `balance` into whole multiples of `SCALE` and a rest lets the
/// product with a weight be divided without ever forming `balance * weight`.
pub proof fn lemma_share_by_parts(balance: nat, weight: nat)
    ensures
        share_of(balance, weight) == (balance / (SCALE as nat)) * weight + ((balance % (
        SCALE as nat)) * weight) / (SCALE as nat),
{
    let s = SCALE as int;
    let q = (balance / (SCALE as nat)) as int;
    let r = (balance % (SCALE as nat)) as int;
    let w = weight as int;
    assert(balance == q * s + r) by {
        vstd::arithmetic::div_mod::lemma_fundamental_div_mod(balance as int, s);
    }
    assert(balance * w == r * w + (q * w) * s) by (nonlinear_arith)
        requires
            balance == q * s + r,
    ;
    vstd::arithmetic::div_mod::lemma_hoist_over_denominator(r * w, q * w, s as nat);
}

/// A share never exceeds the balance it is taken from while the weight is
/// at most 100%.
pub proof fn lemma_share_bounded(balance: nat, weight: nat)
    requires
        weight <= SCALE,
    ensures
        share_of(balance, weight) <= balance,
{
    let s = SCALE as int;
    assert(balance * weight <= balance * s) by (nonlinear_arith)
        requires
            weight <= s,
            0 <= balance,
    ;
    vstd::arithmetic::div_mod::lemma_div_is_ordered((balance * weight) as int, balance * s, s);
    vstd::arithmetic::div_mod::lemma_div_multiples_vanish(balance as int, s);
    assert(balance * s == s * balance) by (nonlinear_arith);
}

/// Computes the share of `balance` that belongs to a weight of at most 100%.
pub fn share(balance: u128, weight: u128) -> (amount: u128)
    requires
        weight <= SCALE,
    ensures
        amount == share_of(balance as nat, weight as nat),
        amount <= balance,
{
    let whole: u128 = balance / SCALE;
    let rest: u128 = balance % SCALE;
    proof {
        lemma_share_by_parts(balance as nat, weight as nat);
        lemma_share_bounded(balance as nat, weight as nat);
        assert(whole * weight <= whole * SCALE) by (nonlinear_arith)
            requires
                weight <= SCALE,
                0 <= whole,
        ;
        assert(whole * SCALE <= balance) by {
            vstd::arithmetic::div_mod::lemma_fundamental_div_mod(balance as int, SCALE as int);
            assert(whole * SCALE == SCALE * whole) by (nonlinear_arith);
        }
        assert(rest * weight <= SCALE * SCALE) by (nonlinear_arith)
            requires
                weight <= SCALE,
                rest <= SCALE,
        ;
        assert(SCALE * SCALE == 1_000_000_000_000_000_000_000_000_000_000_000_000int);
    }
    whole * weight + (rest * weight) / SCALE
}

/// The atomic units in a whole number of percent, as
/// `cosmwasm_std::Decimal::percent` makes them: the decimal it returns holds
/// `percent * 10^16` atomic units, which `atomics` and `u128` hand out
/// unchanged. The product always fits, since `u64::MAX * 10^16 < 2^128`.
#[verifier::external_body]
fn percent_atomics(percent: u64) -> (atomics: u128)
    ensures
        atomics == percent * PERCENT,
{
    cosmwasm_std::Decimal::percent(percent).atomics().u128()
}

/// Converts a whole number of percent into atomic units.
pub fn from_percent(percent: u64) -> (atomics: u128)
    ensures
        atomics == percent * PERCENT,
        percent <= 100 <==> atomics <= SCALE,
{
    let atomics: u128 = percent_atomics(percent);
    assert(percent <= 100 <==> percent * PERCENT <= SCALE) by (nonlinear_arith);
    atomics
}

} // verus!
