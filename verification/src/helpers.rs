//! Exchange-rate calculator: pure conversions between native-token amounts
//! and derivative-token shares at the pool's current totals, with floor
//! rounding that always favors the pool.

use vstd::prelude::*;

verus! {

/// Shares minted for a deposit of native tokens: `deposit` itself while no
/// derivative token circulates (1:1 bootstrap), otherwise
/// `floor(deposit * total_liquid / total_native)`.
pub open spec fn mint_amount_spec(total_native: int, total_liquid: int, deposit: int) -> int {
    if total_liquid == 0 {
        deposit
    } else {
        deposit * total_liquid / total_native
    }
}

/// Native tokens unbonded for redeemed shares:
/// `floor(shares * total_native / total_liquid)`, or zero while no
/// derivative token circulates.
pub open spec fn unbond_amount_spec(total_native: int, total_liquid: int, shares: int) -> int {
    if total_liquid == 0 {
        0
    } else {
        shares * total_native / total_liquid
    }
}

/// Relies on cosmwasm_std::Uint128::multiply_ratio: returns
/// `floor(value * numerator / denominator)` computed over a 256-bit
/// intermediate product. It panics on a zero denominator or when the
/// quotient exceeds `u128::MAX`; the precondition rules both out.
#[verifier::external_body]
pub(crate) fn multiply_ratio(value: u128, numerator: u128, denominator: u128) -> (r: u128)
    requires
        denominator != 0,
        value * numerator / (denominator as int) <= u128::MAX,
    ensures
        r == value * numerator / (denominator as int),
{
    cosmwasm_std::Uint128::new(value).multiply_ratio(numerator, denominator).u128()
}

/// Shares minted for `deposit` native tokens at the current pool totals.
pub fn compute_mint_amount(total_native: u128, total_liquid: u128, deposit: u128) -> (r: u128)
    requires
        total_liquid != 0 ==> total_native != 0,
        total_liquid != 0 ==> deposit * total_liquid / (total_native as int) <= u128::MAX,
    ensures
        r == mint_amount_spec(total_native as int, total_liquid as int, deposit as int),
{
    if total_liquid == 0 {
        deposit
    } else {
        multiply_ratio(deposit, total_liquid, total_native)
    }
}

/// Native tokens unbonded for `shares` redeemed derivative tokens at the
/// current pool totals.
pub fn compute_unbond_amount(total_native: u128, total_liquid: u128, shares: u128) -> (r: u128)
    requires
        total_liquid != 0 ==> shares * total_native / (total_liquid as int) <= u128::MAX,
    ensures
        r == unbond_amount_spec(total_native as int, total_liquid as int, shares as int),
{
    if total_liquid == 0 {
        0
    } else {
        multiply_ratio(shares, total_native, total_liquid)
    }
}

/// A floored quotient scaled back up never exceeds the dividend.
proof fn lemma_div_mul_le(x: int, d: int)
    requires
        x >= 0,
        d > 0,
    ensures
        (x / d) * d <= x,
        x / d >= 0,
{
    vstd::arithmetic::div_mod::lemma_fundamental_div_mod(x, d);
    vstd::arithmetic::div_mod::lemma_remainder_lower(x, d);
    assert(x / d >= 0) by (nonlinear_arith)
        requires
            x >= 0,
            d > 0,
            d * (x / d) + x % d == x,
            0 <= x % d,
    ;
}

/// Staking never raises the derivative-per-native ratio: minting
/// `floor(deposit * total_liquid / total_native)` shares against a deposit
/// keeps `total_liquid / total_native` non-increasing, so floor rounding can
/// only favor the pool, never the depositor.
pub proof fn lemma_stake_ratio_non_increasing(total_native: int, total_liquid: int, deposit: int)
    requires
        total_native > 0,
        total_liquid > 0,
        deposit >= 0,
    ensures
        (total_liquid + mint_amount_spec(total_native, total_liquid, deposit)) * total_native
            <= total_liquid * (total_native + deposit),
{
    let minted = (deposit * total_liquid) / total_native;
    assert(deposit * total_liquid >= 0) by (nonlinear_arith)
        requires
            deposit >= 0,
            total_liquid > 0,
    ;
    lemma_div_mul_le(deposit * total_liquid, total_native);
    assert((total_liquid + minted) * total_native <= total_liquid * (total_native + deposit))
        by (nonlinear_arith)
        requires
            minted * total_native <= deposit * total_liquid,
    ;
}

/// The per-step bound composes: if the ratio `l2/n2` is at most `l1/n1` and
/// `l3/n3` is at most `l2/n2` (stated by cross-multiplication), then `l3/n3`
/// is at most `l1/n1`, so the ratio stays bounded over any sequence of
/// stakes.
pub proof fn lemma_ratio_non_increasing_trans(
    l1: int,
    n1: int,
    l2: int,
    n2: int,
    l3: int,
    n3: int,
)
    requires
        n1 > 0,
        n2 > 0,
        n3 > 0,
        l2 * n1 <= l1 * n2,
        l3 * n2 <= l2 * n3,
    ensures
        l3 * n1 <= l1 * n3,
{
    assert(l3 * n1 * n2 <= l1 * n3 * n2) by (nonlinear_arith)
        requires
            n1 > 0,
            n2 > 0,
            n3 > 0,
            l2 * n1 <= l1 * n2,
            l3 * n2 <= l2 * n3,
    ;
    assert(l3 * n1 <= l1 * n3) by (nonlinear_arith)
        requires
            n2 > 0,
            l3 * n1 * n2 <= l1 * n3 * n2,
    ;
}

/// A pro-rata slice never exceeds the whole: for a part of at most the
/// total, `floor(part * value / total) <= value`.
pub proof fn lemma_pro_rata_le(part: int, total: int, value: int)
    requires
        0 <= part <= total,
        total > 0,
        value >= 0,
    ensures
        0 <= part * value / total <= value,
{
    assert(0 <= part * value <= total * value) by (nonlinear_arith)
        requires
            0 <= part <= total,
            value >= 0,
    ;
    vstd::arithmetic::div_mod::lemma_div_is_ordered(part * value, total * value, total);
    vstd::arithmetic::div_mod::lemma_div_multiples_vanish(value, total);
    vstd::arithmetic::div_mod::lemma_div_pos_is_pos(part * value, total);
}

} // verus!
