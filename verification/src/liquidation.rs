//! Liquidation eligibility, health factor, incentive pricing, collateral
//! seizure, and bad-debt socialization.

use vstd::prelude::*;
use vstd::arithmetic::div_mod::{lemma_div_is_ordered, lemma_div_is_ordered_by_denominator};
use vstd::arithmetic::mul::lemma_mul_inequality;

use crate::constants::{BPS, LIF_BPS, LIF_CURSOR, MAX_LIF, ORACLE_SCALE, WAD};
use crate::errors::MorphoError;
use crate::math::{ceil_div, mul_div_down, mul_div_up, to_assets_up};
use crate::state::Market;

verus! {

/// Value of a position's collateral in loan-token units, rounded down.
pub open spec fn collateral_value_spec(collateral: u128, price: u128) -> int {
    (collateral * price) / (ORACLE_SCALE as int)
}

/// Largest healthy debt of a position, rounded down.
pub open spec fn max_borrow_spec(collateral: u128, price: u128, lltv: u64) -> int {
    (collateral_value_spec(collateral, price) * lltv) / (BPS as int)
}

/// A position's debt in asset units, rounded up against the market's
/// aggregate borrow totals.
pub open spec fn borrowed_assets_spec(
    borrow_shares: u128,
    total_borrow_assets: u128,
    total_borrow_shares: u128,
) -> int {
    ceil_div(borrow_shares * total_borrow_assets, total_borrow_shares as int)
}

/// The pure liquidation test: a position with debt whose rounded-up borrowed
/// assets strictly exceed its rounded-down borrowing capacity.
pub open spec fn liquidatable_spec(
    collateral: u128,
    borrow_shares: u128,
    total_borrow_assets: u128,
    total_borrow_shares: u128,
    price: u128,
    lltv: u64,
) -> bool {
    &&& borrow_shares > 0
    &&& borrowed_assets_spec(borrow_shares, total_borrow_assets, total_borrow_shares)
        > max_borrow_spec(collateral, price, lltv)
}

/// The inputs on which the liquidation test cannot be computed in `u128`.
pub open spec fn liquidatable_overflows(
    collateral: u128,
    borrow_shares: u128,
    total_borrow_assets: u128,
    total_borrow_shares: u128,
    price: u128,
    lltv: u64,
) -> bool {
    ||| total_borrow_shares == 0
    ||| borrow_shares * total_borrow_assets > u128::MAX
    ||| collateral * price > u128::MAX
    ||| collateral_value_spec(collateral, price) * lltv > u128::MAX
}

/// Decides whether a position may be liquidated. A position without debt
/// shares is never liquidatable; equality of debt and capacity is healthy.
pub fn is_liquidatable(
    collateral: u128,
    borrow_shares: u128,
    total_borrow_assets: u128,
    total_borrow_shares: u128,
    oracle_price: u128,
    lltv: u64,
) -> (r: Result<bool, MorphoError>)
    ensures
        borrow_shares == 0 ==> r == Ok::<bool, MorphoError>(false),
        borrow_shares != 0 && liquidatable_overflows(
            collateral,
            borrow_shares,
            total_borrow_assets,
            total_borrow_shares,
            oracle_price,
            lltv,
        ) ==> r == Err::<bool, MorphoError>(MorphoError::MathOverflow),
        borrow_shares != 0 && !liquidatable_overflows(
            collateral,
            borrow_shares,
            total_borrow_assets,
            total_borrow_shares,
            oracle_price,
            lltv,
        ) ==> r == Ok::<bool, MorphoError>(
            liquidatable_spec(
                collateral,
                borrow_shares,
                total_borrow_assets,
                total_borrow_shares,
                oracle_price,
                lltv,
            ),
        ),
{
    if borrow_shares == 0 {
        return Ok(false);
    }
    let borrowed = match to_assets_up(borrow_shares, total_borrow_assets, total_borrow_shares) {
        Ok(v) => v,
        Err(e) => {
            return Err(e);
        },
    };
    let collateral_value = match mul_div_down(collateral, oracle_price, ORACLE_SCALE) {
        Ok(v) => v,
        Err(e) => {
            return Err(e);
        },
    };
    let max_borrow = match mul_div_down(collateral_value, lltv as u128, BPS as u128) {
        Ok(v) => v,
        Err(e) => {
            return Err(e);
        },
    };
    Ok(borrowed > max_borrow)
}

/// Normalized health of a position, scaled by `WAD`: the rounded-down ratio
/// of borrowing capacity to debt. Advisory only; `is_liquidatable` is the
/// authoritative decision.
pub open spec fn health_factor_spec(
    collateral: u128,
    borrowed: u128,
    price: u128,
    lltv: u64,
) -> int {
    (max_borrow_spec(collateral, price, lltv) * WAD) / (borrowed as int)
}

/// The inputs on which the health factor cannot be computed in `u128`.
pub open spec fn health_factor_overflows(collateral: u128, price: u128, lltv: u64) -> bool {
    ||| collateral * price > u128::MAX
    ||| collateral_value_spec(collateral, price) * lltv > u128::MAX
    ||| max_borrow_spec(collateral, price, lltv) * WAD > u128::MAX
}

/// Computes the health factor of a position. A position without debt has
/// infinite health, reported as the largest representable value.
pub fn health_factor(collateral: u128, borrowed: u128, oracle_price: u128, lltv: u64) -> (r:
    Result<u128, MorphoError>)
    ensures
        borrowed == 0 ==> r == Ok::<u128, MorphoError>(u128::MAX),
        borrowed != 0 && health_factor_overflows(collateral, oracle_price, lltv) ==> r == Err::<
            u128,
            MorphoError,
        >(MorphoError::MathOverflow),
        borrowed != 0 && !health_factor_overflows(collateral, oracle_price, lltv) ==> r == Ok::<
            u128,
            MorphoError,
        >(health_factor_spec(collateral, borrowed, oracle_price, lltv) as u128),
{
    if borrowed == 0 {
        return Ok(u128::MAX);
    }
    let collateral_value = match mul_div_down(collateral, oracle_price, ORACLE_SCALE) {
        Ok(v) => v,
        Err(e) => {
            return Err(e);
        },
    };
    let max_borrow = match mul_div_down(collateral_value, lltv as u128, BPS as u128) {
        Ok(v) => v,
        Err(e) => {
            return Err(e);
        },
    };
    mul_div_down(max_borrow, WAD, borrowed)
}

/// The term the incentive cursor contributes for a given threshold, in
/// `LIF_BPS` units.
pub open spec fn lif_cursor_term(lltv: u64) -> int {
    let one_minus_lltv: int = if lltv >= BPS {
        0
    } else {
        BPS - lltv
    };
    (LIF_CURSOR * one_minus_lltv) / (LIF_BPS as int)
}

/// The liquidation incentive factor, in `LIF_BPS` units: the clamped value
/// of `LIF_BPS^2 / (LIF_BPS - cursor_term)`, or the ceiling outright when
/// the denominator vanishes.
pub open spec fn calculate_lif_spec(lltv: u64) -> int {
    let cursor_term = lif_cursor_term(lltv);
    let denominator: int = if cursor_term >= LIF_BPS {
        0
    } else {
        LIF_BPS - cursor_term
    };
    if denominator == 0 {
        MAX_LIF as int
    } else {
        let lif = (LIF_BPS * LIF_BPS) / denominator;
        if lif <= MAX_LIF {
            lif
        } else {
            MAX_LIF as int
        }
    }
}

/// Derives the liquidation incentive factor from the market's threshold.
/// Total: saturates instead of failing, so a liquidation is never blocked
/// by incentive arithmetic.
pub fn calculate_lif(lltv: u64) -> (r: u64)
    ensures
        r == calculate_lif_spec(lltv),
        r <= MAX_LIF,
{
    let one_minus_lltv = BPS.saturating_sub(lltv);
    let cursor_term_wide = (LIF_CURSOR as u128).checked_mul(one_minus_lltv as u128).unwrap_or(
        0,
    ).checked_div(LIF_BPS as u128).unwrap_or(0);
    let cursor_term = cursor_term_wide as u64;
    let denominator = LIF_BPS.saturating_sub(cursor_term);
    if denominator == 0 {
        return MAX_LIF;
    }
    let lif_wide = (LIF_BPS as u128).checked_mul(LIF_BPS as u128).unwrap_or(
        u128::MAX,
    ).checked_div(denominator as u128).unwrap_or(u128::MAX);
    let lif = lif_wide as u64;
    if lif <= MAX_LIF {
        lif
    } else {
        MAX_LIF
    }
}

/// Collateral owed to a liquidator for a repayment, rounded up at both the
/// value-conversion and the incentive-application step.
pub open spec fn seized_collateral_spec(repaid_assets: u128, price: u128, lif: u64) -> int {
    ceil_div(ceil_div(repaid_assets * price, ORACLE_SCALE as int) * lif, LIF_BPS as int)
}

/// The inputs on which the seizure cannot be computed in `u128`.
pub open spec fn seized_collateral_overflows(repaid_assets: u128, price: u128, lif: u64) -> bool {
    ||| repaid_assets * price > u128::MAX
    ||| ceil_div(repaid_assets * price, ORACLE_SCALE as int) * lif > u128::MAX
}

/// Sizes the collateral transferred to the liquidator for a repayment.
/// Both steps round up, in favor of the liquidation incentive.
pub fn calculate_seized_collateral(repaid_assets: u128, oracle_price: u128, lif: u64) -> (r:
    Result<u128, MorphoError>)
    ensures
        seized_collateral_overflows(repaid_assets, oracle_price, lif) ==> r == Err::<
            u128,
            MorphoError,
        >(MorphoError::MathOverflow),
        !seized_collateral_overflows(repaid_assets, oracle_price, lif) ==> r == Ok::<
            u128,
            MorphoError,
        >(seized_collateral_spec(repaid_assets, oracle_price, lif) as u128),
{
    let collateral_value = match mul_div_up(repaid_assets, oracle_price, ORACLE_SCALE) {
        Ok(v) => v,
        Err(e) => {
            return Err(e);
        },
    };
    mul_div_up(collateral_value, lif as u128, LIF_BPS as u128)
}

/// Saturating subtraction over the mathematical integers.
pub open spec fn sat_sub(a: int, b: int) -> int {
    if a >= b {
        a - b
    } else {
        0
    }
}

/// The asset amount a residue of borrow shares stands for, rounded up.
pub open spec fn bad_debt_spec(
    remaining_borrow_shares: u128,
    total_borrow_assets: u128,
    total_borrow_shares: u128,
) -> int {
    ceil_div(remaining_borrow_shares * total_borrow_assets, total_borrow_shares as int)
}

/// Removes unrecoverable debt from the market's books: the borrow side
/// shrinks by the residual shares and their asset value, and the same asset
/// value is written off the supply side while `total_supply_shares` stays
/// untouched, so every outstanding share is worth proportionally less.
///
/// Expects a `remaining_borrow_shares` no larger than the market's
/// outstanding shares; a larger value is a caller contract violation and is
/// only absorbed by saturation, not rejected.
pub fn socialize_bad_debt(market: &mut Market, remaining_borrow_shares: u128) -> (r: Result<
    u128,
    MorphoError,
>)
    ensures
        remaining_borrow_shares == 0 ==> r == Ok::<u128, MorphoError>(0) && *final(market)
            == *old(market),
        remaining_borrow_shares != 0 && (old(market).total_borrow_shares == 0
            || remaining_borrow_shares * old(market).total_borrow_assets > u128::MAX) ==> r
            == Err::<u128, MorphoError>(MorphoError::MathOverflow) && *final(market) == *old(
            market,
        ),
        remaining_borrow_shares != 0 && old(market).total_borrow_shares != 0
            && remaining_borrow_shares * old(market).total_borrow_assets <= u128::MAX ==> r
            == Ok::<u128, MorphoError>(
            bad_debt_spec(
                remaining_borrow_shares,
                old(market).total_borrow_assets,
                old(market).total_borrow_shares,
            ) as u128,
        ) && final(market).total_borrow_shares == sat_sub(
            old(market).total_borrow_shares as int,
            remaining_borrow_shares as int,
        ) && final(market).total_borrow_assets == sat_sub(
            old(market).total_borrow_assets as int,
            bad_debt_spec(
                remaining_borrow_shares,
                old(market).total_borrow_assets,
                old(market).total_borrow_shares,
            ),
        ) && final(market).total_supply_assets == sat_sub(
            old(market).total_supply_assets as int,
            bad_debt_spec(
                remaining_borrow_shares,
                old(market).total_borrow_assets,
                old(market).total_borrow_shares,
            ),
        ) && final(market).total_supply_shares == old(market).total_supply_shares
            && final(market).oracle == old(market).oracle
            && final(market).lltv == old(market).lltv,
{
    if remaining_borrow_shares == 0 {
        return Ok(0);
    }
    let bad_debt = match to_assets_up(
        remaining_borrow_shares,
        market.total_borrow_assets,
        market.total_borrow_shares,
    ) {
        Ok(v) => v,
        Err(e) => {
            return Err(e);
        },
    };
    market.total_borrow_shares = market.total_borrow_shares.saturating_sub(
        remaining_borrow_shares,
    );
    market.total_borrow_assets = market.total_borrow_assets.saturating_sub(bad_debt);
    market.total_supply_assets = market.total_supply_assets.saturating_sub(bad_debt);
    Ok(bad_debt)
}

/// For a residue of shares within the market's outstanding total, the
/// rounded-up bad debt never exceeds the outstanding borrow assets, so the
/// write-down of `socialize_bad_debt` subtracts it from both sides exactly,
/// without saturating.
pub proof fn lemma_bad_debt_within_borrow_assets(
    remaining_borrow_shares: u128,
    total_borrow_assets: u128,
    total_borrow_shares: u128,
)
    requires
        total_borrow_shares > 0,
        remaining_borrow_shares <= total_borrow_shares,
    ensures
        bad_debt_spec(remaining_borrow_shares, total_borrow_assets, total_borrow_shares)
            <= total_borrow_assets,
{
    let tba = total_borrow_assets as int;
    let tbs = total_borrow_shares as int;
    lemma_mul_inequality(remaining_borrow_shares as int, tbs, tba);
    lemma_div_is_ordered(
        remaining_borrow_shares * total_borrow_assets + tbs - 1,
        tbs * tba + tbs - 1,
        tbs,
    );
    assert(tbs * tba + tbs - 1 == tbs * tba + (tbs - 1));
    vstd::arithmetic::div_mod::lemma_div_multiples_vanish_fancy(tba, tbs - 1, tbs);
}

/// Raising a position's debt shares never turns a liquidatable position
/// healthy: the liquidation test is monotonically non-decreasing in
/// `borrow_shares`.
pub proof fn lemma_liquidatable_monotone_in_borrow_shares(
    collateral: u128,
    bs1: u128,
    bs2: u128,
    total_borrow_assets: u128,
    total_borrow_shares: u128,
    price: u128,
    lltv: u64,
)
    requires
        total_borrow_shares > 0,
        bs1 <= bs2,
        liquidatable_spec(collateral, bs1, total_borrow_assets, total_borrow_shares, price, lltv),
    ensures
        liquidatable_spec(collateral, bs2, total_borrow_assets, total_borrow_shares, price, lltv),
{
    lemma_mul_inequality(bs1 as int, bs2 as int, total_borrow_assets as int);
    lemma_div_is_ordered(
        bs1 * total_borrow_assets + total_borrow_shares - 1,
        bs2 * total_borrow_assets + total_borrow_shares - 1,
        total_borrow_shares as int,
    );
}

/// Adding collateral never turns a healthy position liquidatable: the
/// liquidation test is monotonically non-increasing in `collateral`.
pub proof fn lemma_liquidatable_antitone_in_collateral(
    c1: u128,
    c2: u128,
    borrow_shares: u128,
    total_borrow_assets: u128,
    total_borrow_shares: u128,
    price: u128,
    lltv: u64,
)
    requires
        c1 <= c2,
        liquidatable_spec(c2, borrow_shares, total_borrow_assets, total_borrow_shares, price, lltv),
    ensures
        liquidatable_spec(c1, borrow_shares, total_borrow_assets, total_borrow_shares, price, lltv),
{
    lemma_mul_inequality(c1 as int, c2 as int, price as int);
    lemma_div_is_ordered(c1 * price, c2 * price, ORACLE_SCALE as int);
    lemma_mul_inequality(
        collateral_value_spec(c1, price),
        collateral_value_spec(c2, price),
        lltv as int,
    );
    lemma_div_is_ordered(
        collateral_value_spec(c1, price) * lltv,
        collateral_value_spec(c2, price) * lltv,
        BPS as int,
    );
}

/// A rising price never turns a healthy position liquidatable: the
/// liquidation test is monotonically non-increasing in `price`.
pub proof fn lemma_liquidatable_antitone_in_price(
    collateral: u128,
    borrow_shares: u128,
    total_borrow_assets: u128,
    total_borrow_shares: u128,
    p1: u128,
    p2: u128,
    lltv: u64,
)
    requires
        p1 <= p2,
        liquidatable_spec(collateral, borrow_shares, total_borrow_assets, total_borrow_shares, p2, lltv),
    ensures
        liquidatable_spec(collateral, borrow_shares, total_borrow_assets, total_borrow_shares, p1, lltv),
{
    lemma_mul_inequality(p1 as int, p2 as int, collateral as int);
    lemma_div_is_ordered(collateral * p1, collateral * p2, ORACLE_SCALE as int);
    lemma_mul_inequality(
        collateral_value_spec(collateral, p1),
        collateral_value_spec(collateral, p2),
        lltv as int,
    );
    lemma_div_is_ordered(
        collateral_value_spec(collateral, p1) * lltv,
        collateral_value_spec(collateral, p2) * lltv,
        BPS as int,
    );
}

/// At the boundary, where the rounded-up debt equals the borrowing capacity
/// exactly, a position is healthy.
pub proof fn lemma_healthy_at_boundary(
    collateral: u128,
    borrow_shares: u128,
    total_borrow_assets: u128,
    total_borrow_shares: u128,
    price: u128,
    lltv: u64,
)
    requires
        borrowed_assets_spec(borrow_shares, total_borrow_assets, total_borrow_shares)
            == max_borrow_spec(collateral, price, lltv),
    ensures
        !liquidatable_spec(
            collateral,
            borrow_shares,
            total_borrow_assets,
            total_borrow_shares,
            price,
            lltv,
        ),
{
}

/// The incentive factor never exceeds its configured ceiling.
pub proof fn lemma_lif_bounded(lltv: u64)
    ensures
        calculate_lif_spec(lltv) <= MAX_LIF,
{
}

/// Safer markets need less incentive: the incentive factor is monotonically
/// non-increasing as the loan-to-value threshold rises.
pub proof fn lemma_lif_nonincreasing(lltv1: u64, lltv2: u64)
    requires
        lltv1 <= lltv2,
    ensures
        calculate_lif_spec(lltv2) <= calculate_lif_spec(lltv1),
{
    let om1: int = if lltv1 >= BPS { 0 } else { BPS - lltv1 };
    let om2: int = if lltv2 >= BPS { 0 } else { BPS - lltv2 };
    lemma_mul_inequality(om2, om1, LIF_CURSOR as int);
    lemma_div_is_ordered(LIF_CURSOR * om2, LIF_CURSOR * om1, LIF_BPS as int);
    let ct1 = lif_cursor_term(lltv1);
    let ct2 = lif_cursor_term(lltv2);
    let den1: int = if ct1 >= LIF_BPS { 0 } else { LIF_BPS - ct1 };
    let den2: int = if ct2 >= LIF_BPS { 0 } else { LIF_BPS - ct2 };
    if den1 == 0 {
        lemma_lif_bounded(lltv2);
    } else {
        lemma_div_is_ordered_by_denominator(LIF_BPS * LIF_BPS, den1, den2);
    }
}

/// A threshold of a full `BPS` (no risk buffer) yields the smallest
/// incentive factor of all thresholds.
pub proof fn lemma_lif_minimal_at_full_lltv(lltv: u64)
    ensures
        calculate_lif_spec(BPS) <= calculate_lif_spec(lltv),
{
    if lltv <= BPS {
        lemma_lif_nonincreasing(lltv, BPS);
    } else {
        lemma_lif_nonincreasing(BPS, lltv);
    }
}

} // verus!
