//! Rounding-aware multiply-then-divide and share/asset conversion.

use vstd::prelude::*;
use vstd::arithmetic::div_mod::{
    lemma_div_multiples_vanish_fancy, lemma_fundamental_div_mod,
};

use crate::errors::MorphoError;

verus! {

/// Ceiling division of a non-negative integer by a positive one.
pub open spec fn ceil_div(x: int, d: int) -> int
    recommends
        x >= 0,
        d > 0,
{
    (x + d - 1) / d
}

/// Relates ceiling division to floor division and the remainder.
proof fn lemma_ceil_div_structure(x: int, d: int)
    requires
        x >= 0,
        d > 0,
    ensures
        x % d == 0 ==> ceil_div(x, d) == x / d,
        x % d != 0 ==> ceil_div(x, d) == x / d + 1,
{
    let q = x / d;
    let r = x % d;
    lemma_fundamental_div_mod(x, d);
    if r == 0 {
        assert(x + d - 1 == d * q + (d - 1));
        lemma_div_multiples_vanish_fancy(q, d - 1, d);
    } else {
        assert(d * (q + 1) == d * q + d) by (nonlinear_arith);
        assert(x + d - 1 == d * (q + 1) + (r - 1));
        lemma_div_multiples_vanish_fancy(q + 1, r - 1, d);
    }
}

/// `floor(a * b / c)`, failing on a zero divisor or a product beyond `u128`.
pub fn mul_div_down(a: u128, b: u128, c: u128) -> (r: Result<u128, MorphoError>)
    ensures
        c == 0 || a * b > u128::MAX ==> r == Err::<u128, MorphoError>(MorphoError::MathOverflow),
        c != 0 && a * b <= u128::MAX ==> r == Ok::<u128, MorphoError>(((a * b) / (c as int)) as u128)
            && 0 <= (a * b) / (c as int) <= u128::MAX,
{
    match a.checked_mul(b) {
        Some(p) => match p.checked_div(c) {
            Some(q) => Ok(q),
            None => Err(MorphoError::MathOverflow),
        },
        None => Err(MorphoError::MathOverflow),
    }
}

/// `ceil(a * b / c)`, failing on a zero divisor or a product beyond `u128`.
pub fn mul_div_up(a: u128, b: u128, c: u128) -> (r: Result<u128, MorphoError>)
    ensures
        c == 0 || a * b > u128::MAX ==> r == Err::<u128, MorphoError>(MorphoError::MathOverflow),
        c != 0 && a * b <= u128::MAX ==> r == Ok::<u128, MorphoError>(
            ceil_div(a * b, c as int) as u128,
        ) && 0 <= ceil_div(a * b, c as int) <= u128::MAX,
{
    let p = match a.checked_mul(b) {
        Some(p) => p,
        None => {
            return Err(MorphoError::MathOverflow);
        },
    };
    if c == 0 {
        return Err(MorphoError::MathOverflow);
    }
    let q = p / c;
    let rem = p % c;
    proof {
        lemma_ceil_div_structure(p as int, c as int);
    }
    if rem == 0 {
        Ok(q)
    } else {
        proof {
            lemma_fundamental_div_mod(p as int, c as int);
            assert(q * c >= q) by (nonlinear_arith)
                requires
                    q >= 0,
                    c >= 1,
            ;
        }
        Ok(q + 1)
    }
}

/// Converts borrow shares to an asset amount, rounding up so that debt is
/// never under-counted.
pub fn to_assets_up(shares: u128, total_assets: u128, total_shares: u128) -> (r: Result<
    u128,
    MorphoError,
>)
    ensures
        total_shares == 0 || shares * total_assets > u128::MAX ==> r == Err::<
            u128,
            MorphoError,
        >(MorphoError::MathOverflow),
        total_shares != 0 && shares * total_assets <= u128::MAX ==> r == Ok::<
            u128,
            MorphoError,
        >(ceil_div(shares * total_assets, total_shares as int) as u128)
            && 0 <= ceil_div(shares * total_assets, total_shares as int) <= u128::MAX,
{
    mul_div_up(shares, total_assets, total_shares)
}

} // verus!
