//! Pool-wide market state and the static test oracle layout.

use vstd::prelude::*;

verus! {

/// Aggregate accounting of one lending market.
///
/// `total_borrow_assets <= total_supply_assets` is the desired steady state
/// but is not guaranteed pointwise: bad debt is exactly the event where it is
/// violated before socialization writes `total_supply_assets` down again.
pub struct Market {
    pub total_supply_assets: u128,
    pub total_supply_shares: u128,
    pub total_borrow_assets: u128,
    pub total_borrow_shares: u128,
    /// Identity of the authoritative price source for this market.
    pub oracle: [u8; 32],
    /// Liquidation loan-to-value threshold, in basis points.
    pub lltv: u64,
}

/// Configuration account of the static price oracle (testing only):
/// a fixed price scaled by `ORACLE_SCALE` and the admin who may update it.
pub struct StaticOracle {
    pub bump: u8,
    /// Fixed price scaled by `ORACLE_SCALE`.
    pub price: u128,
    /// Admin who can update the price.
    pub admin: [u8; 32],
}

impl StaticOracle {
    /// Serialized size of the account: an 8-byte discriminator, the bump,
    /// the little-endian price, and the admin key.
    pub fn space() -> (r: usize)
        ensures
            r == 8 + 1 + 16 + 32,
    {
        8 + 1 + 16 + 32
    }
}

} // verus!
