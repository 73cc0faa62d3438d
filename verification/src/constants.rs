//! Deployment configuration constants for the lending core.

use vstd::prelude::*;

verus! {

/// Fixed scale of an oracle price reading: collateral tokens per one loan
/// token, times `10^36`.
pub const ORACLE_SCALE: u128 = 1_000_000_000_000_000_000_000_000_000_000_000_000;

/// Basis points: 10_000 is 100%.
pub const BPS: u64 = 10_000;

/// Fixed-point unit used by the health factor: `10^18` is 1.0.
pub const WAD: u128 = 1_000_000_000_000_000_000;

/// Smallest oracle price accepted by the bound checks.
pub const MIN_ORACLE_PRICE: u128 = 1;

/// Maximum staleness of oracle data, in slots (~400ms per slot).
pub const MAX_ORACLE_STALENESS: u64 = 50;

/// Minimum number of oracle samples required.
pub const MIN_ORACLE_SAMPLES: u32 = 1;

/// Fixed decimal precision of feed values: a submission's integer value
/// stands for itself times `10^-18`.
pub const FEED_PRECISION: u32 = 18;

/// Basis-point unit of the liquidation incentive factor.
pub const LIF_BPS: u64 = 10_000;

/// Cursor of the liquidation incentive formula, in `LIF_BPS` units.
pub const LIF_CURSOR: u64 = 3_000;

/// Ceiling of the liquidation incentive factor, in `LIF_BPS` units (1.15x).
pub const MAX_LIF: u64 = 11_500;

} // verus!
