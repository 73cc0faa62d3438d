//! Error kinds of the lending core.

use vstd::prelude::*;

verus! {

/// Everything that can go wrong while resolving a price or settling a
/// liquidation. Every fallible operation of this crate reports one of these
/// kinds; none is recovered internally except the deliberate feed-to-static
/// fallback of the price gateway.
#[derive(Clone, Copy, Debug, PartialEq, Eq, Structural)]
pub enum MorphoError {
    /// The supplied oracle account is not the market's configured oracle.
    InvalidOracle,
    /// The oracle bytes are malformed in either source format.
    OracleInvalidReturnData,
    /// The feed value is too old or has too few samples.
    OracleStale,
    /// The resolved price is below the configured minimum.
    OraclePriceTooLow,
    /// The resolved price is above the saturating maximum ratio.
    OraclePriceTooHigh,
    /// An arithmetic step exceeded the representable range.
    MathOverflow,
}

} // verus!
