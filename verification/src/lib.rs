//! Risk-and-settlement core of a collateralized lending market.
//!
//! Resolves a validated collateral-per-loan-token price from one of two
//! interchangeable oracle sources, decides whether a borrowing position is
//! liquidatable, prices the liquidation incentive, sizes the collateral to
//! seize, and socializes unrecoverable bad debt across all depositors.

pub mod constants;
pub mod errors;
pub mod feed;
pub mod liquidation;
pub mod math;
pub mod oracle;
pub mod state;
