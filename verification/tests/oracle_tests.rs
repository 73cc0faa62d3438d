use morpho_oracle::constants::ORACLE_SCALE;
use morpho_oracle::errors::MorphoError;
use morpho_oracle::oracle::{
    check_price_bounds, decimal_to_oracle_scale, feed_median_value, get_oracle_price_validated,
    get_switchboard_price_validated, max_oracle_price, oracle_key_matches,
    parse_static_oracle_price, pow10_u128,
};
use morpho_oracle::state::{Market, StaticOracle};

const KEY: [u8; 32] = [7u8; 32];

fn market() -> Market {
    Market {
        total_supply_assets: 5000,
        total_supply_shares: 5000,
        total_borrow_assets: 1000,
        total_borrow_shares: 1000,
        oracle: KEY,
        lltv: 8000,
    }
}

fn static_oracle_bytes(price: u128) -> Vec<u8> {
    let mut data = vec![0u8; StaticOracle::space()];
    data[8] = 255; // bump
    data[9..25].copy_from_slice(&price.to_le_bytes());
    data
}

#[test]
fn max_price_saturates() {
    // 10^36 * 10^9 exceeds u128::MAX, so the bound clamps to it.
    assert_eq!(max_oracle_price(), u128::MAX);
}

#[test]
fn powers_of_ten() {
    assert_eq!(pow10_u128(0), 1);
    assert_eq!(pow10_u128(3), 1000);
    assert_eq!(pow10_u128(38), 100_000_000_000_000_000_000_000_000_000_000_000_000);
}

#[test]
fn scaling_multiplies_small_scales_up() {
    // mantissa 2000, scale 3: 2000 * 10^33 = 2 * 10^36.
    assert_eq!(decimal_to_oracle_scale(2000, 3), Ok(2 * ORACLE_SCALE));
    // Scale exactly 36 keeps the mantissa.
    assert_eq!(decimal_to_oracle_scale(123_456, 36), Ok(123_456));
}

#[test]
fn scaling_divides_large_scales_down() {
    // mantissa 12345, scale 40: floor(12345 / 10^4) = 1.
    assert_eq!(decimal_to_oracle_scale(12_345, 40), Ok(1));
    // Truncation drops the excess precision entirely.
    assert_eq!(decimal_to_oracle_scale(9_999, 40), Ok(0));
}

#[test]
fn scaling_overflow_is_reported() {
    let r = decimal_to_oracle_scale(1_000_000_000_000_000_000_000_000_000_000, 0);
    assert_eq!(r, Err(MorphoError::MathOverflow));
}

#[test]
fn bounds_reject_a_zero_price() {
    assert_eq!(check_price_bounds(0), Err(MorphoError::OraclePriceTooLow));
    assert_eq!(check_price_bounds(1), Ok(1));
    // The saturated ceiling admits every representable price.
    assert_eq!(check_price_bounds(u128::MAX), Ok(u128::MAX));
}

#[test]
fn static_oracle_roundtrip() {
    let price: u128 = 3 * ORACLE_SCALE;
    let data = static_oracle_bytes(price);
    assert_eq!(parse_static_oracle_price(&data), Ok(price));
}

#[test]
fn static_oracle_ignores_trailing_bytes() {
    let price: u128 = 42;
    let mut data = static_oracle_bytes(price);
    data.extend_from_slice(&[9u8; 100]);
    assert_eq!(parse_static_oracle_price(&data), Ok(price));
}

#[test]
fn short_static_oracle_is_invalid() {
    let data = vec![0u8; 20];
    assert_eq!(
        parse_static_oracle_price(&data),
        Err(MorphoError::OracleInvalidReturnData)
    );
}

#[test]
fn zero_static_price_is_too_low() {
    let data = static_oracle_bytes(0);
    assert_eq!(
        parse_static_oracle_price(&data),
        Err(MorphoError::OraclePriceTooLow)
    );
}

#[test]
fn key_comparison() {
    assert!(oracle_key_matches(&KEY, &KEY));
    let mut other = KEY;
    other[31] = 8;
    assert!(!oracle_key_matches(&KEY, &other));
}

#[test]
fn mismatched_oracle_is_rejected() {
    let m = market();
    let data = static_oracle_bytes(ORACLE_SCALE);
    let wrong_key = [9u8; 32];
    assert_eq!(
        get_oracle_price_validated(&wrong_key, &data, &m, 100),
        Err(MorphoError::InvalidOracle)
    );
    let big = vec![0u8; 1200];
    assert_eq!(
        get_switchboard_price_validated(&wrong_key, &big, &m, 100),
        Err(MorphoError::InvalidOracle)
    );
}

#[test]
fn small_account_resolves_through_static_path() {
    let m = market();
    let price: u128 = 5 * ORACLE_SCALE;
    let data = static_oracle_bytes(price);
    assert_eq!(get_oracle_price_validated(&KEY, &data, &m, 0), Ok(price));
}

#[test]
fn short_account_is_invalid_return_data() {
    let m = market();
    let data = vec![0u8; 20];
    assert_eq!(
        get_oracle_price_validated(&KEY, &data, &m, 0),
        Err(MorphoError::OracleInvalidReturnData)
    );
}

#[test]
fn garbage_feed_falls_back_to_static_layout() {
    // Large enough for the feed path, but without the feed discriminator:
    // the gateway re-reads the bytes as a static oracle.
    let m = market();
    let price: u128 = 7 * ORACLE_SCALE;
    let mut data = vec![0u8; 1200];
    data[9..25].copy_from_slice(&price.to_le_bytes());
    assert_eq!(get_oracle_price_validated(&KEY, &data, &m, 100), Ok(price));
}

#[test]
fn empty_feed_is_stale() {
    // A zeroed account of the exact feed size with the right discriminator
    // parses, but holds no submissions: too few samples, hence stale.
    let m = market();
    let size = 8 + std::mem::size_of::<switchboard_on_demand::PullFeedAccountData>();
    assert!(size >= 1000);
    let mut data = vec![0u8; size];
    data[..8].copy_from_slice(&[196, 27, 108, 196, 10, 215, 219, 40]);
    assert_eq!(
        get_switchboard_price_validated(&KEY, &data, &m, 100),
        Err(MorphoError::OracleStale)
    );
    // Through the combined gateway the stale feed falls back to the static
    // layout, whose zeroed price bytes are below the minimum.
    assert_eq!(
        get_oracle_price_validated(&KEY, &data, &m, 100),
        Err(MorphoError::OraclePriceTooLow)
    );
}

// A pull-feed account whose leading submissions carry the given (signing
// slot, value) pairs; everything else stays zeroed. A submission occupies 64
// bytes (32-byte oracle key, two u64 slots, an i128 value), and the
// submissions array opens the account body right after the discriminator.
fn feed_bytes(submissions: &[(u64, i128)]) -> Vec<u8> {
    let size = 8 + std::mem::size_of::<switchboard_on_demand::PullFeedAccountData>();
    let mut data = vec![0u8; size];
    data[..8].copy_from_slice(&[196, 27, 108, 196, 10, 215, 219, 40]);
    for (k, (slot, value)) in submissions.iter().enumerate() {
        let base = 8 + 64 * k;
        data[base + 32..base + 40].copy_from_slice(&slot.to_le_bytes());
        data[base + 48..base + 64].copy_from_slice(&value.to_le_bytes());
    }
    data
}

const WAD_I: i128 = 1_000_000_000_000_000_000;

#[test]
fn single_fresh_submission_resolves() {
    let m = market();
    let data = feed_bytes(&[(100, 3 * WAD_I)]);
    // One fresh value of 3.0 at the feed's 18-digit precision: 3 * 10^36.
    assert_eq!(
        get_switchboard_price_validated(&KEY, &data, &m, 100),
        Ok(3 * ORACLE_SCALE)
    );
    assert_eq!(
        get_oracle_price_validated(&KEY, &data, &m, 100),
        Ok(3 * ORACLE_SCALE)
    );
}

#[test]
fn median_of_fresh_submissions_is_selected() {
    let m = market();
    // Odd count: the middle of the ascending sort.
    let data = feed_bytes(&[(100, 3 * WAD_I), (70, WAD_I), (51, 2 * WAD_I)]);
    assert_eq!(
        get_switchboard_price_validated(&KEY, &data, &m, 100),
        Ok(2 * ORACLE_SCALE)
    );
    // Even count: the upper-middle element.
    let data = feed_bytes(&[(100, 4 * WAD_I), (100, WAD_I), (100, 3 * WAD_I), (100, 2 * WAD_I)]);
    assert_eq!(
        get_switchboard_price_validated(&KEY, &data, &m, 100),
        Ok(3 * ORACLE_SCALE)
    );
}

#[test]
fn submissions_stop_at_the_first_empty_one() {
    let m = market();
    // The third submission is live, but sits behind an empty (slot-zero)
    // one, so the reader never sees it.
    let data = feed_bytes(&[(100, 2 * WAD_I), (0, 9 * WAD_I), (100, 9 * WAD_I)]);
    assert_eq!(
        get_switchboard_price_validated(&KEY, &data, &m, 100),
        Ok(2 * ORACLE_SCALE)
    );
}

#[test]
fn old_submissions_are_stale() {
    let m = market();
    // Signed at slot 10, read at slot 100 with a 50-slot window.
    let data = feed_bytes(&[(10, 3 * WAD_I)]);
    assert_eq!(
        get_switchboard_price_validated(&KEY, &data, &m, 100),
        Err(MorphoError::OracleStale)
    );
}

#[test]
fn non_positive_median_is_stale() {
    let m = market();
    let data = feed_bytes(&[(100, -5)]);
    assert_eq!(
        get_switchboard_price_validated(&KEY, &data, &m, 100),
        Err(MorphoError::OracleStale)
    );
}

#[test]
fn oversized_submission_value_overflows() {
    let m = market();
    // A crafted account can carry any i128; scaling it up overflows and is
    // reported, not panicked on.
    let data = feed_bytes(&[(100, i128::MAX)]);
    assert_eq!(
        get_switchboard_price_validated(&KEY, &data, &m, 100),
        Err(MorphoError::MathOverflow)
    );
}

#[test]
fn median_selection_on_plain_values() {
    // Window [50, 100]: the value at slot 10 is out; of 7 and 5 the
    // upper-middle of the ascending sort is 7.
    let subs = vec![(100u64, 7i128), (60, 5), (10, 1)];
    assert_eq!(feed_median_value(&subs, 100, 50, 1, true), Ok(7));
    // Demanding three samples when only two are fresh reads as stale.
    assert_eq!(
        feed_median_value(&subs, 100, 50, 3, true),
        Err(MorphoError::OracleStale)
    );
    // Without the positivity demand a negative median is returned.
    let negative = vec![(100u64, -4i128)];
    assert_eq!(feed_median_value(&negative, 100, 50, 1, false), Ok(-4));
    assert_eq!(
        feed_median_value(&negative, 100, 50, 1, true),
        Err(MorphoError::OracleStale)
    );
}

#[test]
fn static_oracle_space() {
    assert_eq!(StaticOracle::space(), 57);
}
