//! Price oracle gateway: resolves a validated collateral-per-loan-token
//! price for a market from a Switchboard pull feed or a static test oracle.

use vstd::prelude::*;
use vstd::bytes::{spec_u128_from_le_bytes, u128_from_le_bytes};
use vstd::slice::slice_subrange;

use crate::constants::{
    FEED_PRECISION, MAX_ORACLE_STALENESS, MIN_ORACLE_PRICE, MIN_ORACLE_SAMPLES, ORACLE_SCALE,
};
use crate::errors::MorphoError;
use crate::feed::{feed_submissions_of, read_feed_submissions};
use crate::state::Market;

verus! {

/// The saturating upper bound of a price reading: a one-billion ratio at
/// full scale, which exceeds `u128::MAX` and therefore clamps to it.
pub open spec fn max_oracle_price_spec() -> int {
    if ORACLE_SCALE * 1_000_000_000 > u128::MAX {
        u128::MAX as int
    } else {
        ORACLE_SCALE * 1_000_000_000
    }
}

/// Maximum oracle price (a one-billion ratio), computed at runtime with
/// saturation because the full product overflows `u128`.
pub fn max_oracle_price() -> (r: u128)
    ensures
        r == max_oracle_price_spec(),
{
    ORACLE_SCALE.checked_mul(1_000_000_000).unwrap_or(u128::MAX)
}

/// `10^k` over the naturals.
pub open spec fn pow10(k: nat) -> nat
    decreases k,
{
    if k == 0 {
        1
    } else {
        10 * pow10((k - 1) as nat)
    }
}

proof fn lemma_pow10_monotone(i: nat, j: nat)
    requires
        i <= j,
    ensures
        pow10(i) <= pow10(j),
    decreases j,
{
    if i < j {
        lemma_pow10_monotone(i, (j - 1) as nat);
    }
}

proof fn lemma_pow10_38_value()
    ensures
        pow10(38) == 100_000_000_000_000_000_000_000_000_000_000_000_000,
{
    reveal_with_fuel(pow10, 39);
}

/// Computes `10^k` for every exponent whose power of ten fits a `u128`.
pub fn pow10_u128(k: u32) -> (r: u128)
    requires
        k <= 38,
    ensures
        r == pow10(k as nat),
{
    let mut acc: u128 = 1;
    let mut i: u32 = 0;
    while i < k
        invariant
            i <= k <= 38,
            acc == pow10(i as nat),
        decreases k - i,
    {
        proof {
            lemma_pow10_monotone((i + 1) as nat, 38);
            lemma_pow10_38_value();
        }
        acc = acc * 10;
        i = i + 1;
    }
    acc
}

/// Converts a decimal mantissa/scale pair to the fixed `10^36` price scale:
/// a scale at most 36 multiplies the mantissa up, failing on overflow; a
/// larger scale divides down, silently truncating the excess precision. The
/// scale may exceed 36 by at most 38, so that the dividing power of ten
/// still fits a `u128`; feed decimals never exceed a scale of 28.
pub fn decimal_to_oracle_scale(mantissa_abs: u128, scale: u32) -> (r: Result<u128, MorphoError>)
    requires
        scale <= 74,
    ensures
        scale <= 36 && mantissa_abs * pow10((36 - scale) as nat) <= u128::MAX ==> r == Ok::<
            u128,
            MorphoError,
        >((mantissa_abs * pow10((36 - scale) as nat)) as u128),
        scale <= 36 && mantissa_abs * pow10((36 - scale) as nat) > u128::MAX ==> r == Err::<
            u128,
            MorphoError,
        >(MorphoError::MathOverflow),
        scale > 36 ==> r == Ok::<u128, MorphoError>(
            (mantissa_abs as int / pow10((scale - 36) as nat) as int) as u128,
        ),
{
    if scale <= 36 {
        let factor = pow10_u128(36 - scale);
        match mantissa_abs.checked_mul(factor) {
            Some(price) => Ok(price),
            None => Err(MorphoError::MathOverflow),
        }
    } else {
        let factor = pow10_u128(scale - 36);
        proof {
            lemma_pow10_monotone(0, (scale - 36) as nat);
        }
        Ok(mantissa_abs / factor)
    }
}

/// Result of holding a raw price reading to the configured bounds.
pub open spec fn bounded_price_spec(price: u128) -> Result<u128, MorphoError> {
    if price < MIN_ORACLE_PRICE {
        Err(MorphoError::OraclePriceTooLow)
    } else if price > max_oracle_price_spec() {
        Err(MorphoError::OraclePriceTooHigh)
    } else {
        Ok(price)
    }
}

/// Applies the final price bound checks shared by both oracle formats.
pub fn check_price_bounds(price: u128) -> (r: Result<u128, MorphoError>)
    ensures
        r == bounded_price_spec(price),
{
    if price < MIN_ORACLE_PRICE {
        return Err(MorphoError::OraclePriceTooLow);
    }
    if price > max_oracle_price() {
        return Err(MorphoError::OraclePriceTooHigh);
    }
    Ok(price)
}

/// The price encoded in a static oracle account: sixteen little-endian
/// bytes after the 8-byte discriminator and the 1-byte bump.
pub open spec fn static_price_of(data: Seq<u8>) -> u128
    recommends
        data.len() >= 25,
{
    spec_u128_from_le_bytes(data.subrange(9, 25))
}

/// Result of parsing a static oracle account: accounts shorter than 25
/// bytes are malformed; the encoded price is then bound-checked. Trailing
/// bytes are ignored.
pub open spec fn parse_static_spec(data: Seq<u8>) -> Result<u128, MorphoError> {
    if data.len() < 25 {
        Err(MorphoError::OracleInvalidReturnData)
    } else {
        bounded_price_spec(static_price_of(data))
    }
}

/// Parses a price from static-oracle account data.
pub fn parse_static_oracle_price(data: &[u8]) -> (r: Result<u128, MorphoError>)
    ensures
        r == parse_static_spec(data@),
{
    if data.len() < 25 {
        return Err(MorphoError::OracleInvalidReturnData);
    }
    let raw = slice_subrange(data, 9, 25);
    let price = u128_from_le_bytes(raw);
    check_price_bounds(price)
}

/// Compares an oracle account key with a configured oracle identity.
pub fn oracle_key_matches(key: &[u8; 32], configured: &[u8; 32]) -> (r: bool)
    ensures
        r == (key@ == configured@),
{
    let mut i: usize = 0;
    while i < 32
        invariant
            i <= 32,
            forall|j: int| 0 <= j < i ==> key@[j] == configured@[j],
        decreases 32 - i,
    {
        if key[i] != configured[i] {
            return false;
        }
        i = i + 1;
    }
    proof {
        assert(key@ =~= configured@);
    }
    true
}

/// The values of the leading run of live submissions (the feed's reader
/// stops at the first empty one, whose signing slot is zero) that were
/// signed at or after the threshold slot, in account order.
pub open spec fn fresh_values(subs: Seq<(u64, i128)>, threshold: u64) -> Seq<i128>
    decreases subs.len(),
{
    if subs.len() == 0 {
        Seq::empty()
    } else if subs[0].0 == 0 {
        Seq::empty()
    } else if subs[0].0 >= threshold {
        seq![subs[0].1] + fresh_values(subs.drop_first(), threshold)
    } else {
        fresh_values(subs.drop_first(), threshold)
    }
}

/// Inserts a value into a sequence before its first element not below it.
pub open spec fn insert_sorted(v: i128, s: Seq<i128>) -> Seq<i128>
    decreases s.len(),
{
    if s.len() == 0 {
        seq![v]
    } else if v <= s[0] {
        seq![v] + s
    } else {
        seq![s[0]] + insert_sorted(v, s.drop_first())
    }
}

/// The ascending sort of a sequence, by insertion from the back.
pub open spec fn sort_seq(s: Seq<i128>) -> Seq<i128>
    decreases s.len(),
{
    if s.len() == 0 {
        Seq::empty()
    } else {
        insert_sorted(s.last(), sort_seq(s.drop_last()))
    }
}

proof fn lemma_insert_sorted_len(v: i128, s: Seq<i128>)
    ensures
        insert_sorted(v, s).len() == s.len() + 1,
    decreases s.len(),
{
    if s.len() != 0 && v > s[0] {
        lemma_insert_sorted_len(v, s.drop_first());
    }
}

proof fn lemma_sort_seq_len(s: Seq<i128>)
    ensures
        sort_seq(s).len() == s.len(),
    decreases s.len(),
{
    if s.len() != 0 {
        lemma_sort_seq_len(s.drop_last());
        lemma_insert_sorted_len(s.last(), sort_seq(s.drop_last()));
    }
}

/// Inserting before the first element not below `v` is what `insert_sorted`
/// does.
proof fn lemma_insert_sorted_at(v: i128, s: Seq<i128>, j: int)
    requires
        0 <= j <= s.len(),
        forall|k: int| 0 <= k < j ==> s[k] < v,
        j < s.len() ==> v <= s[j],
    ensures
        insert_sorted(v, s) == s.insert(j, v),
    decreases j,
{
    if j == 0 {
        assert(insert_sorted(v, s) =~= s.insert(0, v));
    } else {
        lemma_insert_sorted_at(v, s.drop_first(), j - 1);
        assert(insert_sorted(v, s) =~= s.insert(j, v));
    }
}

/// The value the feed's reader selects from a non-empty set of fresh
/// values: the element at the upper-middle index of their ascending sort.
pub open spec fn median_of(vals: Seq<i128>) -> i128
    recommends
        vals.len() > 0,
{
    sort_seq(vals)[vals.len() as int / 2]
}

/// What the feed's reader computes from the submissions: the median of the
/// values signed within the staleness window, of which at least
/// `min_samples` and at least one must exist, and which must be positive
/// when `only_positive` is set; every violation reads as a stale feed.
pub open spec fn feed_value_spec(
    subs: Seq<(u64, i128)>,
    clock_slot: u64,
    max_staleness: u64,
    min_samples: u32,
    only_positive: bool,
) -> Result<i128, MorphoError>
    recommends
        max_staleness <= clock_slot,
{
    let vals = fresh_values(subs, (clock_slot - max_staleness) as u64);
    if vals.len() < min_samples {
        Err(MorphoError::OracleStale)
    } else if vals.len() == 0 {
        Err(MorphoError::OracleStale)
    } else if only_positive && median_of(vals) <= 0 {
        Err(MorphoError::OracleStale)
    } else {
        Ok(median_of(vals))
    }
}

/// Collects the fresh submission values, as `fresh_values` states them.
fn collect_fresh_values(subs: &Vec<(u64, i128)>, threshold: u64) -> (r: Vec<i128>)
    ensures
        r@ == fresh_values(subs@, threshold),
{
    let mut out: Vec<i128> = Vec::new();
    let mut i: usize = 0;
    proof {
        assert(subs@.skip(0) =~= subs@);
        assert(Seq::<i128>::empty() + fresh_values(subs@, threshold) =~= fresh_values(
            subs@,
            threshold,
        ));
    }
    while i < subs.len()
        invariant
            i <= subs@.len(),
            fresh_values(subs@, threshold) == out@ + fresh_values(
                subs@.skip(i as int),
                threshold,
            ),
        decreases subs@.len() - i,
    {
        let (slot, value) = subs[i];
        proof {
            assert(subs@.skip(i as int)[0] == subs@[i as int]);
            assert(subs@.skip(i as int).drop_first() =~= subs@.skip(i as int + 1));
        }
        if slot == 0 {
            proof {
                assert(out@ + fresh_values(subs@.skip(i as int), threshold) =~= out@);
            }
            return out;
        }
        if slot >= threshold {
            let ghost previous = out@;
            out.push(value);
            proof {
                assert(previous + (seq![value] + fresh_values(subs@.skip(i as int + 1), threshold))
                    =~= out@ + fresh_values(subs@.skip(i as int + 1), threshold));
            }
        }
        i = i + 1;
    }
    proof {
        assert(subs@.skip(subs@.len() as int) =~= Seq::<(u64, i128)>::empty());
        assert(out@ + Seq::<i128>::empty() =~= out@);
    }
    out
}

/// Inserts a value into an ascending vector, keeping it ascending.
fn insert_sorted_exec(values: &mut Vec<i128>, v: i128)
    ensures
        final(values)@ == insert_sorted(v, old(values)@),
{
    let mut j: usize = 0;
    while j < values.len() && values[j] < v
        invariant
            j <= values@.len(),
            values@ == old(values)@,
            forall|k: int| 0 <= k < j ==> values@[k] < v,
        decreases values@.len() - j,
    {
        j = j + 1;
    }
    proof {
        lemma_insert_sorted_at(v, values@, j as int);
    }
    values.insert(j, v);
}

/// Sorts the values ascending, as `sort_seq` states them.
fn sort_values(values: &Vec<i128>) -> (r: Vec<i128>)
    ensures
        r@ == sort_seq(values@),
{
    let mut out: Vec<i128> = Vec::new();
    let mut i: usize = 0;
    while i < values.len()
        invariant
            i <= values@.len(),
            out@ == sort_seq(values@.take(i as int)),
        decreases values@.len() - i,
    {
        insert_sorted_exec(&mut out, values[i]);
        proof {
            assert(values@.take(i as int + 1).drop_last() =~= values@.take(i as int));
            assert(values@.take(i as int + 1).last() == values@[i as int]);
        }
        i = i + 1;
    }
    proof {
        assert(values@.take(values@.len() as int) =~= values@);
    }
    out
}

/// Selects the feed value from the submissions, exactly as the feed's own
/// reader does: staleness window, sample floor, median, positivity. The
/// window starts `max_staleness` slots before the clock, so the slot must
/// cover it.
pub fn feed_median_value(
    subs: &Vec<(u64, i128)>,
    clock_slot: u64,
    max_staleness: u64,
    min_samples: u32,
    only_positive: bool,
) -> (r: Result<i128, MorphoError>)
    requires
        max_staleness <= clock_slot,
    ensures
        r == feed_value_spec(subs@, clock_slot, max_staleness, min_samples, only_positive),
{
    let threshold = clock_slot - max_staleness;
    let values = collect_fresh_values(subs, threshold);
    if values.len() < min_samples as usize {
        return Err(MorphoError::OracleStale);
    }
    if values.len() == 0 {
        return Err(MorphoError::OracleStale);
    }
    let sorted = sort_values(&values);
    proof {
        lemma_sort_seq_len(values@);
    }
    let median = sorted[values.len() / 2];
    if only_positive && median <= 0 {
        return Err(MorphoError::OracleStale);
    }
    Ok(median)
}

/// The full feed reading for given account bytes and slot: parse the
/// submissions, select the median of the fresh ones, convert it from the
/// feed's fixed decimal precision to the oracle scale, and bound-check it.
/// A function of the bytes and the slot alone.
pub open spec fn switchboard_price_spec(data: Seq<u8>, clock_slot: u64) -> Result<
    u128,
    MorphoError,
>
    recommends
        MAX_ORACLE_STALENESS <= clock_slot,
{
    match feed_submissions_of(data) {
        Option::None => Err(MorphoError::OracleInvalidReturnData),
        Option::Some(subs) => match feed_value_spec(
            subs,
            clock_slot,
            MAX_ORACLE_STALENESS,
            MIN_ORACLE_SAMPLES,
            true,
        ) {
            Result::Err(e) => Err(e),
            Result::Ok(median) => {
                if median as u128 * pow10((36 - FEED_PRECISION) as nat) > u128::MAX {
                    Err(MorphoError::MathOverflow)
                } else {
                    bounded_price_spec(
                        (median as u128 * pow10((36 - FEED_PRECISION) as nat)) as u128,
                    )
                }
            },
        },
    }
}

/// Resolves a validated price from a Switchboard pull feed.
///
/// Checks, in order: the supplied handle is the market's configured oracle;
/// the bytes parse as a pull feed; a fresh, sufficiently sampled, positive
/// median exists; it converts to the fixed scale; the price lies within
/// bounds. For a matching oracle the result is exactly the feed reading of
/// the bytes and the slot, and the slot must cover the staleness window,
/// whose start is computed by subtraction.
pub fn get_switchboard_price_validated(
    oracle_key: &[u8; 32],
    oracle_data: &[u8],
    market: &Market,
    clock_slot: u64,
) -> (r: Result<u128, MorphoError>)
    requires
        oracle_key@ == market.oracle@ ==> clock_slot >= MAX_ORACLE_STALENESS,
    ensures
        oracle_key@ != market.oracle@ ==> r == Err::<u128, MorphoError>(MorphoError::InvalidOracle),
        oracle_key@ == market.oracle@ ==> r == switchboard_price_spec(oracle_data@, clock_slot),
        r matches Ok(p) ==> MIN_ORACLE_PRICE <= p <= max_oracle_price_spec(),
{
    if !oracle_key_matches(oracle_key, &market.oracle) {
        return Err(MorphoError::InvalidOracle);
    }
    let subs = match read_feed_submissions(oracle_data) {
        Ok(s) => s,
        Err(e) => {
            return Err(e);
        },
    };
    let median = match feed_median_value(
        &subs,
        clock_slot,
        MAX_ORACLE_STALENESS,
        MIN_ORACLE_SAMPLES,
        true,
    ) {
        Ok(m) => m,
        Err(e) => {
            return Err(e);
        },
    };
    let price = match decimal_to_oracle_scale(median as u128, FEED_PRECISION) {
        Ok(p) => p,
        Err(e) => {
            return Err(e);
        },
    };
    check_price_bounds(price)
}

/// Resolves a validated price from either oracle format, detected by size:
/// accounts of at least 1000 bytes are tried as Switchboard pull feeds,
/// falling back to the static layout of the same bytes when the feed path
/// fails; smaller accounts are static oracles outright.
pub fn get_oracle_price_validated(
    oracle_key: &[u8; 32],
    oracle_data: &[u8],
    market: &Market,
    clock_slot: u64,
) -> (r: Result<u128, MorphoError>)
    requires
        oracle_key@ == market.oracle@ && oracle_data@.len() >= 1000 ==> clock_slot
            >= MAX_ORACLE_STALENESS,
    ensures
        oracle_key@ != market.oracle@ ==> r == Err::<u128, MorphoError>(MorphoError::InvalidOracle),
        oracle_key@ == market.oracle@ && oracle_data@.len() < 1000 ==> r == parse_static_spec(
            oracle_data@,
        ),
        oracle_key@ == market.oracle@ && oracle_data@.len() >= 1000 ==> r == (
        match switchboard_price_spec(oracle_data@, clock_slot) {
            Result::Ok(p) => Ok::<u128, MorphoError>(p),
            Result::Err(_) => parse_static_spec(oracle_data@),
        }),
{
    if !oracle_key_matches(oracle_key, &market.oracle) {
        return Err(MorphoError::InvalidOracle);
    }
    if oracle_data.len() >= 1000 {
        match get_switchboard_price_validated(oracle_key, oracle_data, market, clock_slot) {
            Ok(price) => {
                return Ok(price);
            },
            Err(_) => {
                return parse_static_oracle_price(oracle_data);
            },
        }
    }
    parse_static_oracle_price(oracle_data)
}

} // verus!
