//! Trusted boundary to the Switchboard pull feed.
//!
//! The boundary is one conversion: account bytes in, the feed's submissions
//! out as plain (signing slot, value) pairs. Everything the feed's reader
//! computes from the submissions — the staleness window, the sample count,
//! the median, the positivity check — is reimplemented as verified code in
//! the oracle gateway, so no contract here has to speak of it.

use vstd::prelude::*;

use crate::errors::MorphoError;

verus! {

#[verifier::external_type_specification]
#[verifier::external_body]
pub struct ExPullFeedAccountData(switchboard_on_demand::PullFeedAccountData);

/// What the submissions of a pull-feed account hold, as (signing slot,
/// value) pairs in account order, or nothing where the bytes do not parse.
/// Parse checks the 8-byte discriminator and the account length, so its
/// outcome is a function of the byte content alone.
pub uninterp spec fn feed_submissions_of(data: Seq<u8>) -> Option<Seq<(u64, i128)>>;

/// Relies on switchboard_on_demand::PullFeedAccountData::parse: checks the
/// 8-byte account discriminator and casts the remaining bytes to the feed
/// layout, rejecting short or mismatched data, and never panicking. The
/// bytes are first copied into aligned storage (bytemuck::cast_slice_mut),
/// at an offset that puts what follows the discriminator on a 16-byte
/// boundary, since parse refuses unaligned input; the copy makes the outcome
/// independent of the caller's buffer placement. The submissions are handed
/// out as their plain (slot, value) fields, in account order.
#[verifier::external_body]
pub(crate) fn read_feed_submissions(data: &[u8]) -> (r: Result<Vec<(u64, i128)>, MorphoError>)
    ensures
        r matches Ok(subs) ==> feed_submissions_of(data@) == Some(subs@),
        r matches Err(e) ==> e == MorphoError::OracleInvalidReturnData && feed_submissions_of(
            data@,
        ) is None,
{
    let mut aligned: Vec<u128> = vec![0u128; data.len() / 16 + 2];
    let bytes: &mut [u8] = bytemuck::cast_slice_mut(aligned.as_mut_slice());
    bytes[8..8 + data.len()].copy_from_slice(data);
    let trimmed: &mut [u8] = &mut bytes[8..8 + data.len()];
    let cell = core::cell::RefCell::new(trimmed);
    let parsed = match switchboard_on_demand::PullFeedAccountData::parse(cell.borrow()) {
        Ok(feed) => Ok(feed.submissions.iter().map(|s| (s.slot, s.value)).collect()),
        Err(_) => Err(MorphoError::OracleInvalidReturnData),
    };
    parsed
}

} // verus!
