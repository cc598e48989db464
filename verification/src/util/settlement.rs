//! When a commitment's settlement has expired, and when it can settle.

use vstd::prelude::*;
use crate::common::error::ContractError;
use crate::common::security::commitments_equal;
use crate::execute::settlement::commitment::{Commitment, CommitmentModel, CommitmentState};
use crate::storage::{ContractStorage, paid_in_capital};
use crate::storage::paid_in_capital::paid_model;

verus! {

/// A settlement date has passed when the block time is after it.
pub open spec fn date_expired(now: u64, date: Option<u64>) -> bool {
    match date {
        Some(t) => now > t,
        None => false,
    }
}

/// Whether a commitment's settlement date is before the block time.
pub fn is_expired(now: u64, commitment: &Commitment) -> (b: bool)
    ensures
        b == date_expired(now, commitment.settlment_date),
{
    if let Some(settlement_time) = commitment.settlment_date {
        return now > settlement_time;
    }
    false
}

/// A commitment settles when it is accepted and its paid-in capital equals
/// what was committed, entry by entry.
pub open spec fn settling(storage: ContractStorage, c: CommitmentModel) -> bool {
    paid_model(storage, c.lp) == c.commitments && c.state == CommitmentState::ACCEPTED
}

/// Whether a commitment is ready to settle.
pub fn is_settling(storage: &ContractStorage, commitment: &Commitment) -> (b: bool)
    requires
        storage.wf(),
    ensures
        b == settling(*storage, commitment@),
{
    let paid_in_capital = paid_in_capital::get(storage, commitment.lp.clone());
    commitments_equal(&paid_in_capital, &commitment.commitments) && commitment.state
        == CommitmentState::ACCEPTED
}

/// Whether the contract's settlement time is before the block time; an error
/// when no configuration is stored.
pub fn timestamp_is_expired(storage: &ContractStorage, now: u64) -> (r: Result<bool, ContractError>)
    ensures
        match storage.state {
            Some(s) => r == Ok::<bool, ContractError>(date_expired(now, s.settlement_time)),
            None => r matches Err(ContractError::Std(_)),
        },
{
    let settlement_time = crate::storage::state::get_settlement_time(storage)?;
    match settlement_time {
        Some(t) => Ok(now > t),
        None => Ok(false),
    }
}

} // verus!
