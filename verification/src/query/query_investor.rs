//! A limited partner's commitment and what it has paid in.

use vstd::prelude::*;
use crate::common::error::ContractError;
use crate::common::msg::QueryInvestorResponse;
use crate::common::security::commitments_model;
use crate::storage::{ContractStorage, commits, paid_in_capital};
use crate::storage::paid_in_capital::paid_model;

verus! {

/// A limited partner's commitment and paid-in capital.
pub fn query_investor(storage: &ContractStorage, lp: String) -> (r: Result<QueryInvestorResponse, ContractError>)
    requires
        storage.wf(),
    ensures
        !storage.commits_model().contains_key(lp@) ==> r matches Err(ContractError::Std(_)),
        storage.commits_model().contains_key(lp@) ==> (r matches Ok(resp) && resp.commitment@
            == storage.commits_model()[lp@] && commitments_model(resp.paid_in_capital@) == paid_model(*storage, lp@)),
{
    let commitment = commits::get(storage, lp.clone())?;
    let paid_in_capital = paid_in_capital::get(storage, lp);
    Ok(QueryInvestorResponse { commitment, paid_in_capital })
}

} // verus!
