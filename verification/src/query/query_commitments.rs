//! The commitments in one state.

use vstd::prelude::*;
use crate::common::error::ContractError;
use crate::common::msg::QueryCommitmentsResponse;
use crate::execute::settlement::commitment::{Commitment, CommitmentModel, CommitmentState};
use crate::storage::{ContractStorage, commits, state};
use crate::storage::commits::commits_in_order;

verus! {

/// The commitments in a state, in ascending order of limited partner.
pub fn handle(storage: &ContractStorage, commitment_state: CommitmentState) -> (r: Result<
    QueryCommitmentsResponse,
    ContractError,
>)
    requires
        storage.wf(),
    ensures
        r matches Ok(resp) && resp.commitments@.map_values(|c: Commitment| c@) == commits_in_order(*storage).filter(
            |c: CommitmentModel| c.state == commitment_state,
        ),
{
    let commitments = commits::get_with_state(storage, commitment_state);
    Ok(QueryCommitmentsResponse { commitments })
}

} // verus!
