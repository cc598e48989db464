//! The general partner moves the settlement time of the contract and of
//! every commitment.

use vstd::prelude::*;
use crate::common::error::ContractError;
use crate::common::messages::msgs_model;
use crate::common::response::{Response, attrs_model, events_model};
use crate::execute::settlement::commitment::CommitmentModel;
use crate::storage::{ContractStorage, StorageModel};
use crate::storage::{commits, state};
use crate::storage::commits::with_date;
use crate::storage::state::StateModel;

verus! {

/// What handling the message leaves stored and answers.
pub open spec fn handle_outcome(before: ContractStorage, after: ContractStorage, r: Result<Response, ContractError>, sender: String, settlement_time: Option<u64>) -> bool {
    &&& ({
        let s = before.model();
        match s.state {
            None => r matches Err(ContractError::Std(_)) && after == before,
            Some(st) => if sender@ != st.gp {
                r == Err::<Response, ContractError>(ContractError::Unauthorized {}) && after
                    == before
            } else {
                &&& after.model() == (StorageModel {
                    state: Some(StateModel { settlement_time, ..st }),
                    commits: s.commits.map_values(|c: CommitmentModel| with_date(c, settlement_time)),
                    ..s
                })
                &&& r matches Ok(resp) && msgs_model(resp.messages@).len() == 0 && attrs_model(resp.attributes@)
                    == seq![("action"@, "update_settlement_time"@)] && events_model(resp.events@).len() == 0
                    && resp.data is None
            },
        }
    })
}

/// Sets the settlement time of the contract and of every stored commitment.
/// Only the general partner may.
pub fn handle(storage: &mut ContractStorage, sender: String, settlement_time: Option<u64>) -> (r: Result<
    Response,
    ContractError,
>)
    requires
        old(storage).wf(),
    ensures
        final(storage).wf(),
        handle_outcome(*old(storage), *final(storage), r, sender, settlement_time),
{
    let ghost s = storage.model();
    let st = state::get(storage)?;
    if sender != st.gp {
        return Err(ContractError::Unauthorized {});
    }
    state::set_settlement_time(storage, settlement_time)?;
    commits::set_settlement_time(storage, settlement_time)?;
    let mut response = Response::new();
    response.add_attribute("action", "update_settlement_time");
    assert(attrs_model(response.attributes@) =~= seq![("action"@, "update_settlement_time"@)]);
    proof {
        let st0 = s.state.unwrap();
        assert(storage.model() =~= (StorageModel {
            state: Some(StateModel { settlement_time, ..st0 }),
            commits: s.commits.map_values(|c: CommitmentModel| with_date(c, settlement_time)),
            ..s
        }));
    }
    Ok(response)
}

} // verus!
