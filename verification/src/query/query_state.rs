//! The contract's configuration.

use vstd::prelude::*;
use crate::common::error::ContractError;
use crate::common::msg::QueryStateResponse;
use crate::common::security::strings_model;
use crate::storage::{ContractStorage, securities, state};
use crate::storage::keyed_map::entries_keys;

verus! {

/// The contract's configuration and the names of its securities.
pub fn handle(storage: &ContractStorage) -> (r: Result<QueryStateResponse, ContractError>)
    requires
        storage.wf(),
    ensures
        match storage.state {
            None => r matches Err(ContractError::Std(_)),
            Some(st) => r matches Ok(resp) && resp.gp@ == st.gp@ && resp.capital_denom@ == st.capital_denom@
                && resp.settlement_time == st.settlement_time && strings_model(resp.securities@) == entries_keys(
                storage.securities@,
            ),
        },
{
    let st = state::get(storage)?;
    let names = securities::get_security_types(storage);
    Ok(QueryStateResponse {
        gp: st.gp,
        securities: names,
        capital_denom: st.capital_denom,
        settlement_time: st.settlement_time,
    })
}

} // verus!
