//! The recorded name and version of the contract.

use vstd::prelude::*;
use crate::common::error::ContractError;
use crate::common::msg::QueryVersionResponse;
use crate::storage::{ContractStorage, ContractVersion};

verus! {

/// The recorded name and version of the contract.
pub fn handle(storage: &ContractStorage) -> (r: Result<QueryVersionResponse, ContractError>)
    ensures
        match storage.contract_version {
            None => r matches Err(ContractError::Std(_)),
            Some(v) => r matches Ok(resp) && resp.contract_version.contract@ == v.contract@
                && resp.contract_version.version@ == v.version@,
        },
{
    match &storage.contract_version {
        None => Err(crate::common::error::not_found("ContractVersion")),
        Some(v) => Ok(QueryVersionResponse {
            contract_version: ContractVersion { contract: v.contract.clone(), version: v.version.clone() },
        }),
    }
}

} // verus!
