//! The loan pool collateral held.

use vstd::prelude::*;
use crate::common::collateral::LoanPoolMarkerCollateral;
use crate::common::error::ContractError;
use crate::common::msg::QueryLoanPoolCollateralResponse;
use crate::storage::{CapitalRecordModel, ContractStorage};
use crate::storage::loan_pool_collateral::{collateral_of, get_all_states, only_collateral, records_in_order};

verus! {

/// Every loan pool collateral, in ascending order of marker address.
pub fn handle(storage: &ContractStorage) -> (r: Result<QueryLoanPoolCollateralResponse, ContractError>)
    requires
        storage.wf(),
        only_collateral(*storage),
    ensures
        r matches Ok(resp) && resp.collaterals@.map_values(|c: LoanPoolMarkerCollateral| c@) == records_in_order(
            *storage,
        ).map_values(|x: CapitalRecordModel| collateral_of(x)),
{
    Ok(QueryLoanPoolCollateralResponse { collaterals: get_all_states(storage) })
}

} // verus!
