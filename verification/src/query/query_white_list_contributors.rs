//! The whitelisted loan pool contributors.

use vstd::prelude::*;
use crate::common::error::ContractError;
use crate::common::msg::QueryLoanPoolContributorsResponse;
use crate::common::security::strings_model;
use crate::storage::ContractStorage;
use crate::storage::whitelist_contributors_store::{get_whitelist_contributors, whitelist_model};

verus! {

/// The whitelisted loan pool contributors.
pub fn handle(storage: &ContractStorage) -> (r: Result<
    QueryLoanPoolContributorsResponse,
    ContractError,
>)
    ensures
        r matches Ok(resp) && strings_model(resp.contributors@) == whitelist_model(*storage),
{
    Ok(QueryLoanPoolContributorsResponse { contributors: get_whitelist_contributors(storage) })
}

} // verus!
