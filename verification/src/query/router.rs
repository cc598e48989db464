//! Dispatches a query to its answer.

use vstd::prelude::*;
use crate::common::error::ContractError;
use crate::common::msg::{
    QueryCommitmentsResponse, QueryInvestorResponse, QueryLoanPoolCollateralResponse,
    QueryLoanPoolContributorsResponse, QueryMsg, QuerySecuritizationsResponse, QueryStateResponse,
    QueryVersionResponse,
};
use crate::storage::ContractStorage;
use crate::storage::loan_pool_collateral::{collateral_of, only_collateral, records_in_order};
use crate::common::collateral::LoanPoolMarkerCollateral;
use crate::common::security::{Security, commitments_model, strings_model};
use crate::execute::settlement::commitment::{Commitment, CommitmentModel};
use crate::storage::CapitalRecordModel;
use crate::storage::commits::commits_in_order;
use crate::storage::keyed_map::entries_keys;
use crate::storage::paid_in_capital::paid_model;
use crate::storage::whitelist_contributors_store::whitelist_model;
use crate::query::{
    query_commitments, query_investor, query_loan_pool_collaterals, query_securitizations, query_state,
    query_version, query_white_list_contributors,
};
use crate::query::query_investor::query_investor;

verus! {

/// The answer to a query, of the kind the query asks for.
#[derive(Debug, PartialEq, Eq)]
pub enum QueryAnswer {
    Investor(QueryInvestorResponse),
    Commitments(QueryCommitmentsResponse),
    Securitizations(QuerySecuritizationsResponse),
    State(QueryStateResponse),
    Version(QueryVersionResponse),
    Collaterals(QueryLoanPoolCollateralResponse),
    LoanPoolContributors(QueryLoanPoolContributorsResponse),
}

/// Answers a query with the answer of its own kind.
pub fn route(storage: &ContractStorage, msg: QueryMsg) -> (r: Result<QueryAnswer, ContractError>)
    requires
        storage.wf(),
        msg is QueryCollaterals ==> only_collateral(*storage),
    ensures
        match msg {
            QueryMsg::QueryInvestor { investor } => if storage.commits_model().contains_key(investor@) {
                r matches Ok(QueryAnswer::Investor(resp)) && resp.commitment@ == storage.commits_model()[investor@]
                    && commitments_model(resp.paid_in_capital@) == paid_model(*storage, investor@)
            } else {
                r matches Err(ContractError::Std(_))
            },
            QueryMsg::QueryCommitments { commitment_state } => r matches Ok(QueryAnswer::Commitments(resp))
                && resp.commitments@.map_values(|c: Commitment| c@) == commits_in_order(*storage).filter(
                |c: CommitmentModel| c.state == commitment_state,
            ),
            QueryMsg::QuerySecuritizations { securities } => if forall|k: int|
                0 <= k < securities@.len() ==> storage.securities_model().contains_key((#[trigger] securities@[k])@) {
                r matches Ok(QueryAnswer::Securitizations(resp)) && resp.securities@.map_values(|s: Security| s@)
                    == securities@.map_values(|n: String| storage.securities_model()[n@])
            } else {
                r matches Err(ContractError::Std(_))
            },
            QueryMsg::QueryState {} => match storage.state {
                None => r matches Err(ContractError::Std(_)),
                Some(st) => r matches Ok(QueryAnswer::State(resp)) && resp.gp@ == st.gp@ && resp.capital_denom@
                    == st.capital_denom@ && resp.settlement_time == st.settlement_time && strings_model(
                    resp.securities@,
                ) == entries_keys(storage.securities@),
            },
            QueryMsg::QueryVersion {} => match storage.contract_version {
                None => r matches Err(ContractError::Std(_)),
                Some(v) => r matches Ok(QueryAnswer::Version(resp)) && resp.contract_version.contract@ == v.contract@
                    && resp.contract_version.version@ == v.version@,
            },
            QueryMsg::QueryCollaterals {} => r matches Ok(QueryAnswer::Collaterals(resp)) && resp.collaterals@.map_values(
                |c: LoanPoolMarkerCollateral| c@,
            ) == records_in_order(*storage).map_values(|x: CapitalRecordModel| collateral_of(x)),
            QueryMsg::QueryLoanPoolContributors {} => r matches Ok(QueryAnswer::LoanPoolContributors(resp))
                && strings_model(resp.contributors@) == whitelist_model(*storage),
        },
{
    match msg {
        QueryMsg::QueryInvestor { investor } => Ok(QueryAnswer::Investor(query_investor(storage, investor)?)),
        QueryMsg::QueryCommitments { commitment_state } => Ok(
            QueryAnswer::Commitments(query_commitments::handle(storage, commitment_state)?),
        ),
        QueryMsg::QuerySecuritizations { securities } => Ok(
            QueryAnswer::Securitizations(query_securitizations::handle(storage, securities)?),
        ),
        QueryMsg::QueryState {} => Ok(QueryAnswer::State(query_state::handle(storage)?)),
        QueryMsg::QueryVersion {} => Ok(QueryAnswer::Version(query_version::handle(storage)?)),
        QueryMsg::QueryCollaterals {} => Ok(QueryAnswer::Collaterals(query_loan_pool_collaterals::handle(storage)?)),
        QueryMsg::QueryLoanPoolContributors {} => Ok(
            QueryAnswer::LoanPoolContributors(query_white_list_contributors::handle(storage)?),
        ),
    }
}

} // verus!
