//! The messages the contract answers, and the answers to queries.

use vstd::prelude::*;
use crate::common::collateral::LoanPoolMarkerCollateral;
use crate::common::security::{
    AcceptedCommitment, Coin, ContributeLoanPools, LoanPoolContributors, RemoveLoanPoolContributors, Security,
    SecurityCommitment, WithdrawLoanPools,
};
use crate::execute::settlement::commitment::{Commitment, CommitmentState};
use crate::storage::ContractVersion;

verus! {

/// The name under which the contract records its version.
pub const CONTRACT_NAME: &'static str = "contract";

/// The version of the contract.
pub const CONTRACT_VERSION: &'static str = "0.1.0";

/// A fee charged on instantiation.
#[derive(Debug, PartialEq, Eq)]
pub struct Fee {
    pub recipient: String,
    pub amount: Coin,
}

/// A rule of the investment vehicle.
#[derive(Debug, PartialEq, Eq)]
pub enum InvestmentVehicleRule {
    SettlementTime(u64),
}

/// Sets up the contract: its general partner, the securities offered, the
/// denomination of capital, and when commitments must settle.
#[derive(Debug, PartialEq, Eq)]
pub struct InstantiateMsg {
    pub gp: String,
    pub securities: Vec<Security>,
    pub capital_denom: String,
    pub settlement_time: Option<u64>,
    pub fee: Option<Fee>,
}

/// What the contract can be asked to do.
#[derive(Debug, PartialEq, Eq)]
#[allow(inconsistent_fields)]
pub enum ExecuteMsg {
    ProposeCommitment { securities: Vec<SecurityCommitment> },
    AcceptCommitment { commitments: Vec<AcceptedCommitment> },
    DepositCommitment { securities: Vec<SecurityCommitment> },
    WithdrawCommitment { lp: String },
    WithdrawAllCommitments {},
    UpdateSettlementTime { settlement_time: Option<u64> },
    CancelCommitment { lp: String },
    ContributeLoanPool { loan_pools: ContributeLoanPools },
    WithdrawLoanPool { loan_pools: WithdrawLoanPools },
    WhiteListLoanPoolContributors { loan_pool_contributors: LoanPoolContributors },
    RemoveWhiteListLoanPoolContributors { remove_loan_pool_contributors: RemoveLoanPoolContributors },
}

/// What the contract can be asked about.
#[derive(Debug, PartialEq, Eq)]
pub enum QueryMsg {
    QueryInvestor { investor: String },
    QueryCommitments { commitment_state: CommitmentState },
    QuerySecuritizations { securities: Vec<String> },
    QueryState {},
    QueryVersion {},
    QueryCollaterals {},
    QueryLoanPoolContributors {},
}

/// A limited partner's commitment and paid-in capital.
#[derive(Debug, PartialEq, Eq)]
pub struct QueryInvestorResponse {
    pub commitment: Commitment,
    pub paid_in_capital: Vec<SecurityCommitment>,
}

/// The commitments in one state.
#[derive(Debug, PartialEq, Eq)]
pub struct QueryCommitmentsResponse {
    pub commitments: Vec<Commitment>,
}

/// The securities asked for.
#[derive(Debug, PartialEq, Eq)]
pub struct QuerySecuritizationsResponse {
    pub securities: Vec<Security>,
}

/// The contract's configuration and the names of its securities.
#[derive(Debug, PartialEq, Eq)]
pub struct QueryStateResponse {
    pub gp: String,
    pub securities: Vec<String>,
    pub capital_denom: String,
    pub settlement_time: Option<u64>,
}

/// The loan pool collateral held.
#[derive(Debug, PartialEq, Eq)]
pub struct QueryLoanPoolCollateralResponse {
    pub collaterals: Vec<LoanPoolMarkerCollateral>,
}

/// The whitelisted loan pool contributors.
#[derive(Debug, PartialEq, Eq)]
pub struct QueryLoanPoolContributorsResponse {
    pub contributors: Vec<String>,
}

/// The recorded name and version of the contract.
#[derive(Debug, PartialEq, Eq)]
pub struct QueryVersionResponse {
    pub contract_version: ContractVersion,
}

/// Migrates the contract.
#[derive(Debug, PartialEq, Eq)]
pub struct MigrateMsg {}

} // verus!
