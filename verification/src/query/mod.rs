//! Answers to queries about what the contract stores.

pub mod query_commitments;
pub mod query_investor;
pub mod query_loan_pool_collaterals;
pub mod query_securitizations;
pub mod query_state;
pub mod query_version;
pub mod query_white_list_contributors;
pub mod router;
pub mod validate;
