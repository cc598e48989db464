pub mod accept_commitments;
pub mod add_loan_pool;
pub mod cancel_commitment;
pub mod commitment;
pub mod deposit_commitment;
pub mod marker_loan_pool_validation;
pub mod propose_commitment;
pub mod remove_whitelist_loanpool_contributors;
pub mod update_settlement_time;
pub mod whitelist_loanpool_contributors;
pub mod withdraw_all_commitments;
pub mod withdraw_commitment;
pub mod withdraw_commitments;
pub mod withdraw_loan_pool;
