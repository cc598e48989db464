//! A verified model of a securitization contract: general partners create
//! securities, limited partners propose, commit and deposit capital, and loan
//! pool markers are contributed as collateral.

pub mod common;
pub mod contract;
pub mod execute;
pub mod instantiate;
pub mod laws;
pub mod migrate;
pub mod query;
pub mod storage;
pub mod util;
