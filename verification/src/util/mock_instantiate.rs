//! A set-up message with defaults that a test can change field by field.

use vstd::prelude::*;
use crate::common::msg::{Fee, InstantiateMsg};
use crate::common::security::{Security, securities_model};
use crate::util::testing::{create_test_securities, test_securities};

verus! {

pub const DEFAULT_ADMIN_ADDRESS: &'static str = "contract_admin";

pub const DEFAULT_CONTRACT_BIND_NAME: &'static str = "contract_bind_name";

pub const DEFAULT_CONTRACT_NAME: &'static str = "contract_name";

/// The fields of a set-up message.
pub struct TestInstantiate {
    pub gp: String,
    pub securities: Vec<Security>,
    pub capital_denom: String,
    pub settlement_time: Option<u64>,
    pub fee: Option<Fee>,
}

impl Default for TestInstantiate {
    /// General partner `gp`, the two test securities, capital in `denom`,
    /// no settlement time and no fee.
    fn default() -> (t: Self)
        ensures
            t.gp@ == "gp"@,
            securities_model(t.securities@) == test_securities(),
            t.capital_denom@ == "denom"@,
            t.settlement_time is None,
            t.fee is None,
    {
        TestInstantiate {
            gp: "gp".to_owned(),
            securities: create_test_securities(),
            capital_denom: "denom".to_owned(),
            settlement_time: None,
            fee: None,
        }
    }
}

impl TestInstantiate {
    /// The set-up message with these fields.
    pub fn to_instantiate_msg(self) -> (m: InstantiateMsg)
        ensures
            m.gp == self.gp,
            m.securities == self.securities,
            m.capital_denom == self.capital_denom,
            m.settlement_time == self.settlement_time,
            m.fee == self.fee,
    {
        InstantiateMsg {
            gp: self.gp,
            securities: self.securities,
            capital_denom: self.capital_denom,
            settlement_time: self.settlement_time,
            fee: self.fee,
        }
    }
}

} // verus!
