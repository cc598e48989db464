//! Migrations need no checks.

use vstd::prelude::*;
use crate::common::error::ContractError;
use crate::common::msg::MigrateMsg;
use crate::common::security::Coin;
use crate::util::validate::Validate;

verus! {

impl Validate for MigrateMsg {
    fn validate(&self) -> (r: Result<(), ContractError>)
        ensures
            r is Ok,
    {
        Ok(())
    }

    fn validate_msg_funds(&self, funds: &[Coin]) -> (r: Result<(), ContractError>)
        ensures
            r is Ok,
    {
        Ok(())
    }
}

} // verus!
