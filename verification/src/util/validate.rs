//! Checks a message must pass before it is handled.

use vstd::prelude::*;
use crate::common::error::ContractError;
use crate::common::security::Coin;

verus! {

/// A message that can check its own content and the funds sent with it.
pub trait Validate {
    /// Checks the message's content.
    fn validate(&self) -> Result<(), ContractError>;

    /// Checks the funds sent with the message.
    fn validate_msg_funds(&self, funds: &[Coin]) -> Result<(), ContractError>;
}

} // verus!
