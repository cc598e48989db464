//! Checks on the messages that the contract executes.

use vstd::prelude::*;
use crate::common::error::ContractError;
use crate::common::msg::ExecuteMsg;
use crate::common::security::{Coin, SecurityCommitment, SecurityCommitmentModel, commitments_model};
use crate::instantiate::validate::no_funds;
use crate::util::validate::Validate;

verus! {

/// What checking a list of committed amounts answers: it must not be
/// empty, and no amount may be zero.
pub open spec fn commitments_validation(s: Seq<SecurityCommitmentModel>) -> Result<(), ContractError> {
    if s.len() == 0 {
        Err(ContractError::EmptySecurityCommitmentList {})
    } else if exists|i: int| 0 <= i < s.len() && (#[trigger] s[i]).amount == 0 {
        Err(ContractError::InvalidSecurityCommitmentAmount {})
    } else {
        Ok(())
    }
}

/// What checking a message to execute answers.
pub open spec fn execute_validation(msg: ExecuteMsg) -> Result<(), ContractError> {
    match msg {
        ExecuteMsg::ProposeCommitment { securities } => commitments_validation(commitments_model(securities@)),
        ExecuteMsg::AcceptCommitment { commitments } => if commitments@.len() == 0 {
            Err(ContractError::EmptyAcceptedCommitmentList {})
        } else {
            Ok(())
        },
        ExecuteMsg::DepositCommitment { securities } => commitments_validation(commitments_model(securities@)),
        _ => Ok(()),
    }
}

fn validate_commitments(securities: &Vec<SecurityCommitment>) -> (r: Result<(), ContractError>)
    ensures
        r == commitments_validation(commitments_model(securities@)),
{
    if securities.len() == 0 {
        return Err(ContractError::EmptySecurityCommitmentList {});
    }
    for i in 0..securities.len()
        invariant
            securities@.len() > 0,
            forall|j: int| 0 <= j < i ==> (#[trigger] commitments_model(securities@)[j]).amount != 0,
    {
        assert(commitments_model(securities@)[i as int] == securities@[i as int]@);
        if securities[i].amount == 0 {
            return Err(ContractError::InvalidSecurityCommitmentAmount {});
        }
    }
    Ok(())
}

impl Validate for ExecuteMsg {
    fn validate(&self) -> (r: Result<(), ContractError>)
        ensures
            r == execute_validation(*self),
    {
        match self {
            ExecuteMsg::ProposeCommitment { securities } => validate_commitments(securities),
            ExecuteMsg::AcceptCommitment { commitments } => {
                if commitments.len() == 0 {
                    Err(ContractError::EmptyAcceptedCommitmentList {})
                } else {
                    Ok(())
                }
            },
            ExecuteMsg::DepositCommitment { securities } => validate_commitments(securities),
            _ => Ok(()),
        }
    }

    fn validate_msg_funds(&self, funds: &[Coin]) -> (r: Result<(), ContractError>)
        ensures
            r == no_funds(funds@),
    {
        if funds.len() != 0 {
            return Err(ContractError::UnexpectedFunds {});
        }
        Ok(())
    }
}

} // verus!
