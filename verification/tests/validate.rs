use contract::common::error::ContractError;
use contract::common::msg::{ExecuteMsg, Fee, InstantiateMsg};
use contract::common::security::{AcceptedCommitment, Coin, FundSecurity, Security, SecurityCommitment, SecurityType, TrancheSecurity};
use contract::util::validate::Validate;

fn tranche() -> SecurityType {
    SecurityType::Tranche(TrancheSecurity {})
}

fn sec(name: &str, amount: u128, minimum_amount: u128, denom: &str, security_type: SecurityType) -> Security {
    Security { name: name.to_string(), amount, minimum_amount, price_per_unit: Coin::new(5, denom), security_type }
}

fn msg(securities: Vec<Security>, capital_denom: &str) -> InstantiateMsg {
    InstantiateMsg { gp: "address".to_string(), securities, capital_denom: capital_denom.to_string(), settlement_time: None, fee: None }
}

fn sc(name: &str, amount: u128) -> SecurityCommitment {
    SecurityCommitment { name: name.to_string(), amount }
}

#[test]
fn test_propose_has_securities() {
    let propose = ExecuteMsg::ProposeCommitment { securities: vec![] };
    let output = propose.validate().unwrap_err();
    assert_eq!(ContractError::EmptySecurityCommitmentList {}.message(), output.message());
}

#[test]
fn test_propose_has_valid_security_amounts() {
    let propose = ExecuteMsg::ProposeCommitment { securities: vec![sc("test", 0), sc("test2", 0)] };
    let output = propose.validate().unwrap_err();
    assert_eq!(ContractError::InvalidSecurityCommitmentAmount {}.message(), output.message());
}

#[test]
fn test_valid_propose() {
    let propose = ExecuteMsg::ProposeCommitment { securities: vec![sc("test", 5)] };
    propose.validate().expect("propose should pass validation");
}

#[test]
fn test_invalid_propose_when_at_least_one_has_zero() {
    let propose = ExecuteMsg::ProposeCommitment { securities: vec![sc("test", 5), sc("test2", 0)] };
    let output = propose.validate().unwrap_err();
    assert_eq!(ContractError::InvalidSecurityCommitmentAmount {}.message(), output.message());
}

#[test]
fn test_accept_has_commitments() {
    let m = ExecuteMsg::AcceptCommitment { commitments: vec![] };
    let output = m.validate().unwrap_err();
    assert_eq!(ContractError::EmptyAcceptedCommitmentList {}.message(), output.message());
}

#[test]
fn test_valid_accept() {
    let m = ExecuteMsg::AcceptCommitment { commitments: vec![AcceptedCommitment { lp: "address".to_string(), securities: vec![] }] };
    m.validate().expect("accept should pass validation");
}

#[test]
fn test_deposit_has_securities() {
    let m = ExecuteMsg::DepositCommitment { securities: vec![] };
    let output = m.validate().unwrap_err();
    assert_eq!(ContractError::EmptySecurityCommitmentList {}.message(), output.message());
}

#[test]
fn test_deposit_has_valid_security_amounts() {
    let m = ExecuteMsg::DepositCommitment { securities: vec![sc("test", 0)] };
    let output = m.validate().unwrap_err();
    assert_eq!(ContractError::InvalidSecurityCommitmentAmount {}.message(), output.message());
}

#[test]
fn test_invalid_deposit_with_at_least_one_zero() {
    let m = ExecuteMsg::DepositCommitment { securities: vec![sc("test", 5), sc("test2", 0)] };
    let output = m.validate().unwrap_err();
    assert_eq!(ContractError::InvalidSecurityCommitmentAmount {}.message(), output.message());
}

#[test]
fn test_valid_withdraw() {
    let m = ExecuteMsg::WithdrawCommitment { lp: "lp".to_string() };
    m.validate().expect("withdraw should pass validation");
}

#[test]
fn test_invalid_msg_funds_deposit() {
    let m = ExecuteMsg::DepositCommitment { securities: vec![sc("test", 5)] };
    let funds = vec![Coin::new(5, "denom")];
    let output = m.validate_msg_funds(&funds).unwrap_err();
    assert_eq!(ContractError::UnexpectedFunds {}.message(), output.message());
}

#[test]
fn test_valid_msg_funds_deposit() {
    let m = ExecuteMsg::DepositCommitment { securities: vec![sc("test", 5)] };
    let funds: Vec<Coin> = vec![];
    m.validate_msg_funds(&funds).expect("should pass with valid funds");
}

#[test]
fn test_other_msgs_should_not_have_funds() {
    let m = ExecuteMsg::WithdrawCommitment { lp: "lp".to_string() };
    let m2 = ExecuteMsg::WithdrawAllCommitments {};
    let funds = vec![Coin::new(5, "denom")];
    let output = m.validate_msg_funds(&funds).unwrap_err();
    assert_eq!(ContractError::UnexpectedFunds {}.message(), output.message());
    let output = m2.validate_msg_funds(&funds).unwrap_err();
    assert_eq!(ContractError::UnexpectedFunds {}.message(), output.message());
}

#[test]
fn test_other_msgs_are_valid_without_funds() {
    let m = ExecuteMsg::WithdrawCommitment { lp: "lp".to_string() };
    let m2 = ExecuteMsg::WithdrawAllCommitments {};
    let funds: Vec<Coin> = vec![];
    m.validate_msg_funds(&funds).expect("should pass with no funds");
    m2.validate_msg_funds(&funds).expect("should pass with no funds");
}

#[test]
fn test_success() {
    let mut m = msg(vec![sec("security 1", 100, 5, "denom", tranche()), sec("security 2", 100, 5, "denom", tranche())], "denom");
    m.fee = Some(Fee { recipient: "receiver".to_string(), amount: Coin::new(100, "nhash") });
    let funds: Vec<Coin> = vec![];
    m.validate().expect("should pass validation");
    m.validate_msg_funds(&funds).expect("should not have funds");
}

#[test]
fn test_invalid_security_denom() {
    let m = msg(vec![sec("security 1", 100, 5, "denom", tranche()), sec("security 2", 100, 5, "denom2", tranche())], "denom");
    let output = m.validate().unwrap_err();
    assert_eq!(ContractError::InvalidSecurityPriceDenom {}.message(), output.message());
}

#[test]
fn test_securities_have_same_type() {
    let m = msg(vec![sec("security 1", 100, 5, "denom", tranche()), sec("security 2", 100, 5, "denom", SecurityType::Fund(FundSecurity {}))], "denom");
    let output = m.validate().unwrap_err();
    assert_eq!(ContractError::InvalidSecurityList {}.message(), output.message());
}

#[test]
fn test_securities_is_not_empty() {
    let m = msg(vec![], "denom");
    let output = m.validate().unwrap_err();
    assert_eq!(ContractError::EmptySecurityList {}.message(), output.message());
}

#[test]
fn test_securities_have_same_name() {
    let m = msg(vec![sec("security 1", 100, 5, "denom", tranche()), sec("security 1", 100, 5, "denom", SecurityType::Fund(FundSecurity {}))], "denom");
    let output = m.validate().unwrap_err();
    assert_eq!(ContractError::InvalidSecurityList {}.message(), output.message());
}

#[test]
fn test_securities_have_invalid_amount() {
    let m = msg(vec![sec("security 1", 0, 5, "denom", tranche()), sec("security 2", 0, 5, "denom", tranche())], "denom");
    let output = m.validate().unwrap_err();
    assert_eq!(ContractError::InvalidSecurityList {}.message(), output.message());
}

#[test]
fn test_minimum_not_greater_than_amount() {
    let m = msg(vec![sec("security 1", 2, 5, "denom", tranche()), sec("security 2", 2, 5, "denom", tranche())], "denom");
    let output = m.validate().unwrap_err();
    assert_eq!(ContractError::InvalidSecurityList {}.message(), output.message());
}

#[test]
fn test_has_capital_denom() {
    let m = msg(vec![sec("security 1", 100, 5, "denom", tranche())], "");
    let output = m.validate().unwrap_err();
    assert_eq!(ContractError::InvalidCapitalDenom {}.message(), output.message());
}

#[test]
fn test_no_funds() {
    let m = msg(vec![sec("security 1", 100, 5, "denom", tranche()), sec("security 2", 100, 5, "denom", tranche())], "denom");
    let funds = vec![Coin::new(5, "denom")];
    let output = m.validate_msg_funds(&funds).unwrap_err();
    assert_eq!(ContractError::UnexpectedFunds {}.message(), output.message());
}

#[test]
fn identical_securities_are_refused() {
    let m = msg(vec![sec("security 1", 100, 5, "denom", tranche()), sec("security 1", 100, 5, "denom", tranche())], "denom");
    assert_eq!(ContractError::InvalidSecurityList {}, m.validate().unwrap_err());
}

#[test]
fn error_texts() {
    assert_eq!("Unauthorized", ContractError::Unauthorized {}.message());
    assert_eq!("Invalid marker: bad", ContractError::InvalidMarker { message: "bad".to_string() }.message());
    assert_eq!(
        "Generic error: oops",
        ContractError::Std(contract::common::error::StdError::GenericErr { msg: "oops".to_string() }).message()
    );
}
