use contract::common::error::ContractError;
use contract::common::security::{Coin, FundSecurity, Security, SecurityCommitment, SecurityType};
use contract::execute::settlement::commitment::{Commitment, CommitmentState};
use contract::execute::settlement::propose_commitment::{handle, is_approved, is_new_securities};
use contract::storage::{commits, remaining_securities, securities, ContractStorage};
use contract::util::testing::{create_test_state, SettlementTester, MOCK_BLOCK_TIME};

fn sc(name: &str, amount: u128) -> SecurityCommitment {
    SecurityCommitment { name: name.to_string(), amount }
}

fn fund(name: &str, minimum_amount: u128) -> Security {
    Security {
        name: name.to_string(),
        amount: 10,
        security_type: SecurityType::Fund(FundSecurity {}),
        minimum_amount,
        price_per_unit: Coin::new(5, "denom"),
    }
}

#[test]
fn test_is_approved_is_false_for_error_result() {
    assert_eq!(false, is_approved(&Err(ContractError::Unauthorized {})));
}

#[test]
fn test_is_approved_is_false_for_pending() {
    let result = is_approved(&Ok(Commitment::new("lp".to_string(), vec![sc("Security1", 5)])));
    assert_eq!(false, result);
}

#[test]
fn test_is_approved_is_true_for_not_pending() {
    let mut commitment = Commitment::new("lp".to_string(), vec![sc("Security1", 5)]);
    commitment.state = CommitmentState::SETTLED;
    assert_eq!(true, is_approved(&Ok(commitment.clone())));
    commitment.state = CommitmentState::ACCEPTED;
    assert_eq!(true, is_approved(&Ok(commitment)));
}

#[test]
fn test_is_new_securities_is_true_for_error_result() {
    assert_eq!(true, is_new_securities(&Err(ContractError::Unauthorized {}), &[]));
}

#[test]
fn test_is_new_securities_is_true_for_new_securities() {
    let result = is_new_securities(
        &Ok(Commitment::new("lp".to_string(), vec![sc("Security1", 5)])),
        &[sc("Security2", 5), sc("Security3", 5)],
    );
    assert_eq!(true, result);
}

#[test]
fn test_is_new_securities_is_false_for_existing_securities() {
    let result = is_new_securities(
        &Ok(Commitment::new("lp".to_string(), vec![sc("Security1", 5)])),
        &[sc("Security2", 5), sc("Security1", 5)],
    );
    assert_eq!(false, result);
}

#[test]
fn test_minimums_are_met() {
    let mut storage = ContractStorage::new();
    let mut tester = SettlementTester::new();
    tester.create_security_commitments(1);
    create_test_state(&mut storage, MOCK_BLOCK_TIME, false);
    let commitments = tester.security_commitments.clone();
    securities::set(&mut storage, &fund(&commitments[0].name, commitments[0].amount + 1)).unwrap();
    let res = handle(&mut storage, MOCK_BLOCK_TIME, "address".to_string(), commitments).unwrap_err();
    assert_eq!(ContractError::InvalidSecurityCommitmentAmount {}.message(), res.message());
}

#[test]
fn test_all_securities_exist() {
    let mut storage = ContractStorage::new();
    let mut tester = SettlementTester::new();
    create_test_state(&mut storage, MOCK_BLOCK_TIME, false);
    tester.create_security_commitments(1);
    handle(&mut storage, MOCK_BLOCK_TIME, "address".to_string(), tester.security_commitments.clone()).unwrap_err();
}

fn configured(storage: &mut ContractStorage, commitments: &[SecurityCommitment], with_remaining: bool) {
    for c in commitments {
        securities::set(storage, &fund(&c.name, c.amount)).unwrap();
        if with_remaining {
            remaining_securities::set(storage, c.name.clone(), c.amount).unwrap();
        }
    }
}

#[test]
fn test_fails_on_expired_timestamp() {
    let mut storage = ContractStorage::new();
    let mut tester = SettlementTester::new();
    tester.create_security_commitments(1);
    create_test_state(&mut storage, MOCK_BLOCK_TIME, true);
    let commitments = tester.security_commitments.clone();
    configured(&mut storage, &commitments, true);
    let err = handle(&mut storage, MOCK_BLOCK_TIME + 86401, "address".to_string(), commitments).unwrap_err();
    assert_eq!(ContractError::SettlmentExpired {}.message(), err.message());
}

fn check_added(with_settlement: bool) {
    let mut storage = ContractStorage::new();
    let lp = "address".to_string();
    let mut tester = SettlementTester::new();
    tester.create_security_commitments(1);
    create_test_state(&mut storage, MOCK_BLOCK_TIME, with_settlement);
    let commitments = tester.security_commitments.clone();
    configured(&mut storage, &commitments, true);
    let res = handle(&mut storage, MOCK_BLOCK_TIME, lp.clone(), commitments.clone()).unwrap();
    let commitment = commits::get(&storage, lp.clone()).unwrap();
    assert_eq!(commitments, commitment.commitments);
    assert_eq!(CommitmentState::PENDING, commitment.state);
    assert_eq!(lp, commitment.lp);
    assert_eq!(2, res.attributes.len());
    assert_eq!(("action", "propose_commitment"), (res.attributes[0].key.as_str(), res.attributes[0].value.as_str()));
    assert_eq!(("lp", "address"), (res.attributes[1].key.as_str(), res.attributes[1].value.as_str()));
}

#[test]
fn test_commit_is_added_on_success_with_unexpired_timestamp() {
    check_added(true);
}

#[test]
fn test_commit_is_added_on_success() {
    check_added(false);
}

#[test]
fn test_cannot_accept_security_when_total_supply_is_greater_than_amount() {
    let mut storage = ContractStorage::new();
    let mut tester = SettlementTester::new();
    tester.create_security_commitments(1);
    create_test_state(&mut storage, MOCK_BLOCK_TIME, false);
    let commitments = tester.security_commitments.clone();
    configured(&mut storage, &commitments, false);
    let error = handle(&mut storage, MOCK_BLOCK_TIME, "address".to_string(), commitments).unwrap_err();
    assert_eq!(ContractError::CommitmentExceedsRemainingSecurityAmount {}.message(), error.message());
}

#[test]
fn test_cannot_double_commit_same_security() {
    let mut storage = ContractStorage::new();
    let lp = "address".to_string();
    let mut tester = SettlementTester::new();
    tester.create_security_commitments(1);
    create_test_state(&mut storage, MOCK_BLOCK_TIME, false);
    let commitments = tester.security_commitments.clone();
    configured(&mut storage, &commitments, true);
    handle(&mut storage, MOCK_BLOCK_TIME, lp.clone(), commitments.clone()).unwrap();
    let res = handle(&mut storage, MOCK_BLOCK_TIME, lp, commitments).unwrap_err();
    assert_eq!(ContractError::InvalidSecurityCommitment {}.message(), res.message());
}

fn two_securities(storage: &mut ContractStorage, tester: &SettlementTester) {
    for c in &tester.security_commitments {
        securities::set(storage, &fund(&c.name, 0)).unwrap();
        remaining_securities::set(storage, c.name.clone(), c.amount).unwrap();
    }
}

#[test]
fn test_can_double_commit_on_different_securities() {
    let mut storage = ContractStorage::new();
    let lp = "address".to_string();
    let mut tester = SettlementTester::new();
    tester.create_security_commitments(2);
    create_test_state(&mut storage, MOCK_BLOCK_TIME, false);
    two_securities(&mut storage, &tester);
    let commitment1 = vec![tester.security_commitments[0].clone()];
    let commitment2 = vec![tester.security_commitments[1].clone()];
    handle(&mut storage, MOCK_BLOCK_TIME, lp.clone(), commitment2).unwrap();
    handle(&mut storage, MOCK_BLOCK_TIME, lp.clone(), commitment1).unwrap();
    let commitment = commits::get(&storage, lp.clone()).unwrap();
    assert_eq!(tester.security_commitments, commitment.commitments);
    assert_eq!(CommitmentState::PENDING, commitment.state);
    assert_eq!(lp, commitment.lp);
}

#[test]
fn test_can_only_commit_on_pending_securities() {
    let mut storage = ContractStorage::new();
    let lp = "address".to_string();
    let mut tester = SettlementTester::new();
    tester.create_security_commitments(2);
    create_test_state(&mut storage, MOCK_BLOCK_TIME, false);
    two_securities(&mut storage, &tester);
    let commitment1 = vec![tester.security_commitments[0].clone()];
    let commitment2 = vec![tester.security_commitments[1].clone()];
    handle(&mut storage, MOCK_BLOCK_TIME, lp.clone(), commitment2).unwrap();
    let mut commitment = commits::get(&storage, lp.clone()).unwrap();
    commitment.state = CommitmentState::ACCEPTED;
    commits::set(&mut storage, &commitment).unwrap();
    let err = handle(&mut storage, MOCK_BLOCK_TIME, lp, commitment1).unwrap_err();
    assert_eq!(ContractError::AlreadyAccepted {}.message(), err.message());
}

#[test]
fn refused_proposal_changes_nothing() {
    let mut storage = ContractStorage::new();
    create_test_state(&mut storage, MOCK_BLOCK_TIME, false);
    securities::set(&mut storage, &fund("Security1", 0)).unwrap();
    remaining_securities::set(&mut storage, "Security1".to_string(), 5).unwrap();
    handle(&mut storage, MOCK_BLOCK_TIME, "lp".to_string(), vec![sc("Security1", 6)]).unwrap_err();
    assert!(!commits::contains(&storage, "lp".to_string()));
    assert_eq!(5, remaining_securities::get(&storage, "Security1".to_string()).unwrap());
}
