use contract::common::security::SecurityCommitment;
use contract::execute::settlement::commitment::{Commitment, CommitmentState};
use contract::storage::{paid_in_capital, ContractStorage};
use contract::util::settlement::{is_expired, is_settling, timestamp_is_expired};
use contract::util::testing::{SettlementTester, MOCK_BLOCK_TIME};
use contract::util::to::security_to_investment_name;

#[test]
fn test_settlement_expired_with_no_settlement_date() {
    let commitment = Commitment::new("lp".to_string(), vec![]);
    assert_eq!(false, is_expired(MOCK_BLOCK_TIME, &commitment));
}

#[test]
fn test_settlement_expired_with_future_time() {
    let mut commitment = Commitment::new("lp".to_string(), vec![]);
    commitment.settlment_date = Some(MOCK_BLOCK_TIME);
    assert_eq!(false, is_expired(MOCK_BLOCK_TIME, &commitment));
}

#[test]
fn test_settlement_expired_with_past_time() {
    let mut commitment = Commitment::new("lp".to_string(), vec![]);
    commitment.settlment_date = Some(MOCK_BLOCK_TIME - 1);
    assert_eq!(true, is_expired(MOCK_BLOCK_TIME, &commitment));
}

#[test]
fn settlement_test_is_settling_success() {
    let mut storage = ContractStorage::new();
    let mut settlement_tester = SettlementTester::new();
    settlement_tester.create_security_commitments(1);
    let lp = "bad address".to_string();
    let mut commitment = Commitment::new(lp.clone(), settlement_tester.security_commitments.clone());
    commitment.state = CommitmentState::ACCEPTED;
    paid_in_capital::set(&mut storage, lp, &settlement_tester.security_commitments).unwrap();
    assert_eq!(true, is_settling(&storage, &commitment));
}

#[test]
fn settlement_test_is_settling_fails_on_already_settled() {
    let mut storage = ContractStorage::new();
    let settlement_tester = SettlementTester::new();
    let lp = "bad address".to_string();
    let mut commitment = Commitment::new(lp.clone(), settlement_tester.security_commitments.clone());
    commitment.state = CommitmentState::SETTLED;
    paid_in_capital::set(&mut storage, lp, &settlement_tester.security_commitments).unwrap();
    assert_eq!(false, is_settling(&storage, &commitment));
}

#[test]
fn settlement_test_is_settling_handles_invalid_lp() {
    let storage = ContractStorage::new();
    let settlement_tester = SettlementTester::new();
    let commitment = Commitment::new("bad address".to_string(), settlement_tester.security_commitments);
    assert_eq!(false, is_settling(&storage, &commitment));
}

#[test]
fn settlement_test_is_settling_fails_on_missing_capital() {
    let mut storage = ContractStorage::new();
    let mut settlement_tester = SettlementTester::new();
    settlement_tester.create_security_commitments(1);
    let lp = "bad address".to_string();
    let mut commitment = Commitment::new(lp.clone(), settlement_tester.security_commitments.clone());
    commitment.state = CommitmentState::ACCEPTED;
    let mut capital = commitment.clone();
    capital.clear_amounts();
    paid_in_capital::set(&mut storage, lp, &capital.commitments).unwrap();
    assert_eq!(false, is_settling(&storage, &commitment));
}

#[test]
fn timestamp_expiry_follows_configuration() {
    let mut storage = ContractStorage::new();
    timestamp_is_expired(&storage, 5).unwrap_err();
    contract::util::testing::create_test_state(&mut storage, 100, true);
    assert_eq!(false, timestamp_is_expired(&storage, 100 + 86400).unwrap());
    assert_eq!(true, timestamp_is_expired(&storage, 100 + 86401).unwrap());
}

#[test]
fn test_security_to_investment_name() {
    let actual = security_to_investment_name(&"security_a".to_string(), &"contract_addr".to_string());
    assert_eq!(String::from("contract_addr.security_a"), actual);
}

#[test]
fn test_clear_amounts() {
    let securities = vec![SecurityCommitment { name: "security 1".to_string(), amount: 5 }];
    let mut commitment = Commitment::new("address".to_string(), securities.clone());
    commitment.clear_amounts();
    assert_eq!(securities.len(), commitment.commitments.len());
    for security in &commitment.commitments {
        assert_eq!(0, security.amount);
    }
}

#[test]
fn test_new() {
    let lp = "address".to_string();
    let securities = vec![SecurityCommitment { name: "security 1".to_string(), amount: 5 }];
    let commitment = Commitment::new(lp.clone(), securities.clone());
    assert_eq!(lp, commitment.lp);
    assert_eq!(CommitmentState::PENDING, commitment.state);
    assert_eq!(securities, commitment.commitments);
    assert_eq!(None, commitment.settlment_date);
}

#[test]
fn settlement_tester_names_and_amounts() {
    let mut tester = SettlementTester::new();
    tester.create_security_commitments(2);
    tester.create_security_commitments(1);
    let names: Vec<String> = tester.security_commitments.iter().map(|c| c.name.clone()).collect();
    let amounts: Vec<u128> = tester.security_commitments.iter().map(|c| c.amount).collect();
    assert_eq!(vec!["Security1".to_string(), "Security2".to_string(), "Security3".to_string()], names);
    assert_eq!(vec![11, 12, 13], amounts);
}
