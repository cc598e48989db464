use contract::common::error::ContractError;
use contract::common::response::Attribute;
use contract::common::security::Coin;
use contract::execute::settlement::commitment::{Commitment, CommitmentState};
use contract::execute::settlement::withdraw_all_commitments::handle;
use contract::storage::{available_capital, commits, paid_in_capital, ContractStorage};
use contract::util::testing::{create_test_state, SettlementTester, MOCK_BLOCK_TIME, MOCK_CONTRACT_ADDR};

fn store_settleable(storage: &mut ContractStorage, tester: &SettlementTester, lp: &str) {
    let mut commitment = Commitment::new(lp.to_string(), tester.security_commitments.clone());
    commitment.state = CommitmentState::ACCEPTED;
    commits::set(storage, &commitment).unwrap();
    available_capital::add_capital(storage, commitment.lp.clone(), vec![Coin::new(100, "denom")]).unwrap();
    paid_in_capital::set(storage, commitment.lp.clone(), &tester.security_commitments).unwrap();
}

fn expected_attributes() -> Vec<Attribute> {
    vec![Attribute::new("action", "withdraw_all_commitments"), Attribute::new("gp", "gp")]
}

#[test]
fn test_should_fail_when_sender_must_be_gp() {
    let mut storage = ContractStorage::new();
    let tester = SettlementTester::new();
    tester.setup_test_state(&mut storage);
    let error = handle(&mut storage, MOCK_BLOCK_TIME, MOCK_CONTRACT_ADDR.to_string(), "lp".to_string()).unwrap_err();
    assert_eq!(ContractError::Unauthorized {}.message(), error.message());
}

#[test]
fn test_should_fail_when_settlement_is_expired() {
    let mut storage = ContractStorage::new();
    let mut tester = SettlementTester::new();
    tester.setup_test_state(&mut storage);
    tester.create_security_commitments(2);
    create_test_state(&mut storage, MOCK_BLOCK_TIME, true);
    let now = MOCK_BLOCK_TIME + 86401;
    store_settleable(&mut storage, &tester, "lp");
    let err = handle(&mut storage, now, MOCK_CONTRACT_ADDR.to_string(), "gp".to_string()).unwrap_err();
    assert_eq!(ContractError::SettlmentExpired {}.message(), err.message());
}

#[test]
fn test_should_succeed_when_settlement_time_does_not_exist() {
    let mut storage = ContractStorage::new();
    let mut tester = SettlementTester::new();
    tester.setup_test_state(&mut storage);
    tester.create_security_commitments(2);
    store_settleable(&mut storage, &tester, "lp");
    let res = handle(&mut storage, MOCK_BLOCK_TIME, MOCK_CONTRACT_ADDR.to_string(), "gp".to_string()).unwrap();
    assert_eq!(1, res.events.len());
    assert_eq!(expected_attributes(), res.attributes);
}

#[test]
fn test_should_succeed_when_settlement_time_is_not_expired() {
    let mut storage = ContractStorage::new();
    let mut tester = SettlementTester::new();
    tester.setup_test_state(&mut storage);
    tester.create_security_commitments(2);
    create_test_state(&mut storage, MOCK_BLOCK_TIME, true);
    store_settleable(&mut storage, &tester, "lp");
    let res = handle(&mut storage, MOCK_BLOCK_TIME, MOCK_CONTRACT_ADDR.to_string(), "gp".to_string()).unwrap();
    assert_eq!(1, res.events.len());
    assert_eq!(expected_attributes(), res.attributes);
}

#[test]
fn test_should_succeed_with_multiple() {
    let mut storage = ContractStorage::new();
    let mut tester = SettlementTester::new();
    tester.setup_test_state(&mut storage);
    tester.create_security_commitments(2);
    store_settleable(&mut storage, &tester, "lp");
    store_settleable(&mut storage, &tester, "lp2");
    let res = handle(&mut storage, MOCK_BLOCK_TIME, MOCK_CONTRACT_ADDR.to_string(), "gp".to_string()).unwrap();
    assert_eq!(2, res.events.len());
    assert_eq!(expected_attributes(), res.attributes);
}

#[test]
fn unsettleable_commitments_are_skipped() {
    let mut storage = ContractStorage::new();
    let mut tester = SettlementTester::new();
    tester.setup_test_state(&mut storage);
    tester.create_security_commitments(2);
    store_settleable(&mut storage, &tester, "lp");
    let mut short = Commitment::new("lp2".to_string(), tester.security_commitments.clone());
    short.state = CommitmentState::ACCEPTED;
    commits::set(&mut storage, &short).unwrap();
    let res = handle(&mut storage, MOCK_BLOCK_TIME, MOCK_CONTRACT_ADDR.to_string(), "gp".to_string()).unwrap();
    assert_eq!(1, res.events.len());
    assert_eq!(5, res.messages.len());
    assert_eq!(CommitmentState::SETTLED, commits::get(&storage, "lp".to_string()).unwrap().state);
    assert_eq!(CommitmentState::ACCEPTED, commits::get(&storage, "lp2".to_string()).unwrap().state);
}
