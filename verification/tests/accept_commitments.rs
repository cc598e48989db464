use contract::common::error::ContractError;
use contract::execute::settlement::accept_commitments::{accept_commitment, handle, track_paid_capital};
use contract::execute::settlement::commitment::{Commitment, CommitmentState};
use contract::storage::state::State;
use contract::storage::{commits, paid_in_capital, remaining_securities, state, ContractStorage};
use contract::util::testing::{create_test_state, SettlementTester, MOCK_BLOCK_TIME};

#[test]
fn test_accepted_commit_must_exist() {
    let mut storage = ContractStorage::new();
    let res = accept_commitment(&mut storage, "bad address".to_string());
    res.expect_err("should have error for invalid commit");
}

#[test]
fn test_accepted_commit_must_be_pending() {
    let lp = "address".to_string();
    let mut storage = ContractStorage::new();
    let mut tester = SettlementTester::new();
    tester.create_security_commitments(1);
    let mut commitment = Commitment::new(lp.clone(), tester.security_commitments.clone());
    commitment.state = CommitmentState::ACCEPTED;
    commits::set(&mut storage, &commitment).unwrap();
    let error = accept_commitment(&mut storage, lp).unwrap_err();
    assert_eq!(ContractError::InvalidCommitmentState {}.message(), error.message());
}

#[test]
fn test_accepted_commit_cannot_make_sum_of_securities_greater_than_the_amount() {
    let lp = "address".to_string();
    let mut storage = ContractStorage::new();
    let mut tester = SettlementTester::new();
    tester.create_security_commitments(1);
    let commitment = Commitment::new(lp.clone(), tester.security_commitments.clone());
    commits::set(&mut storage, &commitment).unwrap();
    remaining_securities::set(&mut storage, tester.security_commitments[0].name.clone(), tester.security_commitments[0].amount - 1).unwrap();
    let error = accept_commitment(&mut storage, lp).unwrap_err();
    assert_eq!(ContractError::CommitmentExceedsRemainingSecurityAmount {}.message(), error.message());
}

#[test]
fn test_track_paid_capital_makes_an_empty_entry() {
    let mut storage = ContractStorage::new();
    let mut tester = SettlementTester::new();
    tester.create_security_commitments(2);
    let commitment = Commitment::new("address".to_string(), tester.security_commitments.clone());
    track_paid_capital(&mut storage, commitment.clone()).unwrap();
    let paid_capital = paid_in_capital::get(&storage, commitment.lp);
    assert_eq!(2, paid_capital.len());
    for capital in &paid_capital {
        assert_eq!(0, capital.amount);
    }
}

fn accept_one(with_settlement: bool) {
    let lp = "address".to_string();
    let mut storage = ContractStorage::new();
    let mut tester = SettlementTester::new();
    tester.create_security_commitments(1);
    let commitment = Commitment::new(lp.clone(), tester.security_commitments.clone());
    create_test_state(&mut storage, MOCK_BLOCK_TIME, with_settlement);
    commits::set(&mut storage, &commitment).unwrap();
    remaining_securities::set(&mut storage, tester.security_commitments[0].name.clone(), tester.security_commitments[0].amount).unwrap();
    accept_commitment(&mut storage, lp.clone()).unwrap();
    let added = commits::get(&storage, lp).unwrap();
    let expected_time = state::get_settlement_time(&storage).unwrap();
    assert_eq!(CommitmentState::ACCEPTED, added.state);
    assert_eq!(expected_time, added.settlment_date);
    if !with_settlement {
        assert_eq!(None, added.settlment_date);
    }
    let paid_capital = paid_in_capital::get(&storage, commitment.lp);
    for capital in &paid_capital {
        assert_eq!(0, capital.amount);
    }
    assert_eq!(0, remaining_securities::get(&storage, tester.security_commitments[0].name.clone()).unwrap());
}

#[test]
fn test_accept_commit_succeeds_and_updates_settlement_time() {
    accept_one(true);
}

#[test]
fn test_accept_commit_succeeds() {
    accept_one(false);
}

#[test]
fn test_handle_succeeds_with_multiple_commits() {
    let gp = "gp".to_string();
    let mut storage = ContractStorage::new();
    let mut tester = SettlementTester::new();
    tester.setup_test_state(&mut storage);
    tester.create_security_commitments(2);
    let c1 = Commitment::new("lp1".to_string(), vec![tester.security_commitments[0].clone()]);
    commits::set(&mut storage, &c1).unwrap();
    remaining_securities::set(&mut storage, tester.security_commitments[0].name.clone(), tester.security_commitments[0].amount).unwrap();
    let c2 = Commitment::new("lp2".to_string(), vec![tester.security_commitments[1].clone()]);
    commits::set(&mut storage, &c2).unwrap();
    remaining_securities::set(&mut storage, tester.security_commitments[1].name.clone(), tester.security_commitments[1].amount).unwrap();
    let res = handle(&mut storage, gp.clone(), vec!["lp1".to_string(), "lp2".to_string()]).unwrap();
    assert_eq!(res.attributes.len(), 2);
    assert_eq!(("action", "accept_commitments"), (res.attributes[0].key.as_str(), res.attributes[0].value.as_str()));
    assert_eq!(("gp", "gp"), (res.attributes[1].key.as_str(), res.attributes[1].value.as_str()));
    assert_eq!(res.events.len(), 2);
    assert_eq!(res.events[0].attributes.len(), 1);
    assert_eq!(("lp", "lp1"), (res.events[0].attributes[0].key.as_str(), res.events[0].attributes[0].value.as_str()));
    assert_eq!(res.events[1].attributes.len(), 1);
    assert_eq!(("lp", "lp2"), (res.events[1].attributes[0].key.as_str(), res.events[1].attributes[0].value.as_str()));
    assert_eq!("accepted", res.events[0].ty);
}

#[test]
fn test_handle_succeeds_with_no_commits() {
    let gp = "gp".to_string();
    let mut storage = ContractStorage::new();
    state::set(&mut storage, &State::new(gp.clone(), "denom".to_string(), None)).unwrap();
    let res = handle(&mut storage, gp.clone(), vec![]).unwrap();
    assert_eq!(res.attributes.len(), 2);
    assert_eq!(res.events.len(), 0);
    assert_eq!(res.attributes[0].key, "action");
    assert_eq!(res.attributes[0].value, "accept_commitments");
    assert_eq!(res.attributes[1].key, "gp");
    assert_eq!(res.attributes[1].value, gp);
}

#[test]
fn test_handle_must_be_triggered_by_gp() {
    let mut storage = ContractStorage::new();
    state::set(&mut storage, &State::new("gp".to_string(), "denom".to_string(), None)).unwrap();
    let error = handle(&mut storage, "lp1".to_string(), vec![]).unwrap_err();
    assert_eq!(ContractError::Unauthorized {}.message(), error.message());
}

#[test]
fn handle_stops_at_first_refused_commitment() {
    let mut storage = ContractStorage::new();
    let mut tester = SettlementTester::new();
    tester.setup_test_state(&mut storage);
    tester.create_security_commitments(1);
    let c1 = Commitment::new("lp1".to_string(), tester.security_commitments.clone());
    commits::set(&mut storage, &c1).unwrap();
    remaining_securities::set(&mut storage, tester.security_commitments[0].name.clone(), 1000).unwrap();
    let err = handle(&mut storage, "gp".to_string(), vec!["lp1".to_string(), "missing".to_string()]).unwrap_err();
    assert!(matches!(err, ContractError::Std(_)));
    assert_eq!(CommitmentState::ACCEPTED, commits::get(&storage, "lp1".to_string()).unwrap().state);
}
