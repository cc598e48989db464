use contract::common::error::ContractError;
use contract::common::messages::ProvMsg;
use contract::common::response::{Attribute, Event};
use contract::common::security::{Coin, SecurityCommitment};
use contract::execute::settlement::commitment::{Commitment, CommitmentState};
use contract::execute::settlement::withdraw_commitment::{
    handle, process_withdraw, transfer_investment_tokens, withdraw_commitment,
};
use contract::storage::{available_capital, commits, paid_in_capital, ContractStorage};
use contract::util::provenance_utilities::{mint_marker_supply, withdraw_coins};
use contract::util::testing::{SettlementTester, MOCK_BLOCK_TIME, MOCK_CONTRACT_ADDR};
use contract::util::to::security_to_investment_name;

fn two_commitments() -> (SettlementTester, Commitment) {
    let mut tester = SettlementTester::new();
    tester.create_security_commitments(2);
    let commitment = Commitment::new("lp".to_string(), tester.security_commitments.clone());
    (tester, commitment)
}

fn accepted_with_capital(storage: &mut ContractStorage, capital: u128, paid: &Vec<SecurityCommitment>) -> Commitment {
    let (_, mut commitment) = two_commitments();
    commitment.state = CommitmentState::ACCEPTED;
    commits::set(storage, &commitment).unwrap();
    available_capital::add_capital(storage, commitment.lp.clone(), vec![Coin::new(capital, "denom")]).unwrap();
    paid_in_capital::set(storage, commitment.lp.clone(), paid).unwrap();
    commitment
}

#[test]
fn withdraw_commitment_test_transfer_investment_tokens_success() {
    let contract = "contract".to_string();
    let (_, commitment) = two_commitments();
    let mut expected: Vec<ProvMsg> = vec![];
    for c in &commitment.commitments {
        let investment_name = security_to_investment_name(&c.name, &contract);
        expected.push(mint_marker_supply(c.amount, investment_name.clone(), contract.clone()).unwrap());
        expected.push(
            withdraw_coins(investment_name.clone(), c.amount, investment_name, "lp".to_string(), contract.clone())
                .unwrap(),
        );
    }
    let transferred = transfer_investment_tokens(&commitment, &contract).unwrap();
    assert_eq!(transferred.len(), 4);
    assert_eq!(expected, transferred);
}

#[test]
fn withdraw_commitment_test_process_withdraw_fails_when_commit_doesnt_exist() {
    let mut storage = ContractStorage::new();
    process_withdraw(&mut storage, &"gp".to_string(), &"lp".to_string(), &"contract".to_string()).unwrap_err();
}

#[test]
fn withdraw_commitment_test_process_withdraw_fails_when_available_capital_doesnt_exist() {
    let mut storage = ContractStorage::new();
    let (_, commitment) = two_commitments();
    commits::set(&mut storage, &commitment).unwrap();
    process_withdraw(&mut storage, &"gp".to_string(), &commitment.lp, &"contract".to_string()).unwrap_err();
}

#[test]
fn test_process_withdraw_has_capital() {
    let mut storage = ContractStorage::new();
    let (tester, _) = two_commitments();
    let commitment = accepted_with_capital(&mut storage, 100, &tester.security_commitments);
    let messages = process_withdraw(&mut storage, &"gp".to_string(), &commitment.lp, &"contract".to_string()).unwrap();
    let updated = commits::get(&storage, commitment.lp.clone()).unwrap();
    assert_eq!(CommitmentState::SETTLED, updated.state);
    assert_eq!(5, messages.len());
    assert_eq!(false, available_capital::has_lp(&storage, commitment.lp));
}

#[test]
fn test_process_withdraw_has_no_capital() {
    let mut storage = ContractStorage::new();
    let (tester, _) = two_commitments();
    let commitment = accepted_with_capital(&mut storage, 0, &tester.security_commitments);
    let messages = process_withdraw(&mut storage, &"gp".to_string(), &commitment.lp, &"contract".to_string()).unwrap();
    let updated = commits::get(&storage, commitment.lp.clone()).unwrap();
    assert_eq!(CommitmentState::SETTLED, updated.state);
    assert_eq!(4, messages.len());
    assert_eq!(false, available_capital::has_lp(&storage, commitment.lp));
}

#[test]
fn test_withdraw_commitments_with_invalid_lp() {
    let mut storage = ContractStorage::new();
    withdraw_commitment(&mut storage, MOCK_BLOCK_TIME, "gp".to_string(), "lp".to_string(), &MOCK_CONTRACT_ADDR.to_string())
        .unwrap_err();
}

#[test]
fn test_withdraw_commitments_with_not_settled() {
    let mut storage = ContractStorage::new();
    let (tester, _) = two_commitments();
    let mut partial_paid = tester.security_commitments.clone();
    partial_paid[0].amount = 1;
    let commitment = accepted_with_capital(&mut storage, 100, &partial_paid);
    let err = withdraw_commitment(
        &mut storage,
        MOCK_BLOCK_TIME,
        "gp".to_string(),
        commitment.lp.clone(),
        &MOCK_CONTRACT_ADDR.to_string(),
    )
    .unwrap_err();
    assert_eq!(ContractError::CommitmentNotMet {}.message(), err.message());
}

#[test]
fn test_withdraw_commitments_with_expired_settlement() {
    let mut storage = ContractStorage::new();
    let (tester, mut commitment) = two_commitments();
    commitment.state = CommitmentState::ACCEPTED;
    commitment.settlment_date = Some(MOCK_BLOCK_TIME - 1);
    commits::set(&mut storage, &commitment).unwrap();
    available_capital::add_capital(&mut storage, commitment.lp.clone(), vec![Coin::new(100, "denom")]).unwrap();
    let mut partial_paid = tester.security_commitments.clone();
    partial_paid[0].amount = 1;
    paid_in_capital::set(&mut storage, commitment.lp.clone(), &partial_paid).unwrap();
    let err = withdraw_commitment(
        &mut storage,
        MOCK_BLOCK_TIME,
        "gp".to_string(),
        commitment.lp.clone(),
        &MOCK_CONTRACT_ADDR.to_string(),
    )
    .unwrap_err();
    assert_eq!(ContractError::SettlmentExpired {}.message(), err.message());
}

#[test]
fn withdraw_commitment_test_withdraw_commitments_with_settled() {
    let mut storage = ContractStorage::new();
    let (tester, _) = two_commitments();
    let commitment = accepted_with_capital(&mut storage, 100, &tester.security_commitments);
    let res = withdraw_commitment(
        &mut storage,
        MOCK_BLOCK_TIME,
        "gp".to_string(),
        commitment.lp.clone(),
        &MOCK_CONTRACT_ADDR.to_string(),
    )
    .unwrap();
    assert_eq!(5, res.messages.len());
    assert_eq!(1, res.events.len());
    assert_eq!(Event::with_attribute("settled", "lp", &commitment.lp), res.events[0]);
}

#[test]
fn withdraw_commitment_test_handle_must_be_gp() {
    let mut storage = ContractStorage::new();
    let tester = SettlementTester::new();
    tester.setup_test_state(&mut storage);
    let error =
        handle(&mut storage, MOCK_BLOCK_TIME, MOCK_CONTRACT_ADDR.to_string(), "lp".to_string(), "lp".to_string())
            .unwrap_err();
    assert_eq!(ContractError::Unauthorized {}.message(), error.message());
}

#[test]
fn test_handle_succeeds() {
    let mut storage = ContractStorage::new();
    let (tester, _) = two_commitments();
    tester.setup_test_state(&mut storage);
    let commitment = accepted_with_capital(&mut storage, 100, &tester.security_commitments);
    let res =
        handle(&mut storage, MOCK_BLOCK_TIME, MOCK_CONTRACT_ADDR.to_string(), "gp".to_string(), commitment.lp.clone())
            .unwrap();
    assert_eq!(2, res.attributes.len());
    assert_eq!(1, res.events.len());
    assert_eq!(Attribute::new("action", "withdraw_commitment"), res.attributes[0]);
    assert_eq!(Attribute::new("gp", "gp"), res.attributes[1]);
}

#[test]
fn settled_capital_goes_to_the_general_partner() {
    let mut storage = ContractStorage::new();
    let (tester, _) = two_commitments();
    let commitment = accepted_with_capital(&mut storage, 100, &tester.security_commitments);
    let messages = process_withdraw(&mut storage, &"gp".to_string(), &commitment.lp, &"contract".to_string()).unwrap();
    assert_eq!(
        ProvMsg::Transfer {
            amount: Coin::new(100, "denom"),
            administrator: "contract".to_string(),
            from_address: "lp".to_string(),
            to_address: "gp".to_string(),
        },
        messages[4]
    );
}
