use contract::common::error::ContractError;
use contract::common::messages::ProvMsg;
use contract::common::security::{Coin, SecurityCommitment};
use contract::execute::settlement::commitment::{Commitment, CommitmentState};
use contract::execute::settlement::withdraw_commitment::transfer_investment_tokens;
use contract::execute::settlement::withdraw_commitments::{handle, process_withdraw, withdraw_commitments};
use contract::storage::{available_capital, commits, paid_in_capital, ContractStorage};
use contract::util::provenance_utilities::{mint_marker_supply, withdraw_coins};
use contract::util::settlement::is_settling;
use contract::util::testing::{SettlementTester, MOCK_CONTRACT_ADDR};
use contract::util::to::security_to_investment_name;

fn accepted_commitment(lp: &str, count: u32) -> (SettlementTester, Commitment) {
    let mut tester = SettlementTester::new();
    tester.create_security_commitments(count);
    let mut commitment = Commitment::new(lp.to_string(), tester.security_commitments.clone());
    commitment.state = CommitmentState::ACCEPTED;
    (tester, commitment)
}

fn store_with_capital(storage: &mut ContractStorage, commitment: &Commitment, paid: &Vec<SecurityCommitment>) {
    commits::set(storage, commitment).unwrap();
    available_capital::add_capital(storage, commitment.lp.clone(), vec![Coin::new(100, "denom")]).unwrap();
    paid_in_capital::set(storage, commitment.lp.clone(), paid).unwrap();
}

#[test]
fn withdraw_commitments_test_is_settling_success() {
    let mut storage = ContractStorage::new();
    let (tester, commitment) = accepted_commitment("bad address", 1);
    paid_in_capital::set(&mut storage, commitment.lp.clone(), &tester.security_commitments).unwrap();
    assert_eq!(true, is_settling(&storage, &commitment));
}

#[test]
fn withdraw_commitments_test_is_settling_fails_on_already_settled() {
    let mut storage = ContractStorage::new();
    let tester = SettlementTester::new();
    let mut commitment = Commitment::new("bad address".to_string(), tester.security_commitments.clone());
    commitment.state = CommitmentState::SETTLED;
    paid_in_capital::set(&mut storage, commitment.lp.clone(), &tester.security_commitments).unwrap();
    assert_eq!(false, is_settling(&storage, &commitment));
}

#[test]
fn withdraw_commitments_test_is_settling_handles_invalid_lp() {
    let storage = ContractStorage::new();
    let tester = SettlementTester::new();
    let commitment = Commitment::new("bad address".to_string(), tester.security_commitments);
    assert_eq!(false, is_settling(&storage, &commitment));
}

#[test]
fn withdraw_commitments_test_is_settling_fails_on_missing_capital() {
    let mut storage = ContractStorage::new();
    let (_, commitment) = accepted_commitment("bad address", 1);
    let mut capital = commitment.clone();
    capital.clear_amounts();
    paid_in_capital::set(&mut storage, commitment.lp.clone(), &capital.commitments).unwrap();
    assert_eq!(false, is_settling(&storage, &commitment));
}

#[test]
fn withdraw_commitments_test_transfer_investment_tokens_success() {
    let contract = "contract".to_string();
    let (_, commitment) = accepted_commitment("lp", 2);
    let mut expected: Vec<ProvMsg> = vec![];
    for c in &commitment.commitments {
        let investment_name = security_to_investment_name(&c.name, &contract);
        expected.push(mint_marker_supply(c.amount, investment_name.clone(), contract.clone()).unwrap());
        expected.push(
            withdraw_coins(investment_name.clone(), c.amount, investment_name, "lp".to_string(), contract.clone())
                .unwrap(),
        );
    }
    let transferred = transfer_investment_tokens(&commitment, &contract).unwrap();
    assert_eq!(transferred.len(), 4);
    assert_eq!(expected, transferred);
}

#[test]
fn withdraw_commitments_test_process_withdraw_fails_when_commit_doesnt_exist() {
    let mut storage = ContractStorage::new();
    process_withdraw(&mut storage, &"lp".to_string(), &"contract".to_string()).unwrap_err();
}

#[test]
fn withdraw_commitments_test_process_withdraw_fails_when_available_capital_doesnt_exist() {
    let mut storage = ContractStorage::new();
    let mut tester = SettlementTester::new();
    tester.create_security_commitments(2);
    let commitment = Commitment::new("lp".to_string(), tester.security_commitments.clone());
    commits::set(&mut storage, &commitment).unwrap();
    process_withdraw(&mut storage, &commitment.lp, &"contract".to_string()).unwrap_err();
}

#[test]
fn test_process_withdraw_not_settled() {
    let mut storage = ContractStorage::new();
    let (tester, commitment) = accepted_commitment("lp", 2);
    let paid = vec![
        SecurityCommitment { name: tester.security_commitments[0].name.clone(), amount: 1 },
        SecurityCommitment { name: tester.security_commitments[1].name.clone(), amount: 1 },
    ];
    store_with_capital(&mut storage, &commitment, &paid);
    let (messages, amount) = process_withdraw(&mut storage, &commitment.lp, &"contract".to_string()).unwrap();
    assert_eq!(0, messages.len());
    assert_eq!(100, amount);
    assert_eq!(false, available_capital::has_lp(&storage, commitment.lp));
}

#[test]
fn test_process_withdraw_settled() {
    let mut storage = ContractStorage::new();
    let (tester, commitment) = accepted_commitment("lp", 2);
    store_with_capital(&mut storage, &commitment, &tester.security_commitments);
    let (messages, amount) = process_withdraw(&mut storage, &commitment.lp, &"contract".to_string()).unwrap();
    let updated = commits::get(&storage, commitment.lp.clone()).unwrap();
    assert_eq!(CommitmentState::SETTLED, updated.state);
    assert_eq!(4, messages.len());
    assert_eq!(100, amount);
    assert_eq!(false, available_capital::has_lp(&storage, commitment.lp));
}

#[test]
fn test_withdraw_commitments_with_none() {
    let mut storage = ContractStorage::new();
    let res = withdraw_commitments(&mut storage, &MOCK_CONTRACT_ADDR.to_string(), "gp".to_string(), "denom".to_string())
        .unwrap();
    assert_eq!(0, res.messages.len());
}

#[test]
fn withdraw_commitments_test_withdraw_commitments_with_settled() {
    let mut storage = ContractStorage::new();
    let (tester, commitment) = accepted_commitment("lp", 2);
    store_with_capital(&mut storage, &commitment, &tester.security_commitments);
    let res = withdraw_commitments(&mut storage, &MOCK_CONTRACT_ADDR.to_string(), commitment.lp.clone(), "denom".to_string())
        .unwrap();
    assert_eq!(5, res.messages.len());
    assert_eq!(
        ProvMsg::BankSend { to_address: "lp".to_string(), amount: vec![Coin::new(100, "denom")] },
        res.messages[0]
    );
}

#[test]
fn withdraw_commitments_test_handle_must_be_gp() {
    let mut storage = ContractStorage::new();
    let tester = SettlementTester::new();
    tester.setup_test_state(&mut storage);
    let error = handle(&mut storage, MOCK_CONTRACT_ADDR.to_string(), "lp".to_string()).unwrap_err();
    assert_eq!(ContractError::Unauthorized {}.message(), error.message());
}

#[test]
fn collected_capital_is_summed_for_the_general_partner() {
    let mut storage = ContractStorage::new();
    let (tester, first) = accepted_commitment("lp1", 1);
    store_with_capital(&mut storage, &first, &tester.security_commitments);
    let second = Commitment { lp: "lp2".to_string(), ..first.clone() };
    store_with_capital(&mut storage, &second, &vec![]);
    tester.setup_test_state(&mut storage);
    let res = handle(&mut storage, MOCK_CONTRACT_ADDR.to_string(), "gp".to_string()).unwrap();
    assert_eq!(
        ProvMsg::BankSend { to_address: "gp".to_string(), amount: vec![Coin::new(200, "denom")] },
        res.messages[0]
    );
    assert_eq!(3, res.messages.len());
    assert_eq!(CommitmentState::SETTLED, commits::get(&storage, "lp1".to_string()).unwrap().state);
    assert_eq!(CommitmentState::ACCEPTED, commits::get(&storage, "lp2".to_string()).unwrap().state);
}
