use contract::common::error::ContractError;
use contract::common::response::Attribute;
use contract::common::security::{Coin, FundSecurity, Security, SecurityCommitment, SecurityType, TrancheSecurity};
use contract::execute::settlement::commitment::{Commitment, CommitmentState};
use contract::execute::settlement::deposit_commitment::{
    calculate_funds, deposit_exceeds_commitment, handle, is_accepted, securities_match, update_depositer_capital,
};
use contract::storage::{available_capital, commits, paid_in_capital, securities, ContractStorage};
use contract::util::testing::{SettlementTester, MOCK_BLOCK_TIME, MOCK_CONTRACT_ADDR};

fn commitment_of(name: &str, amount: u128) -> SecurityCommitment {
    SecurityCommitment { name: name.to_string(), amount }
}

fn tranche(name: &str, minimum_amount: u128) -> Security {
    Security {
        name: name.to_string(),
        amount: 1000,
        security_type: SecurityType::Tranche(TrancheSecurity {}),
        minimum_amount,
        price_per_unit: Coin::new(1, "denom"),
    }
}

fn accepted(lp: &str, commitments: Vec<SecurityCommitment>) -> Commitment {
    Commitment { lp: lp.to_string(), commitments, state: CommitmentState::ACCEPTED, settlment_date: None }
}

#[test]
fn test_is_accepted_throws_error_on_invalid_lp() {
    let storage = ContractStorage::new();
    is_accepted(&storage, &"lp".to_string()).unwrap_err();
}

#[test]
fn test_is_accepted_should_return_false_on_invalid_state() {
    let mut storage = ContractStorage::new();
    let commitment = Commitment::new("lp".to_string(), vec![]);
    commits::set(&mut storage, &commitment).unwrap();
    assert_eq!(false, is_accepted(&storage, &"lp".to_string()).unwrap());
}

#[test]
fn test_is_accepted_should_return_true_on_accepted() {
    let mut storage = ContractStorage::new();
    let mut commitment = Commitment::new("lp".to_string(), vec![]);
    commitment.state = CommitmentState::ACCEPTED;
    commits::set(&mut storage, &commitment).unwrap();
    assert_eq!(true, is_accepted(&storage, &"lp".to_string()).unwrap());
}

#[test]
fn test_calculate_funds_should_throw_error_with_invalid_security() {
    let storage = ContractStorage::new();
    let securities = vec![commitment_of("Security1", 5)];
    calculate_funds(&storage, &securities, &"denom".to_string()).expect_err("should throw error");
}

#[test]
fn test_calculate_funds_should_work_with_empty() {
    let storage = ContractStorage::new();
    let funds = calculate_funds(&storage, &[], &"denom".to_string()).unwrap();
    assert_eq!(vec![Coin::new(0, "denom")], funds);
}

#[test]
fn test_caluclate_funds_works_with_multiple_securities() {
    let mut storage = ContractStorage::new();
    let capital_denom = "denom".to_string();
    let securities = vec![
        Security {
            name: "Security1".to_string(),
            amount: 10,
            security_type: SecurityType::Fund(FundSecurity {}),
            minimum_amount: 1,
            price_per_unit: Coin::new(10, &capital_denom),
        },
        Security {
            name: "Security2".to_string(),
            amount: 10,
            security_type: SecurityType::Fund(FundSecurity {}),
            minimum_amount: 1,
            price_per_unit: Coin::new(5, &capital_denom),
        },
    ];
    let commitments = vec![commitment_of("Security1", 5), commitment_of("Security2", 7)];
    securities::set(&mut storage, &securities[0]).unwrap();
    securities::set(&mut storage, &securities[1]).unwrap();
    let funds = calculate_funds(&storage, &commitments, &capital_denom).unwrap();
    assert_eq!(vec![Coin::new(85, &capital_denom)], funds);
}

#[test]
fn test_securities_match_can_handle_empty() {
    let mut storage = ContractStorage::new();
    commits::set(&mut storage, &accepted("lp", vec![commitment_of("Security1", 5)])).unwrap();
    assert_eq!(true, securities_match(&storage, &[], "lp".to_string()).unwrap());
}

#[test]
fn test_drawdown_security_length_doesnt_match() {
    let mut storage = ContractStorage::new();
    let commitment = vec![commitment_of("Security1", 5)];
    commits::set(&mut storage, &accepted("lp", vec![commitment_of("Security1", 5), commitment_of("Security2", 5)]))
        .unwrap();
    assert_eq!(true, securities_match(&storage, &commitment, "lp".to_string()).unwrap());
}

#[test]
fn test_drawdown_invalid_security() {
    let mut storage = ContractStorage::new();
    let commitment = vec![commitment_of("Security3", 5), commitment_of("Security1", 5)];
    commits::set(&mut storage, &accepted("lp", vec![commitment_of("Security1", 5), commitment_of("Security2", 5)]))
        .unwrap();
    assert_eq!(false, securities_match(&storage, &commitment, "lp".to_string()).unwrap());
}

#[test]
fn test_drawdown_success() {
    let mut storage = ContractStorage::new();
    let commitment = vec![commitment_of("Security1", 5)];
    commits::set(&mut storage, &accepted("lp", vec![commitment_of("Security1", 5)])).unwrap();
    assert_eq!(true, securities_match(&storage, &commitment, "lp".to_string()).unwrap());
}

#[test]
fn test_update_depositer_capital_new_entry() {
    let mut storage = ContractStorage::new();
    let lp = "lp".to_string();
    let funds = vec![Coin::new(10, "denom")];
    let deposit = vec![commitment_of("Security1", 5)];
    update_depositer_capital(&mut storage, lp.clone(), funds.clone(), deposit.clone()).expect("should be successful");
    let paid_capital = paid_in_capital::get(&storage, lp.clone());
    let available = available_capital::get_capital(&storage, lp).unwrap();
    assert_eq!(paid_capital, deposit);
    assert_eq!(available, funds);
}

#[test]
fn test_update_depositer_capital_update_entry() {
    let mut storage = ContractStorage::new();
    let lp = "lp".to_string();
    let funds = vec![Coin::new(10, "denom")];
    let deposit = vec![commitment_of("Security1", 5)];
    paid_in_capital::set(&mut storage, lp.clone(), &deposit).unwrap();
    available_capital::add_capital(&mut storage, lp.clone(), funds.clone()).unwrap();
    update_depositer_capital(&mut storage, lp.clone(), funds.clone(), deposit.clone()).expect("should be successful");
    let paid_capital = paid_in_capital::get(&storage, lp.clone());
    let available = available_capital::get_capital(&storage, lp).unwrap();
    assert_eq!(paid_capital[0], commitment_of("Security1", 10));
    assert_eq!(available[0], Coin::new(20, "denom"));
}

#[test]
fn test_handle_should_throw_error_with_invalid_state() {
    let mut storage = ContractStorage::new();
    let tester = SettlementTester::new();
    tester.setup_test_state(&mut storage);
    commits::set(&mut storage, &Commitment::new("lp".to_string(), vec![])).unwrap();
    let error = handle(&mut storage, MOCK_BLOCK_TIME, MOCK_CONTRACT_ADDR.to_string(), "lp".to_string(), vec![])
        .expect_err("should throw error");
    assert_eq!(ContractError::InvalidCommitmentState {}.message(), error.message());
}

#[test]
fn test_handle_should_throw_error_when_settlement_expired() {
    let mut storage = ContractStorage::new();
    let mut tester = SettlementTester::new();
    tester.setup_test_state(&mut storage);
    tester.create_security_commitments(1);
    let deposit = tester.security_commitments.clone();
    let mut commitment = Commitment::new("lp".to_string(), tester.security_commitments.clone());
    commitment.state = CommitmentState::ACCEPTED;
    commitment.settlment_date = Some(MOCK_BLOCK_TIME - 1);
    commitment.commitments[0].amount = 1;
    commits::set(&mut storage, &commitment).unwrap();
    securities::set(&mut storage, &tranche(&tester.security_commitments[0].name, 1)).unwrap();
    let error = handle(&mut storage, MOCK_BLOCK_TIME, MOCK_CONTRACT_ADDR.to_string(), "lp".to_string(), deposit)
        .expect_err("should throw error");
    assert_eq!(ContractError::SettlmentExpired {}.message(), error.message());
}

#[test]
fn test_handle_should_throw_error_when_drawdown_not_met() {
    let mut storage = ContractStorage::new();
    let mut tester = SettlementTester::new();
    tester.create_security_commitments(1);
    let deposit = tester.security_commitments.clone();
    let mut commitment = Commitment::new("lp".to_string(), vec![]);
    commitment.state = CommitmentState::ACCEPTED;
    tester.setup_test_state(&mut storage);
    commits::set(&mut storage, &commitment).unwrap();
    let error = handle(&mut storage, MOCK_BLOCK_TIME, MOCK_CONTRACT_ADDR.to_string(), "lp".to_string(), deposit)
        .expect_err("should throw error");
    assert_eq!(ContractError::InvalidSecurityCommitment {}.message(), error.message());
}

fn expect_deposit_response(storage: &mut ContractStorage, deposit: Vec<SecurityCommitment>) {
    let response = handle(storage, MOCK_BLOCK_TIME, MOCK_CONTRACT_ADDR.to_string(), "lp".to_string(), deposit)
        .expect("Should not throw error");
    assert_eq!(1, response.messages.len());
    assert_eq!(2, response.attributes.len());
    assert_eq!(Attribute::new("action", "deposit_commitment"), response.attributes[0]);
    assert_eq!(Attribute::new("lp", "lp"), response.attributes[1]);
}

#[test]
fn test_handle_should_work() {
    let mut storage = ContractStorage::new();
    let mut tester = SettlementTester::new();
    tester.setup_test_state(&mut storage);
    tester.create_security_commitments(1);
    let deposit = tester.security_commitments.clone();
    let mut commitment = Commitment::new("lp".to_string(), tester.security_commitments.clone());
    commitment.state = CommitmentState::ACCEPTED;
    commits::set(&mut storage, &commitment).unwrap();
    securities::set(&mut storage, &tranche(&tester.security_commitments[0].name, 1)).unwrap();
    expect_deposit_response(&mut storage, deposit);
}

#[test]
fn test_handle_should_work_with_zero_on_a_security() {
    let mut storage = ContractStorage::new();
    let mut tester = SettlementTester::new();
    tester.setup_test_state(&mut storage);
    tester.create_security_commitments(2);
    tester.security_commitments[1].amount = 0;
    let mut deposit = tester.security_commitments.clone();
    deposit[1].amount = 0;
    let mut commitment = Commitment::new("lp".to_string(), tester.security_commitments.clone());
    commitment.state = CommitmentState::ACCEPTED;
    commits::set(&mut storage, &commitment).unwrap();
    securities::set(&mut storage, &tranche(&tester.security_commitments[0].name, 1)).unwrap();
    securities::set(&mut storage, &tranche(&tester.security_commitments[1].name, 0)).unwrap();
    expect_deposit_response(&mut storage, deposit);
}

#[test]
fn test_handle_should_work_with_multiple() {
    let mut storage = ContractStorage::new();
    let mut tester = SettlementTester::new();
    tester.setup_test_state(&mut storage);
    tester.create_security_commitments(2);
    tester.security_commitments[1].amount = 0;
    let deposit = tester.security_commitments.clone();
    let mut commitment = Commitment::new("lp".to_string(), tester.security_commitments.clone());
    commitment.state = CommitmentState::ACCEPTED;
    commits::set(&mut storage, &commitment).unwrap();
    securities::set(&mut storage, &tranche(&tester.security_commitments[0].name, 1)).unwrap();
    securities::set(&mut storage, &tranche(&tester.security_commitments[1].name, 0)).unwrap();
    expect_deposit_response(&mut storage, deposit);
}

#[test]
fn test_deposit_exceeds_commitment_throws_error_on_invalid_lp() {
    let storage = ContractStorage::new();
    deposit_exceeds_commitment(&storage, "bad address".to_string(), &[])
        .expect_err("should throw error on invalid lp");
}

fn stored_commitment(storage: &mut ContractStorage, tester: &mut SettlementTester) -> Commitment {
    tester.setup_test_state(storage);
    tester.create_security_commitments(1);
    let commitment = Commitment::new("lp".to_string(), tester.security_commitments.clone());
    commits::set(storage, &commitment).unwrap();
    commitment
}

#[test]
fn test_deposit_exceeds_commitment_should_succeed_on_empty_deposit() {
    let mut storage = ContractStorage::new();
    let mut tester = SettlementTester::new();
    let commitment = stored_commitment(&mut storage, &mut tester);
    deposit_exceeds_commitment(&storage, commitment.lp, &[]).expect("should not throw an error");
}

#[test]
fn test_deposit_exceeds_commitment_should_fail_on_invalid_security() {
    let mut storage = ContractStorage::new();
    let mut tester = SettlementTester::new();
    let commitment = stored_commitment(&mut storage, &mut tester);
    tester.create_security_commitments(1);
    let deposit = tester.security_commitments.clone();
    assert_eq!(true, deposit_exceeds_commitment(&storage, commitment.lp, &deposit).unwrap());
}

#[test]
fn test_deposit_exceeds_commitment_should_fail_on_initial_deposit_that_exceeds() {
    let mut storage = ContractStorage::new();
    let mut tester = SettlementTester::new();
    let commitment = stored_commitment(&mut storage, &mut tester);
    let mut deposit = tester.security_commitments.clone();
    deposit[0].amount += 1;
    assert_eq!(true, deposit_exceeds_commitment(&storage, commitment.lp, &deposit).unwrap());
}

#[test]
fn test_deposit_exceeds_commitment_should_fail_on_additional_deposit_that_exceeds() {
    let mut storage = ContractStorage::new();
    let mut tester = SettlementTester::new();
    let commitment = stored_commitment(&mut storage, &mut tester);
    paid_in_capital::set(&mut storage, commitment.lp.clone(), &tester.security_commitments).unwrap();
    let deposit = tester.security_commitments.clone();
    assert_eq!(true, deposit_exceeds_commitment(&storage, commitment.lp.clone(), &deposit).unwrap());
}

#[test]
fn test_deposit_exceeds_commitment_should_succeed_on_valid_initial_deposit() {
    let mut storage = ContractStorage::new();
    let mut tester = SettlementTester::new();
    let commitment = stored_commitment(&mut storage, &mut tester);
    let deposit = tester.security_commitments.clone();
    assert_eq!(false, deposit_exceeds_commitment(&storage, commitment.lp.clone(), &deposit).unwrap());
}

#[test]
fn test_deposit_exceeds_commitment_should_succeed_on_additional_deposit() {
    let mut storage = ContractStorage::new();
    let mut tester = SettlementTester::new();
    let commitment = stored_commitment(&mut storage, &mut tester);
    let mut small_deposit = tester.security_commitments.clone();
    small_deposit[0].amount = 1;
    paid_in_capital::set(&mut storage, commitment.lp.clone(), &small_deposit).unwrap();
    assert_eq!(false, deposit_exceeds_commitment(&storage, commitment.lp.clone(), &small_deposit).unwrap());
}

#[test]
fn deposit_records_paid_and_available_capital() {
    let mut storage = ContractStorage::new();
    let mut tester = SettlementTester::new();
    tester.setup_test_state(&mut storage);
    tester.create_security_commitments(1);
    let deposit = tester.security_commitments.clone();
    let commitment = accepted("lp", tester.security_commitments.clone());
    commits::set(&mut storage, &commitment).unwrap();
    securities::set(&mut storage, &tranche(&tester.security_commitments[0].name, 1)).unwrap();
    handle(&mut storage, MOCK_BLOCK_TIME, MOCK_CONTRACT_ADDR.to_string(), "lp".to_string(), deposit.clone()).unwrap();
    assert_eq!(paid_in_capital::get(&storage, "lp".to_string()), deposit);
    assert_eq!(available_capital::get_capital(&storage, "lp".to_string()).unwrap(), vec![Coin::new(11, "denom")]);
    let error = handle(&mut storage, MOCK_BLOCK_TIME, MOCK_CONTRACT_ADDR.to_string(), "lp".to_string(), deposit)
        .unwrap_err();
    assert_eq!(ContractError::ExcessiveDeposit {}.message(), error.message());
}
