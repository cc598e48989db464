use contract::common::security::{Coin, Security, SecurityType, TrancheSecurity};
use contract::execute::settlement::commitment::Commitment;
use contract::storage::state::{get_settlement_time, State};
use contract::storage::{commits, securities, state, ContractStorage};

#[test]
fn test_new_state() {
    let expected_addr = "address".to_string();
    let expected_capital_denom = "nhash";
    let expected_time = Some(0u64);
    let state = State::new(expected_addr.clone(), expected_capital_denom.to_string(), expected_time);
    assert_eq!(expected_addr, state.gp);
    assert_eq!(expected_capital_denom, state.capital_denom);
    assert_eq!(expected_time, state.settlement_time);
}

#[test]
fn state_test_get_invalid() {
    let storage = ContractStorage::new();
    state::get(&storage).unwrap_err();
}

#[test]
fn state_test_get_set_valid() {
    let mut storage = ContractStorage::new();
    let state = State::new("address".to_string(), "nhash".to_string(), Some(0));
    state::set(&mut storage, &state).unwrap();
    let obtained = state::get(&storage).unwrap();
    assert_eq!(state, obtained);
}

#[test]
fn test_get_settlement_time_not_set() {
    let mut storage = ContractStorage::new();
    let state = State::new("address".to_string(), "nhash".to_string(), None);
    state::set(&mut storage, &state).unwrap();
    let settlement_time = get_settlement_time(&storage).unwrap();
    assert_eq!(None, settlement_time);
}

#[test]
fn test_get_settlement_time_set() {
    let mut storage = ContractStorage::new();
    let expected_time = Some(0u64);
    let state = State::new("address".to_string(), "nhash".to_string(), expected_time);
    state::set(&mut storage, &state).unwrap();
    let settlement_time = get_settlement_time(&storage).unwrap();
    assert_eq!(expected_time, settlement_time);
}

#[test]
fn test_set_settlement() {
    let mut storage = ContractStorage::new();
    let expected_time = Some(9999u64);
    let state = State::new("address".to_string(), "nhash".to_string(), None);
    state::set(&mut storage, &state).unwrap();
    state::set_settlement_time(&mut storage, expected_time).unwrap();
    let obtained = state::get(&storage).unwrap();
    assert_eq!(expected_time, obtained.settlement_time);
}

#[test]
fn state_set_settlement_time_without_state_fails() {
    let mut storage = ContractStorage::new();
    state::set_settlement_time(&mut storage, Some(5)).unwrap_err();
    assert!(storage.state.is_none());
}

#[test]
fn commits_test_get_invalid() {
    let storage = ContractStorage::new();
    commits::get(&storage, "bad address".to_string()).unwrap_err();
}

#[test]
fn commits_test_remove() {
    let mut storage = ContractStorage::new();
    let lp = "lp".to_string();
    let commitment = Commitment::new(lp.clone(), vec![]);
    commits::set(&mut storage, &commitment).unwrap();
    commits::remove(&mut storage, lp.clone());
    assert_eq!(false, commits::contains(&storage, lp));
}

#[test]
fn commits_test_get_set_valid() {
    let mut storage = ContractStorage::new();
    let lp = "lp".to_string();
    let commitment = Commitment::new(lp.clone(), vec![]);
    commits::set(&mut storage, &commitment).unwrap();
    let obtained = commits::get(&storage, lp).unwrap();
    assert_eq!(commitment, obtained);
}

#[test]
fn commits_test_exists() {
    let mut storage = ContractStorage::new();
    let lp = "lp".to_string();
    let commitment = Commitment::new(lp.clone(), vec![]);
    assert!(!commits::contains(&storage, lp.clone()));
    commits::set(&mut storage, &commitment).unwrap();
    assert!(commits::contains(&storage, lp));
}

#[test]
fn test_update_settlement_time() {
    let mut storage = ContractStorage::new();
    let lps = vec!["lp".to_string(), "lp2".to_string()];
    let settlement_time = Some(9999u64);
    for lp in lps.clone() {
        let commitment = Commitment::new(lp.clone(), vec![]);
        commits::set(&mut storage, &commitment).unwrap();
    }
    commits::set_settlement_time(&mut storage, settlement_time).unwrap();
    for lp in lps {
        let commit = commits::get(&storage, lp).unwrap();
        assert_eq!(settlement_time, commit.settlment_date);
    }
}

#[test]
fn test_update_settlement_time_empty() {
    let mut storage = ContractStorage::new();
    commits::set_settlement_time(&mut storage, None).unwrap();
}

#[test]
fn commits_with_state_are_in_address_order() {
    let mut storage = ContractStorage::new();
    for lp in ["lp3", "lp1", "lp2"] {
        commits::set(&mut storage, &Commitment::new(lp.to_string(), vec![])).unwrap();
    }
    let pending = commits::get_with_state(&storage, contract::execute::settlement::commitment::CommitmentState::PENDING);
    let lps: Vec<String> = pending.iter().map(|c| c.lp.clone()).collect();
    assert_eq!(vec!["lp1".to_string(), "lp2".to_string(), "lp3".to_string()], lps);
}

#[test]
fn securities_test_get_invalid() {
    let storage = ContractStorage::new();
    securities::get(&storage, "badname".to_string()).unwrap_err();
}

#[test]
fn securities_test_get_set_valid() {
    let mut storage = ContractStorage::new();
    let security = Security {
        name: "Security1".to_string(),
        amount: 100,
        security_type: SecurityType::Tranche(TrancheSecurity {}),
        minimum_amount: 10,
        price_per_unit: Coin::new(100, "denom"),
    };
    securities::set(&mut storage, &security).unwrap();
    let obtained = securities::get(&storage, security.name.clone()).unwrap();
    assert_eq!(security, obtained);
}
