use contract::common::collateral::LoanPoolMarkerCollateral;
use contract::common::messages::{AccessGrant, ACCESS_MINT, ACCESS_TRANSFER};
use contract::storage::loan_pool_collateral;
use contract::storage::loan_pool_collateral::{contains, get, get_all_states, get_with_state, remove};
use contract::storage::whitelist_contributors_store::{get_whitelist_contributors, remove_contributors, save_contributors};
use contract::storage::ContractStorage;

fn sample_collateral(addr: &str, denom: &str, amount: u128, permissions: Vec<AccessGrant>, original_owner: &str) -> LoanPoolMarkerCollateral {
    LoanPoolMarkerCollateral::new(addr.to_string(), denom.to_string(), amount, original_owner.to_string(), permissions)
}

#[test]
fn test_get_and_set() {
    let mut storage = ContractStorage::new();
    let marker_address = "addr1".to_string();
    let collateral = sample_collateral("addr1", "denom", 100, Vec::new(), "owner");
    loan_pool_collateral::set(&mut storage, &collateral).unwrap();
    let result = get(&storage, marker_address.clone()).unwrap();
    assert_eq!(result, collateral);
    remove(&mut storage, &result).unwrap();
    assert!(get(&storage, marker_address).is_err());
}

#[test]
fn test_get_and_set_non_empty_permissions() {
    let mut storage = ContractStorage::new();
    let marker_address = "addr1".to_string();
    let permissions = vec![AccessGrant { permissions: vec![ACCESS_MINT, ACCESS_TRANSFER], address: "addr2".to_string() }];
    let collateral = sample_collateral("addr1", "denom", 100, permissions, "owner");
    loan_pool_collateral::set(&mut storage, &collateral).unwrap();
    let result = get(&storage, marker_address.clone()).unwrap();
    assert_eq!(result, collateral);
    remove(&mut storage, &result).unwrap();
    assert!(get(&storage, marker_address).is_err());
}

#[test]
fn loan_pool_collateral_test_exists() {
    let mut storage = ContractStorage::new();
    let collateral = sample_collateral("addr1", "denom", 100, Vec::new(), "owner");
    loan_pool_collateral::set(&mut storage, &collateral).unwrap();
    assert!(contains(&storage, collateral.marker_address.clone()));
    remove(&mut storage, &collateral).unwrap();
    assert!(!contains(&storage, collateral.marker_address.clone()));
}

#[test]
fn test_get_with_state() {
    let mut storage = ContractStorage::new();
    let collateral1 = sample_collateral("addr1", "denom1", 100, Vec::new(), "owner");
    let collateral2 = sample_collateral("addr2", "denom1", 200, Vec::new(), "owner");
    let collateral3 = sample_collateral("addr3", "denom2", 300, Vec::new(), "owner");
    loan_pool_collateral::set(&mut storage, &collateral1).unwrap();
    loan_pool_collateral::set(&mut storage, &collateral2).unwrap();
    loan_pool_collateral::set(&mut storage, &collateral3).unwrap();
    let results = get_with_state(&storage, sample_collateral("", "denom1", 0, Vec::new(), "owner"));
    assert_eq!(results.len(), 2);
    assert_eq!(results.contains(&collateral1), true);
    assert_eq!(results.contains(&collateral2), true);
}

#[test]
fn test_get_all_states() {
    let mut storage = ContractStorage::new();
    let collateral1 = sample_collateral("addr1", "denom1", 100, Vec::new(), "owner");
    let collateral2 = sample_collateral("addr2", "denom1", 200, Vec::new(), "owner");
    let collateral3 = sample_collateral("addr3", "denom2", 300, Vec::new(), "owner");
    loan_pool_collateral::set(&mut storage, &collateral1).unwrap();
    loan_pool_collateral::set(&mut storage, &collateral2).unwrap();
    loan_pool_collateral::set(&mut storage, &collateral3).unwrap();
    let collaterals = get_all_states(&storage);
    assert_eq!(collaterals.len(), 3);
    assert_eq!(collaterals.contains(&collateral1), true);
    assert_eq!(collaterals.contains(&collateral2), true);
    assert_eq!(collaterals.contains(&collateral3), true);
}

#[test]
fn collateral_key_holding_paid_in_capital_does_not_read_as_collateral() {
    let mut storage = ContractStorage::new();
    contract::storage::paid_in_capital::set(&mut storage, "addr1".to_string(), &vec![]).unwrap();
    assert!(get(&storage, "addr1".to_string()).is_err());
}

#[test]
fn test_save_contributors() {
    let mut storage = ContractStorage::new();
    let contributors = vec!["addr1".to_string(), "addr2".to_string()];
    save_contributors(&mut storage, contributors.clone()).unwrap();
    assert_eq!(get_whitelist_contributors(&storage), contributors);
    save_contributors(&mut storage, vec!["addr3".to_string()]).unwrap();
    let expected = vec!["addr1".to_string(), "addr2".to_string(), "addr3".to_string()];
    assert_eq!(get_whitelist_contributors(&storage), expected);
}

#[test]
fn test_remove_contributors_no_key() {
    let mut storage = ContractStorage::new();
    let contributors = vec!["addr1".to_string(), "addr2".to_string()];
    assert!(remove_contributors(&mut storage, contributors).is_ok());
}

#[test]
fn whitelist_contributors_store_test_remove_contributors() {
    let contributors = vec!["addr1".to_string(), "addr2".to_string()];
    let mut storage = ContractStorage::new();
    save_contributors(&mut storage, contributors.clone()).unwrap();
    remove_contributors(&mut storage, contributors).unwrap();
    assert!(get_whitelist_contributors(&storage).is_empty());
    assert!(storage.whitelist.is_some());
}

#[test]
fn test_get_whitelist_contributors() {
    let mut storage = ContractStorage::new();
    assert!(get_whitelist_contributors(&storage).is_empty());
    let contributors = vec!["addr1".to_string(), "addr2".to_string()];
    save_contributors(&mut storage, contributors.clone()).unwrap();
    assert_eq!(get_whitelist_contributors(&storage), contributors);
}

#[test]
fn whitelist_remove_keeps_order_of_others() {
    let mut storage = ContractStorage::new();
    let all: Vec<String> = ["a", "b", "c", "d"].iter().map(|s| s.to_string()).collect();
    save_contributors(&mut storage, all).unwrap();
    remove_contributors(&mut storage, vec!["b".to_string(), "x".to_string()]).unwrap();
    assert_eq!(vec!["a".to_string(), "c".to_string(), "d".to_string()], get_whitelist_contributors(&storage));
}
