use contract::common::security::Coin;
use contract::storage::available_capital::{add_capital, add_to_capital, get_capital, get_lps, has_lp, remove_capital};
use contract::storage::ContractStorage;

#[test]
fn test_add_to_capital_works_with_empty() {
    let coin = Coin::new(100, "denom");
    let mut capital = vec![];
    add_to_capital(&coin, &mut capital);
    assert_eq!(0, capital.len());
}

#[test]
fn test_add_to_capital_updates_first_capital() {
    let coin = Coin::new(100, "denom");
    let mut capital = vec![Coin::new(100, "denom"), Coin::new(100, "denom")];
    add_to_capital(&coin, &mut capital);
    assert_eq!(2, capital.len());
    assert_eq!(Coin::new(200, "denom"), capital[0]);
    assert_eq!(Coin::new(100, "denom"), capital[1]);
}

#[test]
fn test_add_to_capital_ignores_invalid_coin() {
    let coin = Coin::new(100, "denom");
    let mut capital = vec![Coin::new(100, "denom2"), Coin::new(100, "denom")];
    add_to_capital(&coin, &mut capital);
    assert_eq!(2, capital.len());
    assert_eq!(Coin::new(100, "denom2"), capital[0]);
    assert_eq!(Coin::new(200, "denom"), capital[1]);
}

#[test]
fn test_remove_capital_success() {
    let mut storage = ContractStorage::new();
    let lp = "bad address".to_string();
    add_capital(&mut storage, lp.clone(), vec![Coin::new(50, "denom")]).unwrap();
    let removed = remove_capital(&mut storage, lp.clone()).unwrap();
    assert_eq!(50, removed.amount);
    assert_eq!(false, has_lp(&storage, lp));
}

#[test]
fn test_remove_capital_handles_invalid_lp() {
    let mut storage = ContractStorage::new();
    remove_capital(&mut storage, "bad address".to_string()).unwrap_err();
}

#[test]
fn test_has_lp() {
    let mut storage = ContractStorage::new();
    let lp = "lp".to_string();
    add_capital(&mut storage, lp.clone(), vec![Coin::new(50, "denom")]).unwrap();
    assert!(has_lp(&storage, lp));
    assert!(!has_lp(&storage, "bad address".to_string()));
}

#[test]
fn test_get_lps_not_empty() {
    let mut storage = ContractStorage::new();
    let lp = "lp".to_string();
    add_capital(&mut storage, lp.clone(), vec![Coin::new(50, "denom")]).unwrap();
    let lps = get_lps(&storage).unwrap();
    assert_eq!(1, lps.len());
    assert_eq!(lp, lps[0]);
    let lp2 = "lp2".to_string();
    add_capital(&mut storage, lp2.clone(), vec![Coin::new(50, "denom")]).unwrap();
    let lps = get_lps(&storage).unwrap();
    assert_eq!(2, lps.len());
    assert_eq!(lp, lps[0]);
    assert_eq!(lp2, lps[1]);
}

#[test]
fn test_get_lps_empty() {
    let storage = ContractStorage::new();
    assert_eq!(0, get_lps(&storage).unwrap().len());
}

#[test]
fn test_get_capital_invalid() {
    let storage = ContractStorage::new();
    get_capital(&storage, "bad address".to_string()).unwrap_err();
}

#[test]
fn test_get_capital_valid() {
    let mut storage = ContractStorage::new();
    let lp = "lp".to_string();
    let funds = vec![Coin::new(50, "denom")];
    add_capital(&mut storage, lp.clone(), funds.clone()).unwrap();
    assert_eq!(funds, get_capital(&storage, lp).unwrap());
}

#[test]
fn test_add_capital_new_entry() {
    let mut storage = ContractStorage::new();
    let lp = "lp".to_string();
    let funds = vec![Coin::new(50, "denom")];
    add_capital(&mut storage, lp.clone(), funds.clone()).unwrap();
    assert_eq!(funds, get_capital(&storage, lp).unwrap());
}

#[test]
fn test_add_capital_update_entry() {
    let mut storage = ContractStorage::new();
    let lp = "lp".to_string();
    let funds = vec![Coin::new(50, "denom")];
    add_capital(&mut storage, lp.clone(), funds.clone()).unwrap();
    add_capital(&mut storage, lp.clone(), funds.clone()).unwrap();
    assert_eq!(vec![Coin::new(100, "denom")], get_capital(&storage, lp).unwrap());
}

#[test]
fn lps_come_in_ascending_order() {
    let mut storage = ContractStorage::new();
    for lp in ["lpb", "lpa", "lpc"] {
        add_capital(&mut storage, lp.to_string(), vec![Coin::new(1, "denom")]).unwrap();
    }
    assert_eq!(vec!["lpa".to_string(), "lpb".to_string(), "lpc".to_string()], get_lps(&storage).unwrap());
}
