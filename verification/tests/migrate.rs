use contract::common::error::ContractError;
use contract::common::msg::MigrateMsg;
use contract::contract::migrate;
use contract::migrate::handler::{handle, handle_when_readable, validate_migration};
use contract::storage::{ContractStorage, ContractVersion};

fn recorded(contract: &str, version: &str) -> ContractStorage {
    let mut storage = ContractStorage::new();
    storage.contract_version = Some(ContractVersion { contract: contract.to_string(), version: version.to_string() });
    storage
}

#[test]
fn migration_of_the_same_version_is_accepted() {
    let storage = recorded("contract", "0.1.0");
    validate_migration(&storage).unwrap();
    let response = handle(&storage, MigrateMsg {}).unwrap();
    assert_eq!(0, response.messages.len());
    assert_eq!(0, response.attributes.len());
}

#[test]
fn migration_from_a_newer_version_is_accepted() {
    validate_migration(&recorded("contract", "1.2.0")).unwrap();
    validate_migration(&recorded("contract", "0.1.1")).unwrap();
}

#[test]
fn migration_from_an_older_version_is_refused() {
    assert_eq!(Err(ContractError::InvalidVersion {}), validate_migration(&recorded("contract", "0.0.9")));
    assert_eq!(Err(ContractError::InvalidVersion {}), validate_migration(&recorded("contract", "0.1.0-alpha")));
}

#[test]
fn migration_of_another_contract_is_refused() {
    assert_eq!(Err(ContractError::ContractNameMismatch {}), validate_migration(&recorded("other", "0.1.0")));
}

#[test]
fn migration_without_a_recorded_version_is_refused() {
    let error = validate_migration(&ContractStorage::new()).unwrap_err();
    assert!(matches!(error, ContractError::Std(_)));
}

#[test]
fn migrate_entry_point_changes_nothing() {
    let mut storage = recorded("contract", "0.1.0");
    migrate(&mut storage, MigrateMsg {});
    assert_eq!(
        Some(ContractVersion { contract: "contract".to_string(), version: "0.1.0".to_string() }),
        storage.contract_version
    );
}

#[test]
fn unreadable_recorded_version_is_not_migrated() {
    assert!(handle_when_readable(&recorded("contract", "not a version"), MigrateMsg {}).is_none());
    assert!(handle_when_readable(&recorded("contract", "0.2.0"), MigrateMsg {}).unwrap().is_ok());
    assert_eq!(
        Err(ContractError::InvalidVersion {}),
        handle_when_readable(&recorded("contract", "0.0.1"), MigrateMsg {}).unwrap().map(|_| ())
    );
}
