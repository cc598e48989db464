use contract::common::collateral::{AccessGrantSerializable, LoanPoolMarkerCollateral};
use contract::common::error::{ContractError, StdError};
use contract::common::response::{Event, Response};
use contract::common::security::ContributeLoanPools;
use contract::contract::instantiate;
use contract::execute::settlement::add_loan_pool::{
    create_marker_pool_collateral, get_marker_permission_revoke_messages, handle as add_loanpool_handle,
};
use contract::execute::settlement::whitelist_loanpool_contributors::handle as whitelist_loanpool_handle;
use contract::storage::{loan_pool_collateral, ContractStorage};
use contract::util::mock_marker::MockMarker;
use contract::util::provenance_utilities::{Balance, MarkerLookup, ProtoCoin};
use contract::util::testing::{test_init_message, MOCK_CONTRACT_ADDR};

fn instantiated() -> ContractStorage {
    let mut storage = ContractStorage::new();
    instantiate(&mut storage, MOCK_CONTRACT_ADDR.to_string(), &[], test_init_message())
        .expect("should be able to instantiate contract");
    storage
}

fn contributor_lookup() -> MarkerLookup {
    MarkerLookup {
        marker: Ok(MockMarker::new_owned_marker("contributor".to_string()).to_marker_account()),
        supply: Ok(100),
        holdings: Ok(vec![Balance {
            address: "markerdenom".to_string(),
            coins: vec![ProtoCoin { denom: "markerdenom".to_string(), amount: "100".to_string() }],
        }]),
    }
}

#[test]
fn test_coin_trade_with_valid_data() {
    let mut response = Response::new();
    response.add_event(Event::with_attribute("loanpool_added", "marker_address", "addr1"));
    response.add_event(Event::with_attribute("loanpool_added", "marker_address", "addr2"));
    assert_eq!(response.events.len(), 2);
}

#[test]
fn test_handle_not_in_whitelist() {
    let mut storage = instantiated();
    let marker = MockMarker::new_owned_marker("contributor".to_string());
    let loan_pools = ContributeLoanPools { markers: vec![marker.denom.clone()] };
    let result = add_loanpool_handle(
        &mut storage,
        MOCK_CONTRACT_ADDR.to_string(),
        "contributor".to_string(),
        loan_pools,
        vec![contributor_lookup()],
    );
    assert!(result.is_err());
    match result.unwrap_err() {
        ContractError::NotInWhitelist {} => (),
        _ => panic!("Unexpected error type"),
    }
}

#[test]
fn test_handle_in_whitelist() {
    let mut storage = instantiated();
    let marker = MockMarker::new_owned_marker("contributor".to_string());
    let whitelist_result = whitelist_loanpool_handle(&mut storage, "gp".to_string(), vec!["contributor".to_string()]);
    assert!(whitelist_result.is_ok());
    let response = whitelist_result.unwrap();
    for attribute in response.attributes.iter() {
        if attribute.key == "action" {
            assert_eq!(attribute.value, "whitelist_added");
        }
    }
    let loan_pools = ContributeLoanPools { markers: vec![marker.denom.clone()] };
    let expected_collaterals = vec![LoanPoolMarkerCollateral {
        marker_address: marker.address.clone(),
        marker_denom: marker.denom.clone(),
        share_count: marker.total_supply,
        original_contributor: "contributor".to_string(),
        removed_permissions: vec![AccessGrantSerializable::from_grant(marker.permissions[0].clone())],
    }];
    let response = add_loanpool_handle(
        &mut storage,
        MOCK_CONTRACT_ADDR.to_string(),
        "contributor".to_string(),
        loan_pools,
        vec![contributor_lookup()],
    )
    .expect("should add the loan pool");
    assert_eq!(response.data.unwrap().collaterals, expected_collaterals);
    assert_eq!(response.events.len(), 1);
    assert_eq!(response.events[0].ty, "loan_pool_added");
    assert_eq!(response.attributes.len(), 2);
    let mut found_attributes: Vec<String> = Vec::new();
    for attribute in response.attributes.iter() {
        match attribute.key.as_str() {
            "loan_pool_added_by" => {
                assert_eq!(attribute.value, "contributor");
                found_attributes.push(attribute.key.clone());
            }
            "action" => {
                assert_eq!(attribute.value, "loan_pool_added");
                found_attributes.push(attribute.key.clone());
            }
            _ => (),
        }
    }
    assert_eq!(found_attributes.len(), 2, "Did not find all required attributes");
    assert_eq!(response.messages.len(), 1);
    assert_eq!(
        expected_collaterals[0],
        loan_pool_collateral::get(&storage, marker.address.clone()).unwrap()
    );
}

#[test]
fn test_create_marker_pool_collateral_error_invalid_marker() {
    let lookup = MarkerLookup {
        marker: Err(StdError::GenericErr { msg: "no marker nonExistentMarkerDenom".to_string() }),
        supply: Ok(0),
        holdings: Ok(vec![]),
    };
    let result = create_marker_pool_collateral(&lookup, &"someAddress".to_string(), &MOCK_CONTRACT_ADDR.to_string());
    assert!(result.is_err());
    match result.unwrap_err() {
        ContractError::InvalidMarker { message } => {
            assert_eq!("Unable to get marker by denom: Generic error: no marker nonExistentMarkerDenom", message)
        }
        _ => panic!("Unexpected error type"),
    }
}

#[test]
fn test_get_marker_permission_revoke_messages() {
    let marker = MockMarker::new_owned_marker("markerOwner".to_string()).to_marker_account();
    let result = get_marker_permission_revoke_messages(&marker, &"contractAddress".to_string());
    assert!(result.is_ok());
    assert_eq!(result.unwrap().len(), marker.access_control.len());
}

#[test]
fn test_get_marker_permission_revoke_messages_contract_addr_there() {
    let marker = MockMarker::new_owned_marker("markerOwner".to_string()).to_marker_account();
    let result = get_marker_permission_revoke_messages(&marker, &"cosmos2contract".to_string());
    assert!(result.is_ok());
    assert_eq!(result.unwrap().len(), marker.access_control.len() - 1);
}

#[test]
fn marker_holding_more_than_its_fixed_supply_is_refused() {
    let mut lookup = contributor_lookup();
    lookup.holdings.as_mut().unwrap()[0].coins[0].amount = "150".to_string();
    let result = create_marker_pool_collateral(&lookup, &"contributor".to_string(), &MOCK_CONTRACT_ADDR.to_string());
    match result.unwrap_err() {
        ContractError::InvalidMarker { message } => assert_eq!(
            "expected marker [markerdenom] to be holding all the shares with supply [150], found [100]",
            message
        ),
        e => panic!("unexpected error: {:?}", e),
    }
}

#[test]
fn a_failed_holdings_query_is_answered_after_the_marker_checks() {
    let mut lookup = contributor_lookup();
    lookup.holdings = Err(contract::common::error::StdError::GenericErr { msg: "holdings unavailable".to_string() });
    let result = contract::execute::settlement::add_loan_pool::create_marker_pool_collateral(
        &lookup,
        &"contributor".to_string(),
        &contract::util::testing::MOCK_CONTRACT_ADDR.to_string(),
    );
    match result {
        Err(ContractError::Std(contract::common::error::StdError::GenericErr { msg })) => {
            assert_eq!("holdings unavailable", msg)
        }
        _ => panic!("expected the query's error"),
    }
    let mut not_admin = contributor_lookup();
    not_admin.holdings = Err(contract::common::error::StdError::GenericErr { msg: "holdings unavailable".to_string() });
    let result = contract::execute::settlement::add_loan_pool::create_marker_pool_collateral(
        &not_admin,
        &"someone_else".to_string(),
        &contract::util::testing::MOCK_CONTRACT_ADDR.to_string(),
    );
    assert!(matches!(result, Err(ContractError::InvalidMarker { .. })));
}
