use contract::common::error::StdError;
use contract::common::messages::{AccessGrant, ACCESS_ADMIN, ACCESS_BURN, ACCESS_MINT, ACCESS_WITHDRAW, MARKER_TYPE_COIN};
use contract::common::msg::{InstantiateMsg, CONTRACT_NAME, CONTRACT_VERSION};
use contract::common::security::{Coin, Security, SecurityType, TrancheSecurity};
use contract::contract::instantiate;
use contract::instantiate::new_active_marker;
use contract::storage::{remaining_securities, securities, state, ContractStorage};
use contract::util::provenance_utilities::{activate_marker, create_marker, finalize_marker, grant_marker_access};
use contract::util::testing::MOCK_CONTRACT_ADDR;

#[test]
fn test_new_active_marker_creates_and_activates_marker() {
    let address = "address".to_string();
    let denom = "denom".to_string();
    let amount = 1000;
    let permissions = vec![AccessGrant { address: address.clone(), permissions: vec![ACCESS_ADMIN, ACCESS_MINT, ACCESS_BURN, ACCESS_WITHDRAW] }];
    let messages = new_active_marker(address.clone(), &denom, amount).unwrap();
    assert_eq!(4, messages.len());
    assert_eq!(create_marker(amount, denom.clone(), MARKER_TYPE_COIN, address.clone()).unwrap(), messages[0]);
    assert_eq!(grant_marker_access(denom.clone(), address.clone(), permissions).unwrap(), messages[1]);
    assert_eq!(finalize_marker(denom.clone(), address.clone()).unwrap(), messages[2]);
    assert_eq!(activate_marker(denom.clone(), address.clone()).unwrap(), messages[3]);
}

#[test]
fn test_new_active_marker_throws_errors_on_invalid_marker_txs() {
    let bad_addr = new_active_marker("".to_string(), &"mycustomdenom".to_string(), 1000).unwrap_err();
    assert_eq!(StdError::GenericErr { msg: "address must not be empty".to_string() }, bad_addr);
    let bad_denom = new_active_marker("address".to_string(), &"".to_string(), 1000).unwrap_err();
    assert_eq!(StdError::GenericErr { msg: "denom must not be empty".to_string() }, bad_denom);
}

fn tranche(name: &str) -> Security {
    Security {
        name: name.to_string(),
        amount: 1000,
        minimum_amount: 100,
        price_per_unit: Coin::new(100, "denom"),
        security_type: SecurityType::Tranche(TrancheSecurity {}),
    }
}

#[test]
fn test_with_valid_data() {
    let mut storage = ContractStorage::new();
    let securities_list = vec![tranche("Tranche 1"), tranche("Tranche 2")];
    let init_msg = InstantiateMsg {
        gp: "gp".to_string(),
        securities: securities_list.iter().map(|s| Security { name: s.name.clone(), amount: s.amount, minimum_amount: s.minimum_amount, price_per_unit: Coin::new(100, "denom"), security_type: s.security_type }).collect(),
        capital_denom: "denom".to_string(),
        settlement_time: None,
        fee: None,
    };
    let res = instantiate(&mut storage, MOCK_CONTRACT_ADDR.to_string(), &[], init_msg).expect("unable to initialize contract");
    assert_eq!(8, res.messages.len());
    assert_eq!(1, res.attributes.len());
    assert_eq!("action", res.attributes[0].key);
    assert_eq!("init", res.attributes[0].value);
    let version = storage.contract_version.as_ref().unwrap();
    assert_eq!(CONTRACT_VERSION, version.version);
    assert_eq!(CONTRACT_NAME, version.contract);
    let st = state::get(&storage).unwrap();
    assert_eq!("denom".to_string(), st.capital_denom);
    assert_eq!("gp".to_string(), st.gp);
    assert_eq!(None, st.settlement_time);
    for security in securities_list {
        let saved = securities::get(&storage, security.name.clone()).unwrap();
        assert_eq!(security, saved);
        let remaining = remaining_securities::get(&storage, security.name.clone()).unwrap();
        assert_eq!(security.amount, remaining);
    }
}

#[test]
fn test_with_invalid_data() {
    let mut storage = ContractStorage::new();
    let init_msg = InstantiateMsg { gp: "gp".to_string(), securities: vec![], capital_denom: "denom".to_string(), settlement_time: None, fee: None };
    instantiate(&mut storage, MOCK_CONTRACT_ADDR.to_string(), &[], init_msg).expect_err("expected error in invalid instantiate");
    assert!(storage.state.is_none());
}

#[test]
fn instantiate_refuses_funds() {
    let mut storage = ContractStorage::new();
    let init_msg = InstantiateMsg { gp: "gp".to_string(), securities: vec![tranche("Tranche 1")], capital_denom: "denom".to_string(), settlement_time: None, fee: None };
    let err = instantiate(&mut storage, MOCK_CONTRACT_ADDR.to_string(), &[Coin::new(1, "denom")], init_msg).unwrap_err();
    assert_eq!(contract::common::error::ContractError::UnexpectedFunds {}, err);
}

#[test]
fn instantiate_names_investment_tokens_after_contract() {
    let mut storage = ContractStorage::new();
    let init_msg = InstantiateMsg { gp: "gp".to_string(), securities: vec![tranche("Tranche 1")], capital_denom: "denom".to_string(), settlement_time: Some(7), fee: None };
    let res = instantiate(&mut storage, MOCK_CONTRACT_ADDR.to_string(), &[], init_msg).unwrap();
    let expected = new_active_marker(MOCK_CONTRACT_ADDR.to_string(), &format!("{}.Tranche 1", MOCK_CONTRACT_ADDR), 0).unwrap();
    assert_eq!(expected, res.messages);
    assert_eq!(Some(7), state::get(&storage).unwrap().settlement_time);
}
