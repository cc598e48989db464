use contract::common::error::ContractError;
use contract::common::messages::ProvMsg;
use contract::common::response::Attribute;
use contract::common::security::Coin;
use contract::execute::settlement::cancel_commitment::{handle, refund_lp};
use contract::storage::state::State;
use contract::storage::{available_capital, commits, paid_in_capital, remaining_securities, state, ContractStorage};
use contract::util::testing::{create_testing_commitments, instantiate_contract, MOCK_BLOCK_TIME};

fn instantiated() -> ContractStorage {
    let mut storage = ContractStorage::new();
    instantiate_contract(&mut storage).expect("should be able to instantiate contract");
    storage
}

#[test]
fn test_handle_should_fail_when_sender_is_neither_gp_nor_owner() {
    let mut storage = ContractStorage::new();
    state::set(&mut storage, &State::new("gp".to_string(), "denom".to_string(), None)).unwrap();
    let error = handle(&mut storage, "lp1".to_string(), "lp2".to_string()).unwrap_err();
    assert_eq!(ContractError::Unauthorized {}.message(), error.message());
}

#[test]
fn test_handle_should_fail_when_settled() {
    let mut storage = instantiated();
    assert!(create_testing_commitments(&mut storage, MOCK_BLOCK_TIME));
    let error = handle(&mut storage, "lp7".to_string(), "lp7".to_string()).unwrap_err();
    assert_eq!(ContractError::AlreadySettled {}.message(), error.message());
}

#[test]
fn test_handle_should_have_messages_and_attributes() {
    let mut storage = instantiated();
    assert!(create_testing_commitments(&mut storage, MOCK_BLOCK_TIME));
    let res = handle(&mut storage, "gp".to_string(), "lp2".to_string()).unwrap();
    assert_eq!(0, res.events.len());
    assert_eq!(
        vec![
            Attribute::new("action", "cancel_commitment"),
            Attribute::new("sender", "gp"),
            Attribute::new("canceled_lp", "lp2"),
        ],
        res.attributes
    );
    assert_eq!(
        vec![ProvMsg::BankSend { to_address: "lp2".to_string(), amount: vec![Coin::new(10000, "denom")] }],
        res.messages
    );
}

#[test]
fn test_refund_should_ignore_invalid_lp() {
    let mut storage = instantiated();
    assert!(create_testing_commitments(&mut storage, MOCK_BLOCK_TIME));
    let res = refund_lp(&mut storage, "lp10".to_string()).unwrap();
    assert_eq!(0, res.len());
}

#[test]
fn test_refund_should_handle_proposed_commit() {
    let mut storage = instantiated();
    assert!(create_testing_commitments(&mut storage, MOCK_BLOCK_TIME));
    let res = refund_lp(&mut storage, "lp4".to_string()).unwrap();
    assert_eq!(0, res.len());
    assert_eq!(false, commits::contains(&storage, "lp4".to_string()));
}

#[test]
fn test_refund_should_handle_accepted_commit() {
    let mut storage = instantiated();
    assert!(create_testing_commitments(&mut storage, MOCK_BLOCK_TIME));
    let lp = "lp2".to_string();
    let refund_messages = refund_lp(&mut storage, lp.clone()).unwrap();
    assert_eq!(false, commits::contains(&storage, lp.clone()));
    assert_eq!(false, available_capital::has_lp(&storage, lp.clone()));
    assert_eq!(false, paid_in_capital::has_lp(&storage, lp.clone()));
    assert_eq!(650, remaining_securities::get(&storage, "Security1".to_string()).unwrap());
    assert_eq!(650, remaining_securities::get(&storage, "Security2".to_string()).unwrap());
    assert_eq!(
        vec![ProvMsg::BankSend { to_address: lp, amount: vec![Coin::new(10000, "denom")] }],
        refund_messages
    );
}

#[test]
fn test_refund_should_handle_accepted_commit_with_no_deposit() {
    let mut storage = instantiated();
    assert!(create_testing_commitments(&mut storage, MOCK_BLOCK_TIME));
    let lp = "lp3".to_string();
    let refund_messages = refund_lp(&mut storage, lp.clone()).unwrap();
    assert_eq!(false, commits::contains(&storage, lp.clone()));
    assert_eq!(false, available_capital::has_lp(&storage, lp.clone()));
    assert_eq!(false, paid_in_capital::has_lp(&storage, lp.clone()));
    assert_eq!(600, remaining_securities::get(&storage, "Security1".to_string()).unwrap());
    assert_eq!(600, remaining_securities::get(&storage, "Security2".to_string()).unwrap());
    assert_eq!(0, refund_messages.len());
}

#[test]
fn owner_may_cancel_a_pending_commitment() {
    let mut storage = instantiated();
    assert!(create_testing_commitments(&mut storage, MOCK_BLOCK_TIME));
    let res = handle(&mut storage, "lp4".to_string(), "lp4".to_string()).unwrap();
    assert_eq!(0, res.messages.len());
    assert_eq!(false, commits::contains(&storage, "lp4".to_string()));
    assert_eq!(600, remaining_securities::get(&storage, "Security1".to_string()).unwrap());
}
