use contract::contract::execute;
use contract::execute::settlement::update_settlement_time;
use contract::storage::{state, ContractStorage};
use contract::util::testing::{
    instantiate_contract, test_update_settlement_time_message, update_settlement_time_test, MOCK_BLOCK_TIME,
    MOCK_CONTRACT_ADDR,
};

fn instantiated() -> ContractStorage {
    let mut storage = ContractStorage::new();
    instantiate_contract(&mut storage).expect("should be able to instantiate contract");
    storage
}

#[test]
fn routing_a_message_does_what_its_handler_does() {
    for sender in ["gp", "lp1"] {
        let mut routed = instantiated();
        let mut direct = instantiated();
        let by_route = execute(
            &mut routed,
            MOCK_BLOCK_TIME,
            MOCK_CONTRACT_ADDR.to_string(),
            sender.to_string(),
            test_update_settlement_time_message(),
            vec![],
        );
        let by_handler = update_settlement_time::handle(&mut direct, sender.to_string(), Some(99999));
        assert_eq!(by_route, by_handler);
        assert_eq!(state::get(&routed).unwrap(), state::get(&direct).unwrap());
    }
}

#[test]
fn the_settlement_time_step_changes_the_settlement_time() {
    let mut storage = instantiated();
    update_settlement_time_test(&mut storage, MOCK_BLOCK_TIME, "gp").unwrap();
    assert_eq!(Some(99999), state::get(&storage).unwrap().settlement_time);
}

#[test]
fn the_test_run_stops_at_the_first_refused_step() {
    let mut storage = ContractStorage::new();
    assert!(!contract::util::testing::create_testing_commitments(&mut storage, MOCK_BLOCK_TIME));
    assert!(state::get(&storage).is_err());
    let mut storage = instantiated();
    assert!(contract::util::testing::create_testing_commitments(&mut storage, MOCK_BLOCK_TIME));
}
