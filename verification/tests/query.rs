use contract::common::msg::QueryMsg;
use contract::execute::settlement::commitment::CommitmentState;
use contract::execute::settlement::whitelist_loanpool_contributors::handle as whitelist_loanpool_handle;
use contract::query::router::{route, QueryAnswer};
use contract::storage::ContractStorage;
use contract::util::testing::{
    create_test_securities, create_testing_commitments, instantiate_contract, propose_test_commitment,
    test_init_message, test_security_commitments, MOCK_BLOCK_TIME,
};

fn instantiated() -> ContractStorage {
    let mut storage = ContractStorage::new();
    instantiate_contract(&mut storage).expect("should be able to instantiate contract");
    storage
}

fn with_one_proposal() -> ContractStorage {
    let mut storage = instantiated();
    propose_test_commitment(&mut storage, MOCK_BLOCK_TIME, "lp1").unwrap();
    storage
}

fn with_testing_commitments() -> ContractStorage {
    let mut storage = instantiated();
    assert!(create_testing_commitments(&mut storage, MOCK_BLOCK_TIME));
    storage
}

fn commitments_in(storage: &ContractStorage, state: CommitmentState) -> Vec<contract::execute::settlement::commitment::Commitment> {
    match route(storage, QueryMsg::QueryCommitments { commitment_state: state }).unwrap() {
        QueryAnswer::Commitments(value) => value.commitments,
        other => panic!("unexpected answer: {:?}", other),
    }
}

fn check_commitments(storage: &ContractStorage, state: CommitmentState, count: usize, first_lp: usize) {
    let commitments = commitments_in(storage, state);
    assert_eq!(count, commitments.len());
    for i in 0..commitments.len() {
        assert_eq!(format!("lp{}", i + first_lp), commitments[i].lp);
        assert_eq!(test_security_commitments(), commitments[i].commitments);
        assert_eq!(state, commitments[i].state);
    }
}

fn investor_answer(storage: &ContractStorage) {
    let answer = route(storage, QueryMsg::QueryInvestor { investor: "lp1".to_string() }).unwrap();
    assert!(matches!(answer, QueryAnswer::Investor(_)));
}

fn pending_answer(storage: &ContractStorage) {
    let answer = route(storage, QueryMsg::QueryCommitments { commitment_state: CommitmentState::PENDING }).unwrap();
    assert!(matches!(answer, QueryAnswer::Commitments(_)));
}

fn state_answer(storage: &ContractStorage) {
    assert!(matches!(route(storage, QueryMsg::QueryState {}).unwrap(), QueryAnswer::State(_)));
}

fn version_answer(storage: &ContractStorage) {
    assert!(matches!(route(storage, QueryMsg::QueryVersion {}).unwrap(), QueryAnswer::Version(_)));
}

fn securitizations_answer(storage: &ContractStorage) {
    let answer = route(storage, QueryMsg::QuerySecuritizations { securities: vec!["Security1".to_string()] }).unwrap();
    assert!(matches!(answer, QueryAnswer::Securitizations(_)));
}

#[test]
fn mod_tests_query_investor_has_correct_response() {
    investor_answer(&with_one_proposal());
}

#[test]
fn mod_tests_query_pending_commits_has_correct_response() {
    pending_answer(&with_one_proposal());
}

#[test]
fn mod_tests_query_state_has_correct_response() {
    state_answer(&with_one_proposal());
}

#[test]
fn mod_tests_query_version_has_correct_response() {
    version_answer(&with_one_proposal());
}

#[test]
fn mod_tests_query_securitizations_has_correct_response() {
    securitizations_answer(&instantiated());
}

#[test]
fn router_tests_query_investor_has_correct_response() {
    investor_answer(&with_one_proposal());
}

#[test]
fn router_tests_query_pending_commits_has_correct_response() {
    pending_answer(&with_one_proposal());
}

#[test]
fn router_tests_query_state_has_correct_response() {
    state_answer(&with_one_proposal());
}

#[test]
fn router_tests_query_version_has_correct_response() {
    version_answer(&with_one_proposal());
}

#[test]
fn router_tests_query_securitizations_has_correct_response() {
    securitizations_answer(&instantiated());
}

#[test]
fn query_commitments_test_pending_commitments() {
    check_commitments(&with_testing_commitments(), CommitmentState::PENDING, 3, 4);
}

#[test]
fn query_pending_commitments_test_pending_commitments() {
    check_commitments(&with_testing_commitments(), CommitmentState::PENDING, 3, 4);
}

#[test]
fn test_accepted_commitments() {
    check_commitments(&with_testing_commitments(), CommitmentState::ACCEPTED, 3, 1);
}

#[test]
fn test_settled_commitments() {
    check_commitments(&with_testing_commitments(), CommitmentState::SETTLED, 1, 7);
}

#[test]
fn test_query_investor() {
    let storage = with_testing_commitments();
    let answer = route(&storage, QueryMsg::QueryInvestor { investor: "lp1".to_string() }).unwrap();
    let value = match answer {
        QueryAnswer::Investor(value) => value,
        other => panic!("unexpected answer: {:?}", other),
    };
    assert_eq!(test_security_commitments(), value.paid_in_capital);
    assert_eq!("lp1", value.commitment.lp);
    assert_eq!(test_security_commitments(), value.commitment.commitments);
    assert_eq!(CommitmentState::ACCEPTED, value.commitment.state);
}

fn securities_of(names: Vec<&str>) -> Vec<contract::common::security::Security> {
    let storage = instantiated();
    let securities = names.into_iter().map(|n| n.to_string()).collect();
    match route(&storage, QueryMsg::QuerySecuritizations { securities }).unwrap() {
        QueryAnswer::Securitizations(value) => value.securities,
        other => panic!("unexpected answer: {:?}", other),
    }
}

#[test]
fn test_query_single_securitizations() {
    let expected = create_test_securities();
    let securities = securities_of(vec!["Security1"]);
    assert_eq!(1, securities.len());
    assert_eq!(expected[0], securities[0]);
}

#[test]
fn test_query_multiple_securitizations() {
    let expected = create_test_securities();
    let securities = securities_of(vec!["Security1", "Security2"]);
    assert_eq!(2, securities.len());
    assert_eq!(expected[0], securities[0]);
    assert_eq!(expected[1], securities[1]);
}

#[test]
fn unknown_security_query_fails() {
    let storage = instantiated();
    route(&storage, QueryMsg::QuerySecuritizations { securities: vec!["Security9".to_string()] }).unwrap_err();
}

#[test]
fn test_has_correct_state() {
    let storage = instantiated();
    let value = match route(&storage, QueryMsg::QueryState {}).unwrap() {
        QueryAnswer::State(value) => value,
        other => panic!("unexpected answer: {:?}", other),
    };
    let expected = test_init_message();
    let securities: Vec<String> = expected.securities.iter().map(|security| security.name.clone()).collect();
    assert_eq!(expected.gp, value.gp);
    assert_eq!(expected.capital_denom, value.capital_denom);
    assert_eq!(expected.settlement_time, value.settlement_time);
    assert_eq!(securities, value.securities);
}

fn contributors(storage: &ContractStorage) -> Vec<String> {
    match route(storage, QueryMsg::QueryLoanPoolContributors {}).unwrap() {
        QueryAnswer::LoanPoolContributors(value) => value.contributors,
        other => panic!("unexpected answer: {:?}", other),
    }
}

#[test]
fn test_all_whitelist_success() {
    let mut storage = instantiated();
    let whitelist_result = whitelist_loanpool_handle(&mut storage, "gp".to_string(), vec!["contributor".to_string()]);
    assert!(whitelist_result.is_ok());
    assert_eq!(1, contributors(&storage).len());
}

#[test]
fn test_all_contributors_none_exists() {
    let storage = instantiated();
    assert_eq!(0, contributors(&storage).len());
}

#[test]
fn version_is_recorded_by_instantiation() {
    let storage = instantiated();
    match route(&storage, QueryMsg::QueryVersion {}).unwrap() {
        QueryAnswer::Version(value) => {
            assert_eq!("contract", value.contract_version.contract);
            assert_eq!("0.1.0", value.contract_version.version);
        }
        other => panic!("unexpected answer: {:?}", other),
    }
}
