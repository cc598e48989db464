//! Dispatches a message to the handler of its kind.

use vstd::prelude::*;
use crate::common::error::{ContractError, StdError};
use crate::common::msg::ExecuteMsg;
use crate::common::response::Response;
use crate::common::security::AcceptedCommitment;
use crate::execute::settlement::{
    accept_commitments, add_loan_pool, cancel_commitment, deposit_commitment, propose_commitment,
    remove_whitelist_loanpool_contributors, update_settlement_time, whitelist_loanpool_contributors,
    withdraw_all_commitments, withdraw_commitment, withdraw_loan_pool,
};
use crate::storage::ContractStorage;
use crate::util::provenance_utilities::{MarkerAccount, MarkerLookup};

verus! {

/// The addresses of accepted commitments, in order.
pub open spec fn accepted_lps(commitments: Seq<AcceptedCommitment>) -> Seq<Seq<char>> {
    commitments.map_values(|c: AcceptedCommitment| c.lp@)
}

/// The marker answers among the chain's answers, in order.
pub open spec fn looked_up_markers(lookups: Seq<MarkerLookup>) -> Seq<Result<MarkerAccount, StdError>> {
    lookups.map_values(|l: MarkerLookup| l.marker)
}

/// What a message asks of the stored values and of the chain's answers.
pub open spec fn route_admits(
    before: ContractStorage,
    now: u64,
    contract_address: String,
    sender: String,
    msg: ExecuteMsg,
    lookups: Vec<MarkerLookup>,
) -> bool {
    match msg {
        ExecuteMsg::DepositCommitment { securities } => deposit_commitment::handle_admits(
            before,
            now,
            contract_address,
            sender,
            securities,
        ),
        ExecuteMsg::WithdrawCommitment { lp } => withdraw_commitment::handle_admits(
            before,
            now,
            contract_address,
            sender,
            lp,
        ),
        ExecuteMsg::WithdrawAllCommitments {} => withdraw_all_commitments::handle_admits(
            before,
            now,
            contract_address,
            sender,
        ),
        ExecuteMsg::CancelCommitment { lp } => cancel_commitment::handle_admits(before, sender, lp),
        ExecuteMsg::ContributeLoanPool { loan_pools } => add_loan_pool::handle_admits(
            before,
            contract_address,
            sender,
            loan_pools,
            lookups,
        ),
        ExecuteMsg::WithdrawLoanPool { loan_pools } => lookups@.len() == loan_pools.markers@.len(),
        _ => true,
    }
}

/// What handling a message leaves stored and answers: what its handler
/// does.
pub open spec fn route_outcome(
    before: ContractStorage,
    after: ContractStorage,
    r: Result<Response, ContractError>,
    now: u64,
    contract_address: String,
    sender: String,
    msg: ExecuteMsg,
    lookups: Vec<MarkerLookup>,
) -> bool {
    match msg {
        ExecuteMsg::ProposeCommitment { securities } => propose_commitment::handle_outcome(
            before,
            after,
            r,
            now,
            sender,
            securities,
        ),
        ExecuteMsg::AcceptCommitment { commitments } => exists|lps: Vec<String>|
            lps@.map_values(|a: String| a@) == accepted_lps(commitments@) && #[trigger] accept_commitments::handle_outcome(
                before,
                after,
                r,
                sender,
                lps,
            ),
        ExecuteMsg::DepositCommitment { securities } => deposit_commitment::handle_outcome(
            before,
            after,
            r,
            now,
            contract_address,
            sender,
            securities,
        ),
        ExecuteMsg::WithdrawCommitment { lp } => withdraw_commitment::handle_outcome(
            before,
            after,
            r,
            now,
            contract_address,
            sender,
            lp,
        ),
        ExecuteMsg::WithdrawAllCommitments {} => withdraw_all_commitments::handle_outcome(
            before,
            after,
            r,
            now,
            contract_address,
            sender,
        ),
        ExecuteMsg::UpdateSettlementTime { settlement_time } => update_settlement_time::handle_outcome(
            before,
            after,
            r,
            sender,
            settlement_time,
        ),
        ExecuteMsg::CancelCommitment { lp } => cancel_commitment::handle_outcome(before, after, r, sender, lp),
        ExecuteMsg::ContributeLoanPool { loan_pools } => add_loan_pool::handle_outcome(
            before,
            after,
            r,
            contract_address,
            sender,
            loan_pools,
            lookups,
        ),
        ExecuteMsg::WithdrawLoanPool { loan_pools } => exists|markers: Vec<Result<MarkerAccount, StdError>>|
            markers@ == looked_up_markers(lookups@) && #[trigger] withdraw_loan_pool::handle_outcome(
                before,
                after,
                r,
                contract_address,
                sender,
                loan_pools,
                markers,
            ),
        ExecuteMsg::WhiteListLoanPoolContributors { loan_pool_contributors } =>
            whitelist_loanpool_contributors::handle_outcome(
            before,
            after,
            r,
            sender,
            loan_pool_contributors.addresses,
        ),
        ExecuteMsg::RemoveWhiteListLoanPoolContributors { remove_loan_pool_contributors } =>
            remove_whitelist_loanpool_contributors::handle_outcome(
            before,
            after,
            r,
            sender,
            remove_loan_pool_contributors.addresses,
        ),
    }
}

/// Handles a message sent by `sender` at block time `now`. For loan pool
/// messages, `lookups` holds the chain's answers about each marker named,
/// in order.
pub fn route(
    storage: &mut ContractStorage,
    now: u64,
    contract_address: String,
    sender: String,
    msg: ExecuteMsg,
    lookups: Vec<MarkerLookup>,
) -> (r: Result<Response, ContractError>)
    requires
        old(storage).wf(),
        route_admits(*old(storage), now, contract_address, sender, msg, lookups),
    ensures
        final(storage).wf(),
        route_outcome(*old(storage), *final(storage), r, now, contract_address, sender, msg, lookups),
{
    match msg {
        ExecuteMsg::ProposeCommitment { securities } => propose_commitment::handle(storage, now, sender, securities),
        ExecuteMsg::AcceptCommitment { commitments } => {
            let mut lps: Vec<String> = Vec::new();
            for i in 0..commitments.len()
                invariant
                    lps@.map_values(|a: String| a@) == accepted_lps(commitments@.take(i as int)),
            {
                let ghost before = lps@;
                lps.push(commitments[i].lp.clone());
                proof {
                    assert(lps@.map_values(|a: String| a@) =~= before.map_values(|a: String| a@).push(
                        commitments@[i as int].lp@,
                    ));
                    assert(accepted_lps(commitments@.take(i + 1)) =~= accepted_lps(commitments@.take(i as int)).push(
                        commitments@[i as int].lp@,
                    ));
                }
            }
            proof {
                assert(commitments@.take(commitments@.len() as int) =~= commitments@);
            }
            let ghost witness = lps;
            let r = accept_commitments::handle(storage, sender, lps);
            proof {
                assert(accept_commitments::handle_outcome(*old(storage), *storage, r, sender, witness));
            }
            r
        },
        ExecuteMsg::DepositCommitment { securities } => deposit_commitment::handle(
            storage,
            now,
            contract_address,
            sender,
            securities,
        ),
        ExecuteMsg::WithdrawCommitment { lp } => withdraw_commitment::handle(storage, now, contract_address, sender, lp),
        ExecuteMsg::WithdrawAllCommitments {} => withdraw_all_commitments::handle(storage, now, contract_address, sender),
        ExecuteMsg::UpdateSettlementTime { settlement_time } => update_settlement_time::handle(
            storage,
            sender,
            settlement_time,
        ),
        ExecuteMsg::CancelCommitment { lp } => cancel_commitment::handle(storage, sender, lp),
        ExecuteMsg::ContributeLoanPool { loan_pools } => add_loan_pool::handle(
            storage,
            contract_address,
            sender,
            loan_pools,
            lookups,
        ),
        ExecuteMsg::WithdrawLoanPool { loan_pools } => {
            let ghost all = lookups@;
            let mut markers: Vec<Result<MarkerAccount, StdError>> = Vec::new();
            let mut rest = lookups;
            let mut i: usize = 0;
            let n = rest.len();
            while rest.len() > 0
                invariant
                    n == all.len(),
                    i + rest@.len() == n,
                    rest@ == all.skip(i as int),
                    markers@ == looked_up_markers(all.take(i as int)),
                decreases rest@.len(),
            {
                let lookup = rest.remove(0);
                proof {
                    assert(lookup == all[i as int]);
                    assert(rest@ =~= all.skip(i + 1));
                }
                markers.push(lookup.marker);
                proof {
                    assert(looked_up_markers(all.take(i + 1)) =~= looked_up_markers(all.take(i as int)).push(
                        all[i as int].marker,
                    ));
                }
                i = i + 1;
            }
            proof {
                assert(all.take(n as int) =~= all);
            }
            let ghost witness = markers;
            let r = withdraw_loan_pool::handle(storage, contract_address, sender, loan_pools, markers);
            proof {
                assert(withdraw_loan_pool::handle_outcome(
                    *old(storage),
                    *storage,
                    r,
                    contract_address,
                    sender,
                    loan_pools,
                    witness,
                ));
            }
            r
        },
        ExecuteMsg::WhiteListLoanPoolContributors { loan_pool_contributors } => whitelist_loanpool_contributors::handle(
            storage,
            sender,
            loan_pool_contributors.addresses,
        ),
        ExecuteMsg::RemoveWhiteListLoanPoolContributors { remove_loan_pool_contributors } =>
            remove_whitelist_loanpool_contributors::handle(storage, sender, remove_loan_pool_contributors.addresses),
    }
}

} // verus!
