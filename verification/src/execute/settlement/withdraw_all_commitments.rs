//! The general partner settles every accepted commitment that is ready,
//! before the contract's settlement time; a commitment that cannot be
//! settled is passed over.

use vstd::prelude::*;
use crate::common::error::ContractError;
use crate::common::messages::{ProvMsgModel, msgs_model};
use crate::common::response::{EventModel, Response, attrs_model, events_model};
use crate::execute::settlement::commitment::{Commitment, CommitmentModel, CommitmentState};
use crate::execute::settlement::withdraw_commitment::{
    settle_effect, settle_msgs, settle_succeeds, settled_event, settlement_capital_held, settlement_capital_ok,
    withdraw_commitment,
};
use crate::storage::{ContractStorage, StorageModel};
use crate::storage::{commits, state};
use crate::storage::paid_in_capital::paid_of;
use crate::storage::commits::commits_in_order;
use crate::util::settlement::{date_expired, timestamp_is_expired};

verus! {

/// Attempts to settle each limited partner's commitment in turn. Answers
/// what is stored then, and the messages and events of those settled.
pub open spec fn settle_all(s: StorageModel, lps: Seq<Seq<char>>, now: u64, gp: Seq<char>, contract: Seq<char>) -> (
    StorageModel,
    Seq<ProvMsgModel>,
    Seq<EventModel>,
)
    decreases lps.len(),
{
    if lps.len() == 0 {
        (s, Seq::empty(), Seq::empty())
    } else {
        let prev = settle_all(s, lps.drop_last(), now, gp, contract);
        let lp = lps.last();
        if settle_succeeds(prev.0, now, gp, lp, contract) {
            (
                settle_effect(prev.0, now, gp, lp, contract),
                prev.1 + settle_msgs(prev.0, gp, lp, contract),
                prev.2.push(settled_event(lp)),
            )
        } else {
            (settle_effect(prev.0, now, gp, lp, contract), prev.1, prev.2)
        }
    }
}

/// The limited partners whose commitments are accepted, in ascending order.
pub open spec fn accepted_lps(storage: ContractStorage) -> Seq<Seq<char>> {
    commits_in_order(storage).filter(|c: CommitmentModel| c.state == CommitmentState::ACCEPTED).map_values(
        |c: CommitmentModel| c.lp,
    )
}

/// What handling the message leaves stored and answers.
pub open spec fn handle_outcome(before: ContractStorage, after: ContractStorage, r: Result<Response, ContractError>, now: u64, contract_address: String, sender: String) -> bool {
    &&& match before.state {
        None => r matches Err(ContractError::Std(_)) && after == before,
        Some(st) => if sender@ != st.gp@ {
            r == Err::<Response, ContractError>(ContractError::Unauthorized {}) && after
                == before
        } else if date_expired(now, st.settlement_time) {
            r == Err::<Response, ContractError>(ContractError::SettlmentExpired {}) && after
                == before
        } else {
            let outcome = settle_all(before.model(), accepted_lps(before), now, sender@, contract_address@);
            &&& after.model() == outcome.0
            &&& r matches Ok(resp) && msgs_model(resp.messages@) == outcome.1 && events_model(resp.events@)
                == outcome.2 && attrs_model(resp.attributes@) == seq![
                ("action"@, "withdraw_all_commitments"@),
                ("gp"@, sender@),
            ] && resp.data is None
        },
    }
}

/// What handling the message asks of the stored values and the arguments.
pub open spec fn handle_admits(before: ContractStorage, now: u64, contract_address: String, sender: String) -> bool {
    &&& (before.state matches Some(st) && sender@ == st.gp@ && !date_expired(now, st.settlement_time)) ==> forall|k: int|
        0 <= k < accepted_lps(before).len() ==> settlement_capital_ok(
            before.model(),
            now,
            #[trigger] accepted_lps(before)[k],
        )
}

/// Settling one limited partner keeps the capital of every other that a
/// settlement reaches as it was.
proof fn lemma_settle_keeps_capital_ok(s: StorageModel, now: u64, gp: Seq<char>, lp: Seq<char>, contract: Seq<char>, other: Seq<char>)
    requires
        settlement_capital_ok(s, now, other),
    ensures
        settlement_capital_ok(settle_effect(s, now, gp, lp, contract), now, other),
{
    let t = settle_effect(s, now, gp, lp, contract);
    if other != lp && t != s {
        assert(t.capital == s.capital);
        assert(paid_of(t, other) == paid_of(s, other));
        assert(t.available.contains_key(other) == s.available.contains_key(other));
        assert(t.commits.contains_key(other) == s.commits.contains_key(other));
        if t.commits.contains_key(other) {
            assert(t.commits[other] == s.commits[other]);
        }
        if t.available.contains_key(other) {
            assert(t.available[other] == s.available[other]);
        }
    }
}

/// Settles every accepted commitment that is paid in full, in ascending
/// order of limited partner; only the general partner may, and only before
/// the contract's settlement time.
pub fn handle(storage: &mut ContractStorage, now: u64, contract_address: String, sender: String) -> (r: Result<
    Response,
    ContractError,
>)
    requires
        old(storage).wf(),
        handle_admits(*old(storage), now, contract_address, sender),
    ensures
        final(storage).wf(),
        handle_outcome(*old(storage), *final(storage), r, now, contract_address, sender),
{
    let ghost s0 = storage.model();
    let st = state::get(storage)?;
    if sender != st.gp {
        return Err(ContractError::Unauthorized {});
    }
    if timestamp_is_expired(storage, now)? {
        return Err(ContractError::SettlmentExpired {});
    }
    let accepted = commits::get_with_state(storage, CommitmentState::ACCEPTED);
    let ghost lps = accepted_lps(*old(storage));
    proof {
        assert(accepted@.map_values(|c: Commitment| c@).map_values(|c: CommitmentModel| c.lp) =~= lps);
    }
    let mut response = Response::new();
    response.add_attribute("action", "withdraw_all_commitments");
    response.add_attribute("gp", sender.as_str());
    let n = accepted.len();
    for i in 0..n
        invariant
            n == accepted@.len(),
            lps == accepted@.map_values(|c: Commitment| c@).map_values(|c: CommitmentModel| c.lp),
            storage.wf(),
            forall|j: int| i <= j < n ==> settlement_capital_ok(storage.model(), now, #[trigger] lps[j]),
            storage.model() == settle_all(s0, lps.take(i as int), now, sender@, contract_address@).0,
            msgs_model(response.messages@) == settle_all(s0, lps.take(i as int), now, sender@, contract_address@).1,
            events_model(response.events@) == settle_all(s0, lps.take(i as int), now, sender@, contract_address@).2,
            attrs_model(response.attributes@) == seq![("action"@, "withdraw_all_commitments"@), ("gp"@, sender@)],
            response.data is None,
    {
        proof {
            assert(lps.take(i + 1).drop_last() =~= lps.take(i as int));
            assert(lps.take(i + 1).last() == lps[i as int]);
            assert(lps[i as int] == accepted@[i as int].lp@);
        }
        let ghost before = *storage;
        let result = withdraw_commitment(storage, now, sender.clone(), accepted[i].lp.clone(), &contract_address);
        proof {
            assert forall|j: int| i + 1 <= j < n implies settlement_capital_ok(storage.model(), now, #[trigger] lps[j]) by {
                lemma_settle_keeps_capital_ok(before.model(), now, sender@, lps[i as int], contract_address@, lps[j]);
            }
        }
        if let Ok(withdraw) = result {
            let ghost m0 = msgs_model(response.messages@);
            let ghost e0 = events_model(response.events@);
            response.add_messages(withdraw.messages);
            response.add_events(withdraw.events);
            proof {
                assert(events_model(response.events@) =~= e0.push(settled_event(lps[i as int])));
            }
        }
    }
    proof {
        assert(lps.take(n as int) =~= lps);
    }
    Ok(response)
}

/// Whether the stored values and the arguments meet what `handle` asks of
/// them: every settlement the general partner's request reaches finds a
/// coin in the capital it takes.
pub fn handle_admitted(storage: &ContractStorage, now: u64, contract_address: &String, sender: &String) -> (b: bool)
    requires
        storage.wf(),
    ensures
        b == handle_admits(*storage, now, *contract_address, *sender),
{
    let settlement_time = match &storage.state {
        Some(st) => {
            if st.gp != *sender {
                return true;
            }
            st.settlement_time
        },
        None => {
            return true;
        },
    };
    if let Some(t) = settlement_time {
        if now > t {
            return true;
        }
    }
    let accepted = commits::get_with_state(storage, CommitmentState::ACCEPTED);
    let ghost lps = accepted_lps(*storage);
    proof {
        assert(accepted@.map_values(|c: Commitment| c@).map_values(|c: CommitmentModel| c.lp) =~= lps);
    }
    for i in 0..accepted.len()
        invariant
            storage.wf(),
            lps == accepted_lps(*storage),
            lps == accepted@.map_values(|c: Commitment| c@).map_values(|c: CommitmentModel| c.lp),
            storage.state matches Some(st) && sender@ == st.gp@ && !date_expired(now, st.settlement_time),
            forall|j: int| 0 <= j < i ==> settlement_capital_ok(storage.model(), now, #[trigger] lps[j]),
    {
        assert(lps[i as int] == accepted@[i as int].lp@);
        if !settlement_capital_held(storage, now, &accepted[i].lp) {
            assert(!settlement_capital_ok(storage.model(), now, accepted_lps(*storage)[i as int]));
            return false;
        }
    }
    true
}

} // verus!
