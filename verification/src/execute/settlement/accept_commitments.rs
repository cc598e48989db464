//! The general partner accepts pending commitments: the committed amounts
//! are taken off what remains of each security, the commitment is marked
//! accepted with the contract's settlement time, and the limited partner's
//! paid-in capital starts at zero for each security.

use vstd::prelude::*;
use crate::common::error::ContractError;
use crate::common::response::{Event, EventModel, Response, attrs_model, events_model};
use crate::common::security::SecurityCommitmentModel;
use crate::common::messages::msgs_model;
use crate::execute::settlement::commitment::{Commitment, CommitmentModel, CommitmentState, zeroed};
use crate::storage::{CapitalRecordModel, ContractStorage, StorageModel};
use crate::storage::{commits, paid_in_capital, remaining_securities, state};

verus! {

/// Takes each committed amount off the remainder of its security, in order,
/// and stops at the first that cannot be taken (a security that is not
/// stored, or less of it left than committed). Answers the remainders then,
/// and whether every amount was taken.
pub open spec fn subtract_each(m: Map<Seq<char>, u128>, cs: Seq<SecurityCommitmentModel>) -> (
    Map<Seq<char>, u128>,
    bool,
)
    decreases cs.len(),
{
    if cs.len() == 0 {
        (m, true)
    } else {
        let prev = subtract_each(m, cs.drop_last());
        let c = cs.last();
        if prev.1 && prev.0.contains_key(c.name) && c.amount <= prev.0[c.name] {
            (prev.0.insert(c.name, (prev.0[c.name] - c.amount) as u128), true)
        } else {
            (prev.0, false)
        }
    }
}

/// Once a subtraction has failed, the later ones change nothing.
pub proof fn lemma_subtract_each_stops(m: Map<Seq<char>, u128>, cs: Seq<SecurityCommitmentModel>, j: int)
    requires
        0 <= j <= cs.len(),
        !subtract_each(m, cs.take(j)).1,
    ensures
        subtract_each(m, cs) == subtract_each(m, cs.take(j)),
    decreases cs.len(),
{
    if j == cs.len() {
        assert(cs.take(j) =~= cs);
    } else {
        assert(cs.drop_last().take(j) =~= cs.take(j));
        lemma_subtract_each_stops(m, cs.drop_last(), j);
    }
}

/// Whether accepting a limited partner's commitment succeeds: it is stored
/// and pending, every committed amount remains, and the contract is
/// configured.
pub open spec fn accept_succeeds(s: StorageModel, lp: Seq<char>) -> bool {
    &&& s.commits.contains_key(lp)
    &&& s.commits[lp].state == CommitmentState::PENDING
    &&& subtract_each(s.remaining, s.commits[lp].commitments).1
    &&& s.state is Some
}

/// The refusal given for a commitment that cannot be accepted.
pub open spec fn accept_error(s: StorageModel, lp: Seq<char>, e: ContractError) -> bool {
    if !s.commits.contains_key(lp) {
        e is Std
    } else if s.commits[lp].state != CommitmentState::PENDING {
        e == ContractError::InvalidCommitmentState {}
    } else if !subtract_each(s.remaining, s.commits[lp].commitments).1 {
        e == ContractError::CommitmentExceedsRemainingSecurityAmount {}
    } else {
        e is Std
    }
}

/// What accepting a limited partner's commitment leaves stored. Amounts are
/// taken off the remainders up to the first that cannot be; only a full
/// acceptance marks the commitment and records zero paid-in capital.
pub open spec fn accept_effect(s: StorageModel, lp: Seq<char>) -> StorageModel {
    if !s.commits.contains_key(lp) || s.commits[lp].state != CommitmentState::PENDING {
        s
    } else {
        let c = s.commits[lp];
        let sub = subtract_each(s.remaining, c.commitments);
        match s.state {
            Some(st) => if sub.1 {
                StorageModel {
                    remaining: sub.0,
                    commits: s.commits.insert(
                        lp,
                        CommitmentModel {
                            state: CommitmentState::ACCEPTED,
                            settlment_date: st.settlement_time,
                            ..c
                        },
                    ),
                    capital: s.capital.insert(lp, CapitalRecordModel::PaidInCapital(zeroed(c.commitments))),
                    ..s
                }
            } else {
                StorageModel { remaining: sub.0, ..s }
            },
            None => StorageModel { remaining: sub.0, ..s },
        }
    }
}

/// Accepts each limited partner's commitment in turn and stops at the first
/// that fails. Answers what is stored then, and whether all were accepted.
pub open spec fn accept_each(s: StorageModel, lps: Seq<Seq<char>>) -> (StorageModel, bool)
    decreases lps.len(),
{
    if lps.len() == 0 {
        (s, true)
    } else {
        let prev = accept_each(s, lps.drop_last());
        if prev.1 {
            (accept_effect(prev.0, lps.last()), accept_succeeds(prev.0, lps.last()))
        } else {
            prev
        }
    }
}

/// Once an acceptance has failed, the later ones are not attempted.
pub proof fn lemma_accept_each_stops(s: StorageModel, lps: Seq<Seq<char>>, j: int)
    requires
        0 <= j <= lps.len(),
        !accept_each(s, lps.take(j)).1,
    ensures
        accept_each(s, lps) == accept_each(s, lps.take(j)),
    decreases lps.len(),
{
    if j == lps.len() {
        assert(lps.take(j) =~= lps);
    } else {
        assert(lps.drop_last().take(j) =~= lps.take(j));
        lemma_accept_each_stops(s, lps.drop_last(), j);
    }
}

/// One event per accepted limited partner.
pub open spec fn accepted_events(lps: Seq<Seq<char>>) -> Seq<EventModel> {
    lps.map_values(|lp: Seq<char>| EventModel { ty: "accepted"@, attributes: seq![("lp"@, lp)] })
}

/// What handling the message leaves stored and answers.
pub open spec fn handle_outcome(before: ContractStorage, after: ContractStorage, r: Result<Response, ContractError>, sender: String, commitments: Vec<String>) -> bool {
    &&& match before.state {
        None => r matches Err(ContractError::Std(_)) && after == before,
        Some(st) => if sender@ != st.gp@ {
            r == Err::<Response, ContractError>(ContractError::Unauthorized {}) && after
                == before
        } else {
            let lps = commitments@.map_values(|a: String| a@);
            let outcome = accept_each(before.model(), lps);
            &&& after.model() == outcome.0
            &&& (r is Ok <==> outcome.1)
            &&& (r matches Ok(resp) ==> {
                &&& msgs_model(resp.messages@).len() == 0
                &&& attrs_model(resp.attributes@) == seq![
                    ("action"@, "accept_commitments"@),
                    ("gp"@, st.gp@),
                ]
                &&& events_model(resp.events@) == accepted_events(lps)
                &&& resp.data is None
            })
            &&& (r matches Err(e) ==> exists|k: int|
                0 <= k < lps.len() && #[trigger] accept_each(before.model(), lps.take(k)).1
                    && accept_error(accept_each(before.model(), lps.take(k)).0, lps[k], e))
        },
    }
}

/// Accepts the commitments of the listed limited partners, in order. Only
/// the general partner may; the first commitment that cannot be accepted
/// refuses the whole message.
pub fn handle(storage: &mut ContractStorage, sender: String, commitments: Vec<String>) -> (r: Result<
    Response,
    ContractError,
>)
    requires
        old(storage).wf(),
    ensures
        final(storage).wf(),
        handle_outcome(*old(storage), *final(storage), r, sender, commitments),
{
    let ghost s0 = storage.model();
    let st = state::get(storage)?;
    if sender != st.gp {
        return Err(ContractError::Unauthorized {});
    }
    let mut response = Response::new();
    response.add_attribute("action", "accept_commitments");
    response.add_attribute("gp", st.gp.as_str());
    let ghost lps = commitments@.map_values(|a: String| a@);
    let n = commitments.len();
    for i in 0..n
        invariant
            n == commitments@.len(),
            s0 == old(storage).model(),
            old(storage).state matches Some(x) && x@ == st@,
            sender@ == st.gp@,
            lps == commitments@.map_values(|a: String| a@),
            storage.wf(),
            storage.model() == accept_each(s0, lps.take(i as int)).0,
            accept_each(s0, lps.take(i as int)).1,
            msgs_model(response.messages@).len() == 0,
            attrs_model(response.attributes@) == seq![("action"@, "accept_commitments"@), ("gp"@, st.gp@)],
            events_model(response.events@) == accepted_events(lps.take(i as int)),
            response.data is None,
    {
        proof {
            assert(lps.take(i + 1).drop_last() =~= lps.take(i as int));
            assert(lps.take(i + 1).last() == lps[i as int]);
            assert(lps[i as int] == commitments@[i as int]@);
        }
        let lp = &commitments[i];
        match accept_commitment(storage, lp.clone()) {
            Ok(()) => {},
            Err(e) => {
                proof {
                    lemma_accept_each_stops(s0, lps, i + 1);
                    assert(accept_each(s0, lps.take(i as int)).1);
                }
                return Err(e);
            },
        }
        let ghost before = events_model(response.events@);
        response.add_event(Event::with_attribute("accepted", "lp", lp.as_str()));
        proof {
            assert(events_model(response.events@) =~= accepted_events(lps.take(i + 1)));
        }
    }
    proof {
        assert(lps.take(n as int) =~= lps);
    }
    Ok(response)
}

/// Accepts one limited partner's pending commitment.
pub fn accept_commitment(storage: &mut ContractStorage, lp: String) -> (r: Result<(), ContractError>)
    requires
        old(storage).wf(),
    ensures
        final(storage).wf(),
        final(storage).model() == accept_effect(old(storage).model(), lp@),
        r is Ok <==> accept_succeeds(old(storage).model(), lp@),
        r matches Err(e) ==> accept_error(old(storage).model(), lp@, e),
{
    let ghost s0 = storage.model();
    let ghost key = lp@;
    let mut commitment = commits::get(storage, lp)?;
    if commitment.state != CommitmentState::PENDING {
        return Err(ContractError::InvalidCommitmentState {});
    }
    let ghost cs = commitment@.commitments;
    let n = commitment.commitments.len();
    for i in 0..n
        invariant
            storage.wf(),
            n == commitment.commitments@.len(),
            cs == commitment@.commitments,
            key == lp@,
            s0.commits.contains_key(key),
            commitment@ == s0.commits[key],
            commitment.state == CommitmentState::PENDING,
            s0 == old(storage).model(),
            storage.model() == (StorageModel { remaining: subtract_each(s0.remaining, cs.take(i as int)).0, ..s0 }),
            subtract_each(s0.remaining, cs.take(i as int)).1,
    {
        proof {
            assert(cs.take(i + 1).drop_last() =~= cs.take(i as int));
            assert(cs.take(i + 1).last() == cs[i as int]);
            assert(cs[i as int] == commitment.commitments@[i as int]@);
        }
        let ghost before = *storage;
        let ok = remaining_securities::subtract(
            storage,
            commitment.commitments[i].name.clone(),
            commitment.commitments[i].amount,
        )?;
        proof {
            assert(storage.model() =~= (StorageModel {
                remaining: subtract_each(s0.remaining, cs.take(i + 1)).0,
                ..s0
            }));
        }
        if !ok {
            proof {
                let prev = subtract_each(s0.remaining, cs.take(i as int));
                assert(before.remaining_model() == prev.0);
                assert(!(prev.0.contains_key(cs[i as int].name) && cs[i as int].amount <= prev.0[cs[i as int].name]));
                assert(!subtract_each(s0.remaining, cs.take(i + 1)).1);
                lemma_subtract_each_stops(s0.remaining, cs, i + 1);
                assert(!subtract_each(s0.remaining, cs).1);
            }
            return Err(ContractError::CommitmentExceedsRemainingSecurityAmount {});
        }
    }
    proof {
        assert(cs.take(n as int) =~= cs);
    }
    let settlement_time = state::get_settlement_time(storage)?;
    commitment.state = CommitmentState::ACCEPTED;
    commitment.settlment_date = settlement_time;
    commits::set(storage, &commitment)?;
    track_paid_capital(storage, commitment)?;
    proof {
        assert(storage.model() =~= accept_effect(s0, key));
    }
    Ok(())
}

/// Records zero paid-in capital for each security of a commitment.
pub fn track_paid_capital(storage: &mut ContractStorage, commitment: Commitment) -> (r: Result<(), ContractError>)
    requires
        old(storage).wf(),
    ensures
        r is Ok,
        final(storage).wf(),
        final(storage).capital_model() == old(storage).capital_model().insert(
            commitment.lp@,
            CapitalRecordModel::PaidInCapital(zeroed(commitment@.commitments)),
        ),
        *final(storage) == (ContractStorage { capital: final(storage).capital, ..*old(storage) }),
{
    let mut commitment = commitment;
    commitment.clear_amounts();
    paid_in_capital::set(storage, commitment.lp, &commitment.commitments)
}

} // verus!
