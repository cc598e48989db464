//! A limited partner proposes to commit to amounts of securities.

use vstd::prelude::*;
use crate::common::error::ContractError;
use crate::common::messages::msgs_model;
use crate::common::response::{Response, attrs_model, events_model};
use crate::common::security::{SecurityCommitment, SecurityCommitmentModel, commitment_names, commitments_model};
use crate::execute::settlement::commitment::{Commitment, CommitmentModel, CommitmentState};
use crate::storage::{ContractStorage, StorageModel};
use crate::storage::{commits, remaining_securities, securities};
use crate::util::settlement::{date_expired, timestamp_is_expired};

verus! {

/// The commitment stored for a limited partner, if any.
pub open spec fn existing_commitment(s: StorageModel, lp: Seq<char>) -> Option<CommitmentModel> {
    if s.commits.contains_key(lp) {
        Some(s.commits[lp])
    } else {
        None
    }
}

/// A stored commitment that is no longer pending.
pub open spec fn approved(existing: Option<CommitmentModel>) -> bool {
    existing matches Some(c) && c.state != CommitmentState::PENDING
}

/// No security of a stored commitment is named again.
pub open spec fn new_securities(existing: Option<CommitmentModel>, secs: Seq<SecurityCommitmentModel>) -> bool {
    match existing {
        None => true,
        Some(c) => forall|i: int|
            0 <= i < c.commitments.len() ==> !commitment_names(secs).contains(#[trigger] c.commitments[i].name),
    }
}

/// A proposed amount of a security is acceptable: the security exists, the
/// amount reaches its minimum and does not exceed what remains.
pub open spec fn proposal_fits(s: StorageModel, c: SecurityCommitmentModel) -> bool {
    &&& s.securities.contains_key(c.name)
    &&& c.amount >= s.securities[c.name].minimum_amount
    &&& s.remaining.contains_key(c.name)
    &&& c.amount <= s.remaining[c.name]
}

/// The refusal for a proposed amount that is not acceptable.
pub open spec fn proposal_error(s: StorageModel, c: SecurityCommitmentModel, e: ContractError) -> bool {
    if !s.securities.contains_key(c.name) {
        e is Std
    } else if c.amount < s.securities[c.name].minimum_amount {
        e == ContractError::InvalidSecurityCommitmentAmount {}
    } else {
        e == ContractError::CommitmentExceedsRemainingSecurityAmount {}
    }
}

/// The pending commitment a proposal stores: the new amounts first, then
/// those of the pending commitment it extends.
pub open spec fn proposed(lp: Seq<char>, secs: Seq<SecurityCommitmentModel>, existing: Option<CommitmentModel>) -> CommitmentModel {
    CommitmentModel {
        lp,
        commitments: match existing {
            Some(c) => secs + c.commitments,
            None => secs,
        },
        state: CommitmentState::PENDING,
        settlment_date: None,
    }
}

/// What handling the message leaves stored and answers.
pub open spec fn handle_outcome(before: ContractStorage, after: ContractStorage, r: Result<Response, ContractError>, now: u64, lp: String, securities: Vec<SecurityCommitment>) -> bool {
    &&& ({
        let s = before.model();
        let existing = existing_commitment(s, lp@);
        let secs = commitments_model(securities@);
        if approved(existing) {
            r == Err::<Response, ContractError>(ContractError::AlreadyAccepted {}) && after
                == before
        } else if !new_securities(existing, secs) {
            r == Err::<Response, ContractError>(ContractError::InvalidSecurityCommitment {})
                && after == before
        } else {
            match s.state {
                None => r matches Err(ContractError::Std(_)) && after == before,
                Some(st) => if date_expired(now, st.settlement_time) {
                    r == Err::<Response, ContractError>(ContractError::SettlmentExpired {})
                        && after == before
                } else if forall|k: int| 0 <= k < secs.len() ==> proposal_fits(s, #[trigger] secs[k]) {
                    &&& after.model() == (StorageModel {
                        commits: s.commits.insert(lp@, proposed(lp@, secs, existing)),
                        ..s
                    })
                    &&& r matches Ok(resp) && msgs_model(resp.messages@).len() == 0
                        && attrs_model(resp.attributes@) == seq![
                        ("action"@, "propose_commitment"@),
                        ("lp"@, lp@),
                    ] && events_model(resp.events@).len() == 0 && resp.data is None
                } else {
                    &&& after == before
                    &&& r matches Err(e) && exists|k: int|
                        0 <= k < secs.len() && !proposal_fits(s, #[trigger] secs[k]) && (forall|j: int|
                            0 <= j < k ==> proposal_fits(s, secs[j])) && proposal_error(s, secs[k], e)
                },
            }
        }
    })
}

/// Records a limited partner's proposal, or adds to its pending one. The
/// proposal is refused for an accepted commitment, for a security already
/// in the pending one, after the settlement time, and for an amount that is
/// below the security's minimum or above what remains of it.
pub fn handle(storage: &mut ContractStorage, now: u64, lp: String, securities: Vec<SecurityCommitment>) -> (r:
    Result<Response, ContractError>)
    requires
        old(storage).wf(),
    ensures
        final(storage).wf(),
        handle_outcome(*old(storage), *final(storage), r, now, lp, securities),
{
    let ghost s = storage.model();
    let ghost secs = commitments_model(securities@);
    let commitment = commits::get(storage, lp.clone());
    if is_approved(&commitment) {
        return Err(ContractError::AlreadyAccepted {});
    }
    if !is_new_securities(&commitment, securities.as_slice()) {
        return Err(ContractError::InvalidSecurityCommitment {});
    }
    if timestamp_is_expired(storage, now)? {
        return Err(ContractError::SettlmentExpired {});
    }
    let n = securities.len();
    for i in 0..n
        invariant
            n == securities@.len(),
            secs == commitments_model(securities@),
            storage.wf(),
            s == storage.model(),
            *storage == *old(storage),
            !approved(existing_commitment(s, lp@)),
            new_securities(existing_commitment(s, lp@), secs),
            s.state matches Some(st) && !date_expired(now, st.settlement_time),
            forall|j: int| 0 <= j < i ==> proposal_fits(s, #[trigger] secs[j]),
    {
        assert(secs[i as int] == securities@[i as int]@);
        let security = match securities::get(storage, securities[i].name.clone()) {
            Ok(x) => x,
            Err(e) => {
                assert(!proposal_fits(s, secs[i as int]));
                return Err(e);
            },
        };
        if securities[i].amount < security.minimum_amount {
            assert(!proposal_fits(s, secs[i as int]));
            return Err(ContractError::InvalidSecurityCommitmentAmount {});
        }
        if !remaining_securities::has_amount(storage, securities[i].name.clone(), securities[i].amount)? {
            assert(!proposal_fits(s, secs[i as int]));
            return Err(ContractError::CommitmentExceedsRemainingSecurityAmount {});
        }
        assert(proposal_fits(s, secs[i as int]));
    }
    let mut new_commitment = Commitment::new(lp.clone(), securities);
    if let Ok(mut existing) = commitment {
        new_commitment.commitments.append(&mut existing.commitments);
    }
    proof {
        let existing = existing_commitment(s, lp@);
        assert(commitments_model(new_commitment.commitments@) =~= proposed(lp@, secs, existing).commitments);
    }
    commits::set(storage, &new_commitment)?;
    let mut response = Response::new();
    response.add_attribute("action", "propose_commitment");
    response.add_attribute("lp", lp.as_str());
    assert(attrs_model(response.attributes@) =~= seq![("action"@, "propose_commitment"@), ("lp"@, lp@)]);
    proof {
        assert(storage.model() =~= (StorageModel {
            commits: s.commits.insert(lp@, proposed(lp@, secs, existing_commitment(s, lp@))),
            ..s
        }));
    }
    Ok(response)
}

/// Whether a stored commitment has left the pending state; `false` when
/// none is stored.
pub fn is_approved(commitment: &Result<Commitment, ContractError>) -> (b: bool)
    ensures
        b == (commitment matches Ok(c) && c.state != CommitmentState::PENDING),
{
    match commitment {
        Err(_) => false,
        Ok(c) => c.state != CommitmentState::PENDING,
    }
}

/// Whether none of the proposed securities is already part of the stored
/// commitment; `true` when none is stored.
pub fn is_new_securities(commitment: &Result<Commitment, ContractError>, securities: &[SecurityCommitment]) -> (b:
    bool)
    ensures
        b == match commitment {
            Err(_) => true,
            Ok(c) => new_securities(Some(c@), commitments_model(securities@)),
        },
{
    match commitment {
        Err(_) => true,
        Ok(c) => names_unused(c, securities),
    }
}

fn names_unused(c: &Commitment, securities: &[SecurityCommitment]) -> (b: bool)
    ensures
        b == new_securities(Some(c@), commitments_model(securities@)),
{
    let ghost names = commitment_names(commitments_model(securities@));
    let ghost existing = c@.commitments;
    for i in 0..c.commitments.len()
        invariant
            names == commitment_names(commitments_model(securities@)),
            existing == c@.commitments,
            forall|j: int| 0 <= j < i ==> !names.contains(#[trigger] existing[j].name),
    {
        assert(existing[i as int] == c.commitments@[i as int]@);
        for k in 0..securities.len()
            invariant
                names == commitment_names(commitments_model(securities@)),
                existing == c@.commitments,
                0 <= i < c.commitments@.len(),
                forall|m: int| 0 <= m < k ==> names[m] != c.commitments@[i as int].name@,
        {
            assert(names[k as int] == securities@[k as int].name@);
            if securities[k].name == c.commitments[i].name {
                assert(names.contains(existing[i as int].name));
                return false;
            }
        }
        assert(!names.contains(existing[i as int].name));
    }
    true
}

} // verus!
