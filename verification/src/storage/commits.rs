//! Commitments by limited partner.

use vstd::prelude::*;
use crate::common::error::{ContractError, not_found};
use crate::execute::settlement::commitment::{Commitment, CommitmentModel, CommitmentState};
use crate::storage::ContractStorage;
use crate::storage::keyed_map::{entries_values, lemma_sorted_index};

verus! {

/// Reads a limited partner's commitment.
pub fn get(storage: &ContractStorage, lp: String) -> (r: Result<Commitment, ContractError>)
    requires
        storage.wf(),
    ensures
        storage.commits_model().contains_key(lp@) ==> (r matches Ok(c) && c@ == storage.commits_model()[lp@]),
        !storage.commits_model().contains_key(lp@) ==> r matches Err(ContractError::Std(_)),
{
    match storage.commits.get(&lp) {
        Some(c) => Ok(c.clone()),
        None => Err(not_found("Commitment")),
    }
}

/// Stores a commitment under its limited partner.
pub fn set(storage: &mut ContractStorage, commitment: &Commitment) -> (r: Result<(), ContractError>)
    requires
        old(storage).wf(),
    ensures
        r is Ok,
        final(storage).wf(),
        final(storage).commits_model() == old(storage).commits_model().insert(commitment.lp@, commitment@),
        *final(storage) == (ContractStorage { commits: final(storage).commits, ..*old(storage) }),
{
    storage.commits.insert(commitment.lp.clone(), commitment.clone());
    proof {
        assert(storage.commits_model() =~= old(storage).commits_model().insert(commitment.lp@, commitment@));
    }
    Ok(())
}

/// Deletes a limited partner's commitment.
pub fn remove(storage: &mut ContractStorage, commitment_lp: String)
    requires
        old(storage).wf(),
    ensures
        final(storage).wf(),
        final(storage).commits_model() == old(storage).commits_model().remove(commitment_lp@),
        *final(storage) == (ContractStorage { commits: final(storage).commits, ..*old(storage) }),
{
    storage.commits.remove(&commitment_lp);
    proof {
        assert(storage.commits_model() =~= old(storage).commits_model().remove(commitment_lp@));
    }
}

/// Whether a limited partner has a commitment.
pub fn contains(storage: &ContractStorage, lp: String) -> (b: bool)
    requires
        storage.wf(),
    ensures
        b == storage.commits_model().contains_key(lp@),
{
    storage.commits.contains(&lp)
}

/// The commitments in ascending order of their limited partners.
pub open spec fn commits_in_order(storage: ContractStorage) -> Seq<CommitmentModel> {
    entries_values(storage.commits@).map_values(|c: Commitment| c@)
}

/// The commitments in a state, in ascending order of their limited partners.
pub fn get_with_state(storage: &ContractStorage, state: CommitmentState) -> (r: Vec<Commitment>)
    requires
        storage.wf(),
    ensures
        r@.map_values(|c: Commitment| c@) == commits_in_order(*storage).filter(
            |c: CommitmentModel| c.state == state,
        ),
{
    let ghost all = commits_in_order(*storage);
    let ghost pred = |c: CommitmentModel| c.state == state;
    let mut r: Vec<Commitment> = Vec::new();
    let n = storage.commits.len();
    for i in 0..n
        invariant
            n == storage.commits@.len(),
            all == commits_in_order(*storage),
            pred == (|c: CommitmentModel| c.state == state),
            all.len() == n,
            r@.map_values(|c: Commitment| c@) == all.take(i as int).filter(pred),
    {
        let c = storage.commits.value_at(i);
        proof {
            assert(all[i as int] == c@);
            crate::common::search::lemma_filter_take_step(all, pred, i as int);
        }
        if c.state == state {
            let ghost before = r@;
            r.push(c.clone());
            assert(r@.map_values(|c: Commitment| c@) =~= before.map_values(|c: Commitment| c@).push(all[i as int]));
        }
    }
    assert(all.take(n as int) =~= all);
    r
}

/// The commitment with its settlement date replaced.
pub open spec fn with_date(c: CommitmentModel, date: Option<u64>) -> CommitmentModel {
    CommitmentModel { settlment_date: date, ..c }
}

/// Sets the settlement date of every commitment.
pub fn set_settlement_time(storage: &mut ContractStorage, new_settlement_time: Option<u64>) -> (r:
    Result<(), ContractError>)
    requires
        old(storage).wf(),
    ensures
        r is Ok,
        final(storage).wf(),
        final(storage).commits_model() == old(storage).commits_model().map_values(
            |c: CommitmentModel| with_date(c, new_settlement_time),
        ),
        *final(storage) == (ContractStorage { commits: final(storage).commits, ..*old(storage) }),
{
    let n = storage.commits.len();
    let ghost start = storage.commits_model();
    let ghost entries = storage.commits@;
    let mut updated: Vec<Commitment> = Vec::new();
    for i in 0..n
        invariant
            n == entries.len(),
            storage.wf(),
            *storage == *old(storage),
            start == storage.commits_model(),
            entries == storage.commits@,
            updated@.len() == i,
            forall|j: int| 0 <= j < i ==> #[trigger] updated@[j]@ == with_date(start[entries[j].0], new_settlement_time),
    {
        proof {
            lemma_sorted_index(entries, i as int);
        }
        let mut c = storage.commits.value_at(i).clone();
        c.settlment_date = new_settlement_time;
        updated.push(c);
    }
    for i in 0..n
        invariant
            n == entries.len(),
            storage.wf(),
            crate::storage::keyed_map::sorted_keys(entries),
            start == crate::storage::keyed_map::entries_map(entries).map_values(|c: Commitment| c@),
            updated@.len() == n,
            forall|j: int| 0 <= j < n ==> #[trigger] updated@[j]@ == with_date(start[entries[j].0], new_settlement_time),
            forall|j: int| 0 <= j < n ==> start.contains_key(#[trigger] entries[j].0),
            forall|k: Seq<char>| #[trigger] start.contains_key(k) ==> start[k].lp == k,
            storage.commits_model().dom() == start.dom(),
            forall|k: Seq<char>| #[trigger] start.contains_key(k) ==> storage.commits_model()[k] == (
                if crate::storage::keyed_map::index_of_key(entries, k) < i {
                    with_date(start[k], new_settlement_time)
                } else {
                    start[k]
                }),
            *storage == (ContractStorage { commits: storage.commits, ..*old(storage) }),
    {
        proof {
            lemma_sorted_index(entries, i as int);
            let k0 = entries[i as int].0;
            assert(start.contains_key(k0));
            assert(start[k0].lp == k0);
            assert(updated@[i as int]@ == with_date(start[k0], new_settlement_time));
            assert(updated@[i as int]@.lp == k0);
        }
        let ghost before = storage.commits_model();
        set(storage, &updated[i])?;
        proof {
            let k0 = entries[i as int].0;
            assert forall|k: Seq<char>| #[trigger] start.contains_key(k) implies storage.commits_model()[k] == (
                if crate::storage::keyed_map::index_of_key(entries, k) < i + 1 {
                    with_date(start[k], new_settlement_time)
                } else {
                    start[k]
                }) by {
                if k != k0 {
                    let w = crate::storage::keyed_map::index_of_key(entries, k);
                    assert(crate::storage::keyed_map::has_key(entries, k));
                    lemma_sorted_index(entries, w);
                }
            }
            assert(storage.commits_model().dom() =~= start.dom());
        }
    }
    proof {
        assert forall|k: Seq<char>| #[trigger] start.contains_key(k) implies crate::storage::keyed_map::index_of_key(entries, k) < n by {
            assert(crate::storage::keyed_map::has_key(entries, k));
        }
        assert(storage.commits_model() =~= start.map_values(|c: CommitmentModel| with_date(c, new_settlement_time)));
    }
    Ok(())
}

} // verus!
