//! Capital paid in by each limited partner, per security.

use vstd::prelude::*;
use crate::common::error::{ContractError, StdError};
use crate::common::search::{first_index, lemma_first_index_is};
use crate::common::security::{SecurityCommitment, SecurityCommitmentModel, clone_commitments, commitments_model};
use crate::storage::{CapitalRecord, CapitalRecordModel, ContractStorage, StorageModel};

verus! {

/// What the paid-in capital of a limited partner reads as: the stored list,
/// or nothing where none is stored or the key holds collateral.
pub open spec fn paid_model(storage: ContractStorage, lp: Seq<char>) -> Seq<SecurityCommitmentModel> {
    if storage.capital_model().contains_key(lp) {
        match storage.capital_model()[lp] {
            CapitalRecordModel::PaidInCapital(v) => v,
            CapitalRecordModel::Collateral(_) => Seq::empty(),
        }
    } else {
        Seq::empty()
    }
}

/// The paid-in capital a limited partner has, as the stored values read.
pub open spec fn paid_of(s: StorageModel, lp: Seq<char>) -> Seq<SecurityCommitmentModel> {
    if s.capital.contains_key(lp) {
        match s.capital[lp] {
            CapitalRecordModel::PaidInCapital(v) => v,
            CapitalRecordModel::Collateral(_) => Seq::empty(),
        }
    } else {
        Seq::empty()
    }
}

/// Position of the first commitment naming the same security.
pub open spec fn same_name_index(s: Seq<SecurityCommitmentModel>, name: Seq<char>) -> int {
    first_index(s, |c: SecurityCommitmentModel| c.name == name)
}

/// Adding an amount to the first commitment of the same security stays
/// within bounds.
pub open spec fn add_fits(s: Seq<SecurityCommitmentModel>, n: SecurityCommitmentModel) -> bool {
    let i = same_name_index(s, n.name);
    i < s.len() ==> s[i].amount + n.amount <= u128::MAX
}

/// Adds an amount to the first commitment of the same security, if any.
pub open spec fn add_to_first(s: Seq<SecurityCommitmentModel>, n: SecurityCommitmentModel) -> Seq<
    SecurityCommitmentModel,
> {
    let i = same_name_index(s, n.name);
    if i < s.len() {
        s.update(i, SecurityCommitmentModel { name: s[i].name, amount: (s[i].amount + n.amount) as u128 })
    } else {
        s
    }
}

/// Adds every deposited amount in turn.
pub open spec fn add_all(s: Seq<SecurityCommitmentModel>, d: Seq<SecurityCommitmentModel>) -> Seq<
    SecurityCommitmentModel,
>
    decreases d.len(),
{
    if d.len() == 0 {
        s
    } else {
        add_to_first(add_all(s, d.drop_last()), d.last())
    }
}

/// Every addition of `add_all` stays within bounds.
pub open spec fn add_all_fits(s: Seq<SecurityCommitmentModel>, d: Seq<SecurityCommitmentModel>) -> bool {
    forall|k: int| 0 <= k < d.len() ==> add_fits(add_all(s, d.take(k)), #[trigger] d[k])
}

/// Reads a limited partner's paid-in capital.
pub fn get(storage: &ContractStorage, lp: String) -> (r: Vec<SecurityCommitment>)
    requires
        storage.wf(),
    ensures
        commitments_model(r@) == paid_model(*storage, lp@),
{
    match storage.capital.get(&lp) {
        Some(CapitalRecord::PaidInCapital(v)) => clone_commitments(v),
        _ => {
            let r: Vec<SecurityCommitment> = Vec::new();
            assert(commitments_model(r@) =~= Seq::<SecurityCommitmentModel>::empty());
            r
        },
    }
}

/// Deletes a limited partner's paid-in capital.
pub fn remove(storage: &mut ContractStorage, lp: String)
    requires
        old(storage).wf(),
    ensures
        final(storage).wf(),
        final(storage).capital_model() == old(storage).capital_model().remove(lp@),
        *final(storage) == (ContractStorage { capital: final(storage).capital, ..*old(storage) }),
{
    storage.capital.remove(&lp);
    assert(storage.capital_model() =~= old(storage).capital_model().remove(lp@));
}

/// Whether anything is stored for a limited partner.
pub fn has_lp(storage: &ContractStorage, lp: String) -> (b: bool)
    requires
        storage.wf(),
    ensures
        b == storage.capital_model().contains_key(lp@),
{
    storage.capital.contains(&lp)
}

/// Stores a limited partner's paid-in capital.
pub fn set(storage: &mut ContractStorage, lp: String, commitments: &Vec<SecurityCommitment>) -> (r:
    Result<(), ContractError>)
    requires
        old(storage).wf(),
    ensures
        r is Ok,
        final(storage).wf(),
        final(storage).capital_model() == old(storage).capital_model().insert(
            lp@,
            CapitalRecordModel::PaidInCapital(commitments_model(commitments@)),
        ),
        *final(storage) == (ContractStorage { capital: final(storage).capital, ..*old(storage) }),
{
    let ghost k = lp@;
    storage.capital.insert(lp, CapitalRecord::PaidInCapital(clone_commitments(commitments)));
    assert(storage.capital_model() =~= old(storage).capital_model().insert(
        k,
        CapitalRecordModel::PaidInCapital(commitments_model(commitments@)),
    ));
    Ok(())
}

/// Adds an amount to the first commitment that names the same security;
/// commitments of other securities are left as they are.
pub fn add_security_commitment(new_commitment: &SecurityCommitment, commitments: &mut Vec<SecurityCommitment>)
    requires
        add_fits(commitments_model(old(commitments)@), new_commitment@),
    ensures
        commitments_model(final(commitments)@) == add_to_first(
            commitments_model(old(commitments)@),
            new_commitment@,
        ),
{
    let ghost s = commitments_model(commitments@);
    let ghost p = |c: SecurityCommitmentModel| c.name == new_commitment@.name;
    let n = commitments.len();
    let mut i: usize = 0;
    while i < n
        invariant
            n == commitments@.len(),
            p == (|c: SecurityCommitmentModel| c.name == new_commitment@.name),
            add_fits(commitments_model(old(commitments)@), new_commitment@),
            s == commitments_model(commitments@),
            commitments@ == old(commitments)@,
            i <= n,
            forall|j: int| 0 <= j < i ==> !p(#[trigger] s[j]),
        decreases n - i,
    {
        assert(s[i as int] == commitments@[i as int]@);
        if commitments[i].name == new_commitment.name {
            proof {
                assert(p(s[i as int]));
                lemma_first_index_is(s, p, i as int);
                assert(same_name_index(s, new_commitment@.name) == i);
            }
            let name = commitments[i].name.clone();
            let amount = commitments[i].amount + new_commitment.amount;
            commitments.set(i, SecurityCommitment { name, amount });
            assert(commitments_model(commitments@) =~= add_to_first(s, new_commitment@));
            return;
        }
        assert(!p(s[i as int]));
        i = i + 1;
    }
    proof {
        lemma_first_index_is(s, p, n as int);
    }
}

/// Adds a deposit to a limited partner's paid-in capital; a limited partner
/// with none stored gets the deposit itself.
pub fn add_payment(storage: &mut ContractStorage, lp: String, deposit: Vec<SecurityCommitment>) -> (r:
    Result<(), ContractError>)
    requires
        old(storage).wf(),
        old(storage).capital_model().contains_key(lp@) ==> (old(storage).capital_model()[lp@] matches
            CapitalRecordModel::PaidInCapital(v) ==> add_all_fits(v, commitments_model(deposit@))),
    ensures
        final(storage).wf(),
        *final(storage) == (ContractStorage { capital: final(storage).capital, ..*old(storage) }),
        !old(storage).capital_model().contains_key(lp@) ==> r is Ok && final(storage).capital_model()
            == old(storage).capital_model().insert(
            lp@,
            CapitalRecordModel::PaidInCapital(commitments_model(deposit@)),
        ),
        old(storage).capital_model().contains_key(lp@) ==> match old(storage).capital_model()[lp@] {
            CapitalRecordModel::PaidInCapital(v) => r is Ok && final(storage).capital_model()
                == old(storage).capital_model().insert(
                lp@,
                CapitalRecordModel::PaidInCapital(add_all(v, commitments_model(deposit@))),
            ),
            CapitalRecordModel::Collateral(_) => r matches Err(ContractError::Std(StdError::ParseErr { .. }))
                && *final(storage) == *old(storage),
        },
{
    let ghost d = commitments_model(deposit@);
    match storage.capital.get(&lp) {
        None => {
            let ghost k = lp@;
            storage.capital.insert(lp, CapitalRecord::PaidInCapital(deposit));
            assert(storage.capital_model() =~= old(storage).capital_model().insert(
                k,
                CapitalRecordModel::PaidInCapital(d),
            ));
            Ok(())
        },
        Some(CapitalRecord::Collateral(_)) => Err(
            ContractError::Std(
                StdError::ParseErr {
                    target_type: "Vec<SecurityCommitment>".to_owned(),
                    msg: "stored record is collateral".to_owned(),
                },
            ),
        ),
        Some(CapitalRecord::PaidInCapital(v)) => {
            let ghost v0 = commitments_model(v@);
            let mut already_committed = clone_commitments(v);
            for k in 0..deposit.len()
                invariant
                    d == commitments_model(deposit@),
                    add_all_fits(v0, d),
                    commitments_model(already_committed@) == add_all(v0, d.take(k as int)),
            {
                proof {
                    assert(d.take(k + 1).drop_last() =~= d.take(k as int));
                    assert(d.take(k + 1).last() == d[k as int]);
                    assert(add_fits(add_all(v0, d.take(k as int)), d[k as int]));
                }
                add_security_commitment(&deposit[k], &mut already_committed);
            }
            assert(d.take(deposit@.len() as int) =~= d);
            let ghost key = lp@;
            storage.capital.insert(lp, CapitalRecord::PaidInCapital(already_committed));
            assert(storage.capital_model() =~= old(storage).capital_model().insert(
                key,
                CapitalRecordModel::PaidInCapital(add_all(v0, d)),
            ));
            Ok(())
        },
    }
}

} // verus!
