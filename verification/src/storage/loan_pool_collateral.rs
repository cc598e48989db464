//! Loan pool collateral by marker address. It shares its records with
//! paid-in capital (see `CapitalRecord`).

use vstd::prelude::*;
use crate::common::collateral::{LoanPoolMarkerCollateral, LoanPoolMarkerCollateralModel};
use crate::common::error::{ContractError, StdError, not_found};
use crate::storage::{CapitalRecord, CapitalRecordModel, ContractStorage};
use crate::storage::keyed_map::entries_values;

verus! {

/// The error of reading collateral where nothing is stored.
pub open spec fn collateral_missing(e: ContractError) -> bool {
    e matches ContractError::Std(StdError::NotFound { kind }) && kind@ == "LoanPoolMarkerCollateral"@
}

/// The error of reading collateral where paid-in capital is stored.
pub open spec fn collateral_mistyped(e: ContractError) -> bool {
    e matches ContractError::Std(StdError::ParseErr { target_type, msg }) && target_type@
        == "LoanPoolMarkerCollateral"@ && msg@ == "stored record is paid-in capital"@
}

/// Reads the collateral of a marker. A key that holds paid-in capital does
/// not read as collateral.
pub fn get(storage: &ContractStorage, marker_address: String) -> (r: Result<
    LoanPoolMarkerCollateral,
    ContractError,
>)
    requires
        storage.wf(),
    ensures
        storage.capital_model().contains_key(marker_address@) ==> match storage.capital_model()[marker_address@] {
            CapitalRecordModel::Collateral(c) => r matches Ok(x) && x@ == c,
            CapitalRecordModel::PaidInCapital(_) => r matches Err(e) && collateral_mistyped(e),
        },
        !storage.capital_model().contains_key(marker_address@) ==> (r matches Err(e) && collateral_missing(e)),
{
    match storage.capital.get(&marker_address) {
        Some(CapitalRecord::Collateral(c)) => Ok(c.clone()),
        Some(CapitalRecord::PaidInCapital(_)) => Err(
            ContractError::Std(
                StdError::ParseErr {
                    target_type: "LoanPoolMarkerCollateral".to_owned(),
                    msg: "stored record is paid-in capital".to_owned(),
                },
            ),
        ),
        None => Err(not_found("LoanPoolMarkerCollateral")),
    }
}

/// Stores collateral under its marker's address.
pub fn set(storage: &mut ContractStorage, collateral: &LoanPoolMarkerCollateral) -> (r: Result<
    (),
    ContractError,
>)
    requires
        old(storage).wf(),
    ensures
        r is Ok,
        final(storage).wf(),
        final(storage).capital_model() == old(storage).capital_model().insert(
            collateral.marker_address@,
            CapitalRecordModel::Collateral(collateral@),
        ),
        *final(storage) == (ContractStorage { capital: final(storage).capital, ..*old(storage) }),
{
    storage.capital.insert(collateral.marker_address.clone(), CapitalRecord::Collateral(collateral.clone()));
    assert(storage.capital_model() =~= old(storage).capital_model().insert(
        collateral.marker_address@,
        CapitalRecordModel::Collateral(collateral@),
    ));
    Ok(())
}

/// Deletes the record under a collateral's marker address.
pub fn remove(storage: &mut ContractStorage, collateral: &LoanPoolMarkerCollateral) -> (r: Result<
    (),
    ContractError,
>)
    requires
        old(storage).wf(),
    ensures
        r is Ok,
        final(storage).wf(),
        final(storage).capital_model() == old(storage).capital_model().remove(collateral.marker_address@),
        *final(storage) == (ContractStorage { capital: final(storage).capital, ..*old(storage) }),
{
    storage.capital.remove(&collateral.marker_address);
    assert(storage.capital_model() =~= old(storage).capital_model().remove(collateral.marker_address@));
    Ok(())
}

/// Whether anything is stored under a marker address.
pub fn contains(storage: &ContractStorage, marker_address: String) -> (b: bool)
    requires
        storage.wf(),
    ensures
        b == storage.capital_model().contains_key(marker_address@),
{
    storage.capital.contains(&marker_address)
}

/// The records of the shared table in ascending order of their keys.
pub open spec fn records_in_order(storage: ContractStorage) -> Seq<CapitalRecordModel> {
    entries_values(storage.capital@).map_values(|c: CapitalRecord| c@)
}

/// Whether a record is collateral for a marker of the given denomination.
pub open spec fn is_collateral_of_denom(r: CapitalRecordModel, denom: Seq<char>) -> bool {
    r matches CapitalRecordModel::Collateral(c) && c.marker_denom == denom
}

/// The collateral in a record (arbitrary for paid-in capital).
pub open spec fn collateral_of(r: CapitalRecordModel) -> LoanPoolMarkerCollateralModel {
    match r {
        CapitalRecordModel::Collateral(c) => c,
        CapitalRecordModel::PaidInCapital(_) => arbitrary(),
    }
}

/// The collaterals whose marker has the denomination of the given one, in
/// ascending order of their marker addresses.
pub fn get_with_state(storage: &ContractStorage, state: LoanPoolMarkerCollateral) -> (r: Vec<
    LoanPoolMarkerCollateral,
>)
    requires
        storage.wf(),
    ensures
        r@.map_values(|c: LoanPoolMarkerCollateral| c@) == records_in_order(*storage).filter(
            |x: CapitalRecordModel| is_collateral_of_denom(x, state.marker_denom@),
        ).map_values(|x: CapitalRecordModel| collateral_of(x)),
{
    let ghost all = records_in_order(*storage);
    let ghost pred = |x: CapitalRecordModel| is_collateral_of_denom(x, state.marker_denom@);
    let mut r: Vec<LoanPoolMarkerCollateral> = Vec::new();
    let n = storage.capital.len();
    for i in 0..n
        invariant
            n == storage.capital@.len(),
            all == records_in_order(*storage),
            pred == (|x: CapitalRecordModel| is_collateral_of_denom(x, state.marker_denom@)),
            all.len() == n,
            r@.map_values(|c: LoanPoolMarkerCollateral| c@) == all.take(i as int).filter(pred).map_values(
                |x: CapitalRecordModel| collateral_of(x),
            ),
    {
        let rec = storage.capital.value_at(i);
        proof {
            assert(all[i as int] == rec@);
            crate::common::search::lemma_filter_take_step(all, pred, i as int);
        }
        match rec {
            CapitalRecord::Collateral(c) => {
                if c.marker_denom == state.marker_denom {
                    let ghost before = r@;
                    r.push(c.clone());
                    assert(r@.map_values(|c: LoanPoolMarkerCollateral| c@) =~= before.map_values(
                        |c: LoanPoolMarkerCollateral| c@,
                    ).push(collateral_of(all[i as int])));
                    assert(all.take(i + 1).filter(pred).map_values(|x: CapitalRecordModel| collateral_of(x))
                        =~= all.take(i as int).filter(pred).map_values(|x: CapitalRecordModel| collateral_of(x)).push(
                        collateral_of(all[i as int]),
                    ));
                }
            },
            CapitalRecord::PaidInCapital(_) => {},
        }
    }
    assert(all.take(n as int) =~= all);
    r
}

/// Whether every record of the shared table is collateral.
pub open spec fn only_collateral(storage: ContractStorage) -> bool {
    forall|i: int| 0 <= i < records_in_order(storage).len() ==> #[trigger] records_in_order(storage)[i] is Collateral
}

/// Whether every record of the shared table is collateral.
pub fn holds_only_collateral(storage: &ContractStorage) -> (b: bool)
    ensures
        b == only_collateral(*storage),
{
    let ghost all = records_in_order(*storage);
    let n = storage.capital.len();
    for i in 0..n
        invariant
            n == storage.capital@.len(),
            all == records_in_order(*storage),
            all.len() == n,
            forall|j: int| 0 <= j < i ==> #[trigger] all[j] is Collateral,
    {
        let rec = storage.capital.value_at(i);
        assert(all[i as int] == rec@);
        if let CapitalRecord::PaidInCapital(_) = rec {
            return false;
        }
    }
    true
}

/// Every collateral, in ascending order of the marker addresses. The table
/// must hold no paid-in capital: a record that does not read as collateral
/// stops the walk.
pub fn get_all_states(storage: &ContractStorage) -> (r: Vec<LoanPoolMarkerCollateral>)
    requires
        storage.wf(),
        only_collateral(*storage),
    ensures
        r@.map_values(|c: LoanPoolMarkerCollateral| c@) == records_in_order(*storage).map_values(
            |x: CapitalRecordModel| collateral_of(x),
        ),
{
    let ghost all = records_in_order(*storage);
    let mut r: Vec<LoanPoolMarkerCollateral> = Vec::new();
    let n = storage.capital.len();
    for i in 0..n
        invariant
            n == storage.capital@.len(),
            all == records_in_order(*storage),
            all.len() == n,
            only_collateral(*storage),
            r@.map_values(|c: LoanPoolMarkerCollateral| c@) == all.take(i as int).map_values(
                |x: CapitalRecordModel| collateral_of(x),
            ),
    {
        let rec = storage.capital.value_at(i);
        proof {
            assert(all[i as int] == rec@);
            assert(all[i as int] is Collateral);
        }
        match rec {
            CapitalRecord::Collateral(c) => {
                let ghost before = r@;
                r.push(c.clone());
                proof {
                    crate::common::search::lemma_map_take_step(all, |x: CapitalRecordModel| collateral_of(x), i as int);
                    assert(collateral_of(all[i as int]) == c@);
                    assert(r@.map_values(|c: LoanPoolMarkerCollateral| c@) =~= before.map_values(
                        |c: LoanPoolMarkerCollateral| c@,
                    ).push(c@));
                }
            },
            CapitalRecord::PaidInCapital(_) => {
                assert(false);
            },
        }
    }
    assert(all.take(n as int) =~= all);
    r
}

} // verus!
