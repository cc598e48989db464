//! The general partner withdraws loan pool markers from the collateral: the
//! rights taken from their holders are given back, and the contract gives
//! up its own.

use vstd::prelude::*;
use crate::common::collateral::{
    LoanPoolMarkerCollateral, LoanPoolMarkerCollateralModel, LoanPoolMarkers, LoanPoolRemovalData, collaterals_model,
    grant_of,
};
use crate::common::error::{ContractError, StdError};
use crate::common::messages::{AccessGrant, AccessGrantModel, ProvMsgModel, grants_model, msgs_model};
use crate::common::response::{Event, EventModel, Response, attrs_model, events_model};
use crate::common::security::WithdrawLoanPools;
use crate::storage::{CapitalRecordModel, ContractStorage};
use crate::storage::{loan_pool_collateral, state};
use crate::util::provenance_utilities::{
    MarkerAccount, blank, blank_param_text, get_marker_address, marker_address_of, release_marker_from_contract,
};

verus! {

/// The messages that give rights back to their holders, then give up the
/// contract's own.
pub open spec fn release_msgs(denom: Seq<char>, grants: Seq<AccessGrantModel>, contract: Seq<char>) -> Seq<ProvMsgModel> {
    grants.map_values(
        |g: AccessGrantModel| ProvMsgModel::AddAccess { denom, administrator: g.address, access: seq![g] },
    ).push(ProvMsgModel::DeleteAccess { denom, administrator: contract, removed_address: contract })
}

/// Why those messages cannot be built, if they cannot.
pub open spec fn release_refusal(denom: Seq<char>, grants: Seq<AccessGrantModel>, contract: Seq<char>) -> Option<Seq<char>> {
    if blank(denom) {
        Some(blank_param_text("denom"@))
    } else if (exists|i: int| 0 <= i < grants.len() && blank(#[trigger] grants[i].address)) || blank(contract) {
        Some("address must not be empty"@)
    } else {
        None
    }
}

/// The grants recorded in a collateral, in the chain's form.
pub open spec fn recorded_grants(c: LoanPoolMarkerCollateralModel) -> Seq<AccessGrantModel> {
    c.removed_permissions.map_values(|g| grant_of(g))
}

/// The address of a marker the chain reported.
pub open spec fn looked_up_address(marker: Result<MarkerAccount, StdError>) -> Seq<char> {
    marker_address_of(marker->Ok_0)->Some_0
}

/// The collateral stored for a marker the chain reported.
pub open spec fn stored_collateral(
    capital: Map<Seq<char>, CapitalRecordModel>,
    marker: Result<MarkerAccount, StdError>,
) -> LoanPoolMarkerCollateralModel {
    capital[looked_up_address(marker)]->Collateral_0
}

/// Withdrawing a marker succeeds: the chain reported it with an account,
/// collateral is stored under its address, and the release messages can
/// be built.
pub open spec fn removal_ok(
    capital: Map<Seq<char>, CapitalRecordModel>,
    marker: Result<MarkerAccount, StdError>,
    contract: Seq<char>,
) -> bool {
    &&& marker is Ok
    &&& marker_address_of(marker->Ok_0) is Some
    &&& capital.contains_key(looked_up_address(marker))
    &&& capital[looked_up_address(marker)] is Collateral
    &&& release_refusal(
        marker->Ok_0.denom@,
        recorded_grants(stored_collateral(capital, marker)),
        contract,
    ) is None
}

/// The refusal when withdrawing a marker fails.
pub open spec fn removal_error(
    capital: Map<Seq<char>, CapitalRecordModel>,
    marker: Result<MarkerAccount, StdError>,
    contract: Seq<char>,
    e: ContractError,
) -> bool {
    match marker {
        Err(q) => e == ContractError::Std(q),
        Ok(m) => match marker_address_of(m) {
            None => e matches ContractError::InvalidMarker { message } && message@ == "Base account is missing"@,
            Some(address) => if !capital.contains_key(address) {
                loan_pool_collateral::collateral_missing(e)
            } else if capital[address] is PaidInCapital {
                loan_pool_collateral::collateral_mistyped(e)
            } else {
                match release_refusal(m.denom@, recorded_grants(capital[address]->Collateral_0), contract) {
                    Some(text) => e matches ContractError::Std(StdError::GenericErr { msg }) && msg@ == text,
                    None => false,
                }
            },
        },
    }
}

/// The messages of a withdrawal.
pub open spec fn removal_msgs(
    capital: Map<Seq<char>, CapitalRecordModel>,
    marker: Result<MarkerAccount, StdError>,
    contract: Seq<char>,
) -> Seq<ProvMsgModel> {
    release_msgs(marker->Ok_0.denom@, recorded_grants(stored_collateral(capital, marker)), contract)
}

/// Finds the collateral of a marker the chain reported and builds the
/// messages that release it.
pub fn withdraw_marker_pool_collateral(
    storage: &ContractStorage,
    marker: &Result<MarkerAccount, StdError>,
    contract_address: &String,
) -> (r: Result<LoanPoolRemovalData, ContractError>)
    requires
        storage.wf(),
    ensures
        r is Ok <==> removal_ok(storage.capital_model(), *marker, contract_address@),
        r matches Ok(data) ==> data.collateral@ == stored_collateral(storage.capital_model(), *marker) && msgs_model(
            data.messages@,
        ) == removal_msgs(storage.capital_model(), *marker, contract_address@),
        r matches Err(e) ==> removal_error(storage.capital_model(), *marker, contract_address@, e),
{
    let marker = match marker {
        Ok(m) => m,
        Err(e) => {
            return Err(ContractError::Std(e.clone()));
        },
    };
    let marker_address = get_marker_address(&marker.base_account)?;
    let collateral = loan_pool_collateral::get(storage, marker_address)?;
    let ghost stored = collateral@.removed_permissions;
    let mut grants: Vec<AccessGrant> = Vec::new();
    for i in 0..collateral.removed_permissions.len()
        invariant
            stored == collateral@.removed_permissions,
            grants_model(grants@) == stored.take(i as int).map_values(|g| grant_of(g)),
    {
        let g = collateral.removed_permissions[i].clone().to_grant();
        let ghost before = grants_model(grants@);
        grants.push(g);
        proof {
            assert(stored[i as int] == collateral.removed_permissions@[i as int]@);
            assert(grants_model(grants@) =~= before.push(grant_of(stored[i as int])));
            assert(stored.take(i + 1).map_values(|g| grant_of(g)) =~= stored.take(i as int).map_values(
                |g| grant_of(g),
            ).push(grant_of(stored[i as int])));
        }
    }
    proof {
        assert(stored.take(stored.len() as int) =~= stored);
        let gm = grants_model(grants@);
        if exists|i: int| 0 <= i < gm.len() && blank(#[trigger] gm[i].address) {
            let i = choose|i: int| 0 <= i < gm.len() && blank(#[trigger] gm[i].address);
            assert(blank(grants@[i].address@));
        }
        if exists|i: int| 0 <= i < grants@.len() && blank(#[trigger] grants@[i].address@) {
            let i = choose|i: int| 0 <= i < grants@.len() && blank(#[trigger] grants@[i].address@);
            assert(blank(gm[i].address));
        }
    }
    let messages = release_marker_from_contract(marker.denom.clone(), contract_address, &grants)?;
    proof {
        let gm = grants_model(grants@);
        assert(grants@.map_values(
            |g: AccessGrant| ProvMsgModel::AddAccess { denom: marker.denom@, administrator: g.address@, access: seq![g@] },
        ) =~= gm.map_values(
            |g: AccessGrantModel| ProvMsgModel::AddAccess { denom: marker.denom@, administrator: g.address, access: seq![g] },
        ));
    }
    Ok(LoanPoolRemovalData { collateral, messages })
}

/// The shared table once the given addresses are removed, in order.
pub open spec fn remove_addresses(m: Map<Seq<char>, CapitalRecordModel>, addresses: Seq<Seq<char>>) -> Map<
    Seq<char>,
    CapitalRecordModel,
>
    decreases addresses.len(),
{
    if addresses.len() == 0 {
        m
    } else {
        remove_addresses(m, addresses.drop_last()).remove(addresses.last())
    }
}

/// The release messages of the withdrawn markers, in order.
pub open spec fn all_removal_msgs(
    capital: Map<Seq<char>, CapitalRecordModel>,
    markers: Seq<Result<MarkerAccount, StdError>>,
    contract: Seq<char>,
) -> Seq<ProvMsgModel>
    decreases markers.len(),
{
    if markers.len() == 0 {
        Seq::empty()
    } else {
        all_removal_msgs(capital, markers.drop_last(), contract) + removal_msgs(capital, markers.last(), contract)
    }
}

/// One event per withdrawn marker, naming its address.
pub open spec fn withdrawn_events(addresses: Seq<Seq<char>>) -> Seq<EventModel> {
    addresses.map_values(
        |a: Seq<char>| EventModel { ty: "loan_pool_withdrawn"@, attributes: seq![("marker_address"@, a)] },
    )
}

/// The attributes of a withdrawal, when anything was withdrawn.
pub open spec fn withdrawn_attributes(n: nat, sender: Seq<char>) -> Seq<(Seq<char>, Seq<char>)> {
    if n > 0 {
        seq![("action"@, "loan_pool_removed"@), ("loan_pool_removed_by"@, sender)]
    } else {
        Seq::empty()
    }
}

/// What handling the message leaves stored and answers.
pub open spec fn handle_outcome(before: ContractStorage, after: ContractStorage, r: Result<Response, ContractError>, contract_address: String, sender: String, loan_pools: WithdrawLoanPools, markers: Vec<Result<MarkerAccount, StdError>>) -> bool {
    &&& match before.state {
        None => r matches Err(ContractError::Std(_)) && after == before,
        Some(st) => if sender@ != st.gp@ {
            r == Err::<Response, ContractError>(ContractError::Unauthorized {}) && after
                == before
        } else {
            let capital = before.capital_model();
            let ms = markers@;
            if forall|k: int| 0 <= k < ms.len() ==> removal_ok(capital, #[trigger] ms[k], contract_address@) {
                let addresses = ms.map_values(|m: Result<MarkerAccount, StdError>| looked_up_address(m));
                &&& after == (ContractStorage { capital: after.capital, ..before })
                &&& after.capital_model() == remove_addresses(capital, addresses)
                &&& r matches Ok(resp) && msgs_model(resp.messages@) == all_removal_msgs(capital, ms, contract_address@)
                    && events_model(resp.events@) == withdrawn_events(addresses) && attrs_model(resp.attributes@)
                    == withdrawn_attributes(ms.len(), sender@) && (resp.data matches Some(d) && collaterals_model(
                    d.collaterals@,
                ) == ms.map_values(|m: Result<MarkerAccount, StdError>| stored_collateral(capital, m)))
            } else {
                &&& after == before
                &&& exists|k: int|
                    0 <= k < ms.len() && !removal_ok(capital, #[trigger] ms[k], contract_address@) && (forall|j: int|
                        0 <= j < k ==> removal_ok(capital, ms[j], contract_address@)) && r is Err && removal_error(
                        capital,
                        ms[k],
                        contract_address@,
                        r->Err_0,
                    )
            }
        },
    }
}

/// What handling the message asks of the stored values and the arguments.
pub open spec fn handle_admits(before: ContractStorage, contract_address: String, sender: String, loan_pools: WithdrawLoanPools, markers: Vec<Result<MarkerAccount, StdError>>) -> bool {
    &&& markers@.len() == loan_pools.markers@.len()
}

/// Withdraws loan pool markers from the collateral; only the general
/// partner may. `markers` holds the chain's answer for each denomination of
/// `loan_pools`, in order. Every marker is checked before anything is
/// removed, and the first that cannot be withdrawn refuses the message.
pub fn handle(
    storage: &mut ContractStorage,
    contract_address: String,
    sender: String,
    loan_pools: WithdrawLoanPools,
    markers: Vec<Result<MarkerAccount, StdError>>,
) -> (r: Result<Response, ContractError>)
    requires
        old(storage).wf(),
        handle_admits(*old(storage), contract_address, sender, loan_pools, markers),
    ensures
        final(storage).wf(),
        handle_outcome(*old(storage), *final(storage), r, contract_address, sender, loan_pools, markers),
{
    let st = state::get(storage)?;
    if sender != st.gp {
        return Err(ContractError::Unauthorized {});
    }
    let ghost capital = storage.capital_model();
    let ghost ms = markers@;
    let n = markers.len();
    let mut removal_data: Vec<LoanPoolRemovalData> = Vec::new();
    for i in 0..n
        invariant
            n == ms.len(),
            ms == markers@,
            storage.wf(),
            *storage == *old(storage),
            capital == storage.capital_model(),
            old(storage).state matches Some(x) && sender@ == x.gp@,
            removal_data@.len() == i,
            forall|j: int| 0 <= j < i ==> removal_ok(capital, #[trigger] ms[j], contract_address@),
            forall|j: int| 0 <= j < i ==> (#[trigger] removal_data@[j]).collateral@ == stored_collateral(capital, ms[j])
                && msgs_model(removal_data@[j].messages@) == removal_msgs(capital, ms[j], contract_address@),
    {
        let data = match withdraw_marker_pool_collateral(storage, &markers[i], &contract_address) {
            Ok(d) => d,
            Err(e) => {
                proof {
                    assert(!removal_ok(capital, ms[i as int], contract_address@));
                }
                return Err(e);
            },
        };
        removal_data.push(data);
    }
    let ghost addresses = ms.map_values(|m: Result<MarkerAccount, StdError>| looked_up_address(m));
    let ghost all_data = removal_data@;
    let mut response = Response::new();
    let mut collaterals: Vec<LoanPoolMarkerCollateral> = Vec::new();
    let mut rest = removal_data;
    let mut i: usize = 0;
    while rest.len() > 0
        invariant
            n == ms.len(),
            all_data.len() == n,
            i + rest@.len() == n,
            rest@ == all_data.skip(i as int),
            forall|j: int| 0 <= j < n ==> removal_ok(capital, #[trigger] ms[j], contract_address@),
            forall|j: int| 0 <= j < n ==> (#[trigger] all_data[j]).collateral@ == stored_collateral(capital, ms[j])
                && msgs_model(all_data[j].messages@) == removal_msgs(capital, ms[j], contract_address@),
            addresses == ms.map_values(|m: Result<MarkerAccount, StdError>| looked_up_address(m)),
            old(storage).wf(),
            capital == old(storage).capital_model(),
            old(storage).state matches Some(x) && sender@ == x.gp@,
            storage.wf(),
            *storage == (ContractStorage { capital: storage.capital, ..*old(storage) }),
            storage.capital_model() == remove_addresses(capital, addresses.take(i as int)),
            msgs_model(response.messages@) == all_removal_msgs(capital, ms.take(i as int), contract_address@),
            events_model(response.events@) == withdrawn_events(addresses.take(i as int)),
            attrs_model(response.attributes@).len() == 0,
            response.data is None,
            collaterals_model(collaterals@) == ms.take(i as int).map_values(
                |m: Result<MarkerAccount, StdError>| stored_collateral(capital, m),
            ),
        decreases rest@.len(),
    {
        let data = rest.remove(0);
        proof {
            assert(data == all_data[i as int]);
            assert(rest@ =~= all_data.skip(i + 1));
            assert(ms.take(i + 1).drop_last() =~= ms.take(i as int));
            assert(addresses.take(i + 1).drop_last() =~= addresses.take(i as int));
            assert(removal_ok(capital, ms[i as int], contract_address@));
        }
        let LoanPoolRemovalData { collateral, messages } = data;
        loan_pool_collateral::remove(storage, &collateral)?;
        let ghost c = collateral@;
        let ghost cs = collaterals_model(collaterals@);
        let event = Event::with_attribute("loan_pool_withdrawn", "marker_address", collateral.marker_address.as_str());
        collaterals.push(collateral);
        let ghost m0 = msgs_model(response.messages@);
        let ghost e0 = events_model(response.events@);
        response.add_messages(messages);
        response.add_event(event);
        proof {
            assert(old(storage).capital_model().contains_key(addresses[i as int]));
            assert(c.marker_address == addresses[i as int]);
            assert(collaterals_model(collaterals@) =~= cs.push(c));
            assert(ms.take(i + 1).map_values(|m: Result<MarkerAccount, StdError>| stored_collateral(capital, m))
                =~= ms.take(i as int).map_values(|m: Result<MarkerAccount, StdError>| stored_collateral(capital, m)).push(c));
            assert(addresses.take(i + 1) =~= addresses.take(i as int).push(addresses[i as int]));
            assert(events_model(response.events@) =~= withdrawn_events(addresses.take(i + 1)));
            assert(storage.capital_model() =~= remove_addresses(capital, addresses.take(i + 1)));
        }
        i = i + 1;
    }
    proof {
        assert(ms.take(n as int) =~= ms);
        assert(addresses.take(n as int) =~= addresses);
    }
    if response.events.len() > 0 {
        response.add_attribute("action", "loan_pool_removed");
        response.add_attribute("loan_pool_removed_by", sender.as_str());
    }
    proof {
        assert(attrs_model(response.attributes@) =~= withdrawn_attributes(n as nat, sender@));
    }
    response.data = Some(LoanPoolMarkers::new(collaterals));
    Ok(response)
}

} // verus!
