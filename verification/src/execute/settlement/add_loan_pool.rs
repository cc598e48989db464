//! Whitelisted contributors add loan pool markers as collateral: the
//! contract checks each marker, takes the rights of everyone else on it,
//! and records what it took.

use vstd::prelude::*;
use crate::common::collateral::{
    LoanPoolAdditionData, LoanPoolMarkerCollateral, LoanPoolMarkerCollateralModel, LoanPoolMarkers,
    collaterals_model, grant_is_valid, is_access_number, serializable_of,
};
use crate::common::error::{ContractError, StdError, std_error_text};
use crate::common::messages::{AccessGrant, AccessGrantModel, ProvMsg, ProvMsgModel, grants_model, msgs_model};
use crate::common::response::{Event, EventModel, Response, attrs_model, events_model};
use crate::common::security::{ContributeLoanPools, strings_model};
use crate::common::amount::{parse_uint128, unsigned_value};
use crate::common::text::concat;
use crate::execute::settlement::marker_loan_pool_validation::{
    marker_valid, validate_marker_for_loan_pool_add_remove, validation_outcome,
};
use crate::storage::{CapitalRecordModel, ContractStorage};
use crate::storage::loan_pool_collateral;
use crate::storage::whitelist_contributors_store::{contains_address, get_whitelist_contributors, whitelist_model};
use crate::util::provenance_utilities::{
    Access, MarkerAccount, MarkerLookup, blank, held_balances, blank_param_text, coins_of_denom, get_marker_address,
    get_single_marker_coin_holding, marker_address_of, revoke_marker_access,
};

verus! {

/// Whether a grant is held by someone other than the contract.
pub open spec fn held_by_other(g: AccessGrantModel, contract: Seq<char>) -> bool {
    g.address != contract
}

/// The grants of a marker held by others than the contract, in order.
pub open spec fn others_grants(marker: MarkerAccount, contract: Seq<char>) -> Seq<AccessGrantModel> {
    grants_model(marker.access_control@).filter(|g: AccessGrantModel| held_by_other(g, contract))
}

/// The messages that revoke the grants of others, in order.
pub open spec fn revoke_msgs(denom: Seq<char>, others: Seq<AccessGrantModel>) -> Seq<ProvMsgModel> {
    others.map_values(
        |g: AccessGrantModel| ProvMsgModel::DeleteAccess { denom, administrator: g.address, removed_address: g.address },
    )
}

/// Why the revocations cannot be built, if they cannot: a blank
/// denomination, or a blank address among the grants revoked.
pub open spec fn revoke_refusal(marker: MarkerAccount, contract: Seq<char>) -> Option<Seq<char>> {
    let grants = grants_model(marker.access_control@);
    if !(exists|i: int| 0 <= i < grants.len() && held_by_other(#[trigger] grants[i], contract)) {
        None
    } else if blank(marker.denom@) {
        Some(blank_param_text("denom"@))
    } else if exists|i: int| 0 <= i < grants.len() && held_by_other(#[trigger] grants[i], contract) && blank(grants[i].address) {
        Some("address must not be empty"@)
    } else {
        None
    }
}

/// Messages that revoke every right on a marker held by others than the
/// contract.
pub fn get_marker_permission_revoke_messages(marker: &MarkerAccount, contract_address: &String) -> (r: Result<
    Vec<ProvMsg>,
    ContractError,
>)
    ensures
        match revoke_refusal(*marker, contract_address@) {
            None => r matches Ok(msgs) && msgs_model(msgs@) == revoke_msgs(
                marker.denom@,
                others_grants(*marker, contract_address@),
            ),
            Some(text) => r matches Err(ContractError::Std(StdError::GenericErr { msg })) && msg@ == text,
        },
{
    let ghost grants = grants_model(marker.access_control@);
    let ghost pred = |g: AccessGrantModel| held_by_other(g, contract_address@);
    let ghost denom = marker.denom@;
    let mut messages: Vec<ProvMsg> = Vec::new();
    for i in 0..marker.access_control.len()
        invariant
            grants == grants_model(marker.access_control@),
            pred == (|g: AccessGrantModel| held_by_other(g, contract_address@)),
            denom == marker.denom@,
            msgs_model(messages@) == revoke_msgs(denom, grants.take(i as int).filter(pred)),
            forall|j: int| 0 <= j < i && held_by_other(#[trigger] grants[j], contract_address@) ==> !blank(denom)
                && !blank(grants[j].address),
    {
        proof {
            assert(grants[i as int] == marker.access_control@[i as int]@);
            crate::common::search::lemma_filter_take_step(grants, pred, i as int);
        }
        if marker.access_control[i].address != *contract_address {
            let msg = match revoke_marker_access(marker.denom.clone(), marker.access_control[i].address.clone()) {
                Ok(m) => m,
                Err(e) => {
                    proof {
                        assert(held_by_other(grants[i as int], contract_address@));
                    }
                    return Err(ContractError::Std(e));
                },
            };
            let ghost before = messages@;
            messages.push(msg);
            assert(msgs_model(messages@) =~= msgs_model(before).push(msg@));
        }
    }
    proof {
        assert(grants.take(grants.len() as int) =~= grants);
        if exists|i: int| 0 <= i < grants.len() && held_by_other(#[trigger] grants[i], contract_address@) {
            let i = choose|i: int| 0 <= i < grants.len() && held_by_other(#[trigger] grants[i], contract_address@);
            assert(!blank(denom));
        }
    }
    Ok(messages)
}

/// The rights asked of the contract on a loan pool marker.
pub open spec fn contract_rights() -> Seq<Access> {
    seq![Access::Admin, Access::Withdraw]
}

/// Every grant held by others than the contract names known rights.
pub open spec fn others_valid(marker: MarkerAccount, contract: Seq<char>) -> bool {
    forall|i: int|
        0 <= i < marker.access_control@.len() && held_by_other(#[trigger] marker.access_control@[i]@, contract)
            ==> grant_is_valid(marker.access_control@[i]@)
}

/// Adding a marker succeeds: the chain answered both queries, the marker
/// qualifies, and the revocations can be built.
pub open spec fn addition_ok(lookup: MarkerLookup, sender: Seq<char>, contract: Seq<char>) -> bool {
    &&& lookup.marker is Ok
    &&& lookup.supply is Ok
    &&& marker_valid(lookup.marker->Ok_0, lookup.holdings, sender, contract, contract_rights(), lookup.supply->Ok_0)
    &&& revoke_refusal(lookup.marker->Ok_0, contract) is None
}

/// The refusal when adding a marker fails.
pub open spec fn addition_error(lookup: MarkerLookup, sender: Seq<char>, contract: Seq<char>, e: ContractError) -> bool {
    match lookup.marker {
        Err(q) => e matches ContractError::InvalidMarker { message } && message@ == "Unable to get marker by denom: "@
            + std_error_text(q),
        Ok(m) => match lookup.supply {
            Err(q) => e matches ContractError::InvalidMarker { message } && message@
                == "Error when querying total supply: "@ + std_error_text(q),
            Ok(supply) => if !marker_valid(m, lookup.holdings, sender, contract, contract_rights(), supply) {
                validation_outcome(m, lookup.holdings, sender, contract, contract_rights(), supply, Err(e))
            } else {
                match revoke_refusal(m, contract) {
                    Some(text) => e matches ContractError::Std(StdError::GenericErr { msg }) && msg@ == text,
                    None => false,
                }
            },
        },
    }
}

/// The collateral recorded for an added marker.
pub open spec fn added_collateral(lookup: MarkerLookup, sender: Seq<char>, contract: Seq<char>) -> LoanPoolMarkerCollateralModel {
    let m = lookup.marker->Ok_0;
    LoanPoolMarkerCollateralModel {
        marker_address: marker_address_of(m)->Some_0,
        marker_denom: m.denom@,
        share_count: unsigned_value(coins_of_denom(held_balances(lookup.holdings), m.denom@)[0].1)->Some_0,
        original_contributor: sender,
        removed_permissions: others_grants(m, contract).map_values(|g: AccessGrantModel| serializable_of(g)),
    }
}

/// Checks a marker offered as a loan pool and builds its collateral and the
/// messages that take the rights of its holders.
pub fn create_marker_pool_collateral(lookup: &MarkerLookup, sender: &String, contract_address: &String) -> (r: Result<
    LoanPoolAdditionData,
    ContractError,
>)
    requires
        addition_ok(*lookup, sender@, contract_address@) ==> others_valid(lookup.marker->Ok_0, contract_address@),
    ensures
        r is Ok <==> addition_ok(*lookup, sender@, contract_address@),
        r matches Ok(data) ==> data.collateral@ == added_collateral(*lookup, sender@, contract_address@) && msgs_model(
            data.messages@,
        ) == revoke_msgs(lookup.marker->Ok_0.denom@, others_grants(lookup.marker->Ok_0, contract_address@)),
        r matches Err(e) ==> addition_error(*lookup, sender@, contract_address@, e),
{
    let marker = match &lookup.marker {
        Ok(m) => m,
        Err(e) => {
            let text = e.message();
            let message = concat("Unable to get marker by denom: ", text.as_str());
            return Err(ContractError::InvalidMarker { message });
        },
    };
    let supply = match &lookup.supply {
        Ok(v) => *v,
        Err(e) => {
            let text = e.message();
            let message = concat("Error when querying total supply: ", text.as_str());
            return Err(ContractError::InvalidMarker { message });
        },
    };
    let rights = [Access::Admin, Access::Withdraw];
    proof {
        assert(rights@ =~= contract_rights());
    }
    validate_marker_for_loan_pool_add_remove(marker, &lookup.holdings, sender, contract_address, &rights, supply)?;
    let messages = get_marker_permission_revoke_messages(marker, contract_address)?;
    let marker_address = get_marker_address(&marker.base_account)?;
    let holding = get_single_marker_coin_holding(&lookup.holdings, marker)?;
    let share_count = match parse_uint128(holding.amount.as_str()) {
        Ok(v) => v,
        Err(e) => {
            return Err(ContractError::Std(e));
        },
    };
    let ghost grants = grants_model(marker.access_control@);
    let ghost pred = |g: AccessGrantModel| held_by_other(g, contract_address@);
    let mut removed: Vec<AccessGrant> = Vec::new();
    for i in 0..marker.access_control.len()
        invariant
            grants == grants_model(marker.access_control@),
            pred == (|g: AccessGrantModel| held_by_other(g, contract_address@)),
            others_valid(*marker, contract_address@),
            grants_model(removed@) == grants.take(i as int).filter(pred),
            forall|j: int| 0 <= j < removed@.len() ==> grant_is_valid(#[trigger] removed@[j]@),
    {
        proof {
            assert(grants[i as int] == marker.access_control@[i as int]@);
            crate::common::search::lemma_filter_take_step(grants, pred, i as int);
        }
        if marker.access_control[i].address != *contract_address {
            let ghost before = removed@;
            removed.push(marker.access_control[i].clone());
            assert(grants_model(removed@) =~= grants_model(before).push(grants[i as int]));
        }
    }
    proof {
        assert(grants.take(grants.len() as int) =~= grants);
    }
    let collateral = LoanPoolMarkerCollateral::new(
        marker_address,
        marker.denom.clone(),
        share_count,
        sender.clone(),
        removed,
    );
    Ok(LoanPoolAdditionData { collateral, messages })
}

/// The shared table after the collaterals of the added markers are stored,
/// in order, each under its marker's address.
pub open spec fn insert_collaterals(
    m: Map<Seq<char>, CapitalRecordModel>,
    lookups: Seq<MarkerLookup>,
    sender: Seq<char>,
    contract: Seq<char>,
) -> Map<Seq<char>, CapitalRecordModel>
    decreases lookups.len(),
{
    if lookups.len() == 0 {
        m
    } else {
        let c = added_collateral(lookups.last(), sender, contract);
        insert_collaterals(m, lookups.drop_last(), sender, contract).insert(
            c.marker_address,
            CapitalRecordModel::Collateral(c),
        )
    }
}

/// The revocations of the added markers, in order.
pub open spec fn addition_msgs(lookups: Seq<MarkerLookup>, contract: Seq<char>) -> Seq<ProvMsgModel>
    decreases lookups.len(),
{
    if lookups.len() == 0 {
        Seq::empty()
    } else {
        let m = lookups.last().marker->Ok_0;
        addition_msgs(lookups.drop_last(), contract) + revoke_msgs(m.denom@, others_grants(m, contract))
    }
}

/// One event per added loan pool, naming the denomination asked for.
pub open spec fn added_events(denoms: Seq<Seq<char>>) -> Seq<EventModel> {
    denoms.map_values(|d: Seq<char>| EventModel { ty: "loan_pool_added"@, attributes: seq![("marker_address"@, d)] })
}

/// The attributes of an addition: who added and the action, when anything
/// was added.
pub open spec fn added_attributes(n: nat, sender: Seq<char>) -> Seq<(Seq<char>, Seq<char>)> {
    if n > 0 {
        seq![("loan_pool_added_by"@, sender), ("action"@, "loan_pool_added"@)]
    } else {
        Seq::empty()
    }
}

/// What handling the message leaves stored and answers.
pub open spec fn handle_outcome(before: ContractStorage, after: ContractStorage, r: Result<Response, ContractError>, contract_address: String, sender: String, loan_pools: ContributeLoanPools, lookups: Vec<MarkerLookup>) -> bool {
    &&& !whitelist_model(before).contains(sender@) ==> r == Err::<Response, ContractError>(
        ContractError::NotInWhitelist {},
    ) && after == before
    &&& whitelist_model(before).contains(sender@) ==> {
        let ls = lookups@;
        &&& after == (ContractStorage { capital: after.capital, ..before })
        &&& if forall|k: int| 0 <= k < ls.len() ==> addition_ok(#[trigger] ls[k], sender@, contract_address@) {
            &&& after.capital_model() == insert_collaterals(
                before.capital_model(),
                ls,
                sender@,
                contract_address@,
            )
            &&& r matches Ok(resp) && msgs_model(resp.messages@) == addition_msgs(ls, contract_address@)
                && events_model(resp.events@) == added_events(strings_model(loan_pools.markers@))
                && attrs_model(resp.attributes@) == added_attributes(ls.len(), sender@) && (resp.data matches Some(
                d,
            ) && collaterals_model(d.collaterals@) == ls.map_values(
                |l: MarkerLookup| added_collateral(l, sender@, contract_address@),
            ))
        } else {
            exists|k: int|
                0 <= k < ls.len() && !addition_ok(#[trigger] ls[k], sender@, contract_address@) && (forall|j: int|
                    0 <= j < k ==> addition_ok(ls[j], sender@, contract_address@)) && r is Err && addition_error(
                    ls[k],
                    sender@,
                    contract_address@,
                    r->Err_0,
                ) && after.capital_model() == insert_collaterals(
                    before.capital_model(),
                    ls.take(k),
                    sender@,
                    contract_address@,
                )
        }
    }
}

/// What handling the message asks of the stored values and the arguments:
/// for a whitelisted sender, one answer per marker, and every marker that
/// is added, once those before it were, names only rights the chain
/// defines in the grants of others than the contract.
pub open spec fn handle_admits(before: ContractStorage, contract_address: String, sender: String, loan_pools: ContributeLoanPools, lookups: Vec<MarkerLookup>) -> bool {
    whitelist_model(before).contains(sender@) ==> {
        &&& lookups@.len() == loan_pools.markers@.len()
        &&& forall|k: int| 0 <= k < lookups@.len() ==> #[trigger] added_in_turn(lookups@, k, sender@, contract_address@)
            ==> others_valid(lookups@[k].marker->Ok_0, contract_address@)
    }
}

/// Whether the marker at position `k` is added: it and every marker before
/// it can be.
pub open spec fn added_in_turn(ls: Seq<MarkerLookup>, k: int, sender: Seq<char>, contract: Seq<char>) -> bool {
    forall|j: int| 0 <= j <= k ==> addition_ok(#[trigger] ls[j], sender, contract)
}

/// Adds loan pool markers as collateral, in order; only a whitelisted
/// contributor may. `lookups` holds what the chain answered about each
/// marker, in the same order. The first marker that cannot be added
/// refuses the whole message.
pub fn handle(
    storage: &mut ContractStorage,
    contract_address: String,
    sender: String,
    loan_pools: ContributeLoanPools,
    lookups: Vec<MarkerLookup>,
) -> (r: Result<Response, ContractError>)
    requires
        old(storage).wf(),
        handle_admits(*old(storage), contract_address, sender, loan_pools, lookups),
    ensures
        final(storage).wf(),
        handle_outcome(*old(storage), *final(storage), r, contract_address, sender, loan_pools, lookups),
{
    let whitelist_contributors = get_whitelist_contributors(storage);
    if !contains_address(&whitelist_contributors, &sender) {
        return Err(ContractError::NotInWhitelist {});
    }
    let ghost ls = lookups@;
    let ghost denoms = strings_model(loan_pools.markers@);
    let mut response = Response::new();
    let mut collaterals: Vec<LoanPoolMarkerCollateral> = Vec::new();
    let n = lookups.len();
    for i in 0..n
        invariant
            n == ls.len(),
            ls == lookups@,
            denoms == strings_model(loan_pools.markers@),
            denoms.len() == n,
            whitelist_model(*old(storage)).contains(sender@),
            forall|k: int| 0 <= k < ls.len() ==> #[trigger] added_in_turn(ls, k, sender@, contract_address@)
                ==> others_valid(ls[k].marker->Ok_0, contract_address@),
            storage.wf(),
            *storage == (ContractStorage { capital: storage.capital, ..*old(storage) }),
            storage.capital_model() == insert_collaterals(old(storage).capital_model(), ls.take(i as int), sender@, contract_address@),
            forall|j: int| 0 <= j < i ==> addition_ok(#[trigger] ls[j], sender@, contract_address@),
            msgs_model(response.messages@) == addition_msgs(ls.take(i as int), contract_address@),
            events_model(response.events@) == added_events(denoms.take(i as int)),
            attrs_model(response.attributes@).len() == 0,
            response.data is None,
            collaterals_model(collaterals@) == ls.take(i as int).map_values(
                |l: MarkerLookup| added_collateral(l, sender@, contract_address@),
            ),
    {
        proof {
            assert(ls.take(i + 1).drop_last() =~= ls.take(i as int));
            assert(ls.take(i + 1).last() == ls[i as int]);
        }
        proof {
            if addition_ok(ls[i as int], sender@, contract_address@) {
                assert(added_in_turn(ls, i as int, sender@, contract_address@));
            }
        }
        let data = match create_marker_pool_collateral(&lookups[i], &sender, &contract_address) {
            Ok(d) => d,
            Err(e) => {
                proof {
                    assert(!addition_ok(ls[i as int], sender@, contract_address@));
                }
                return Err(e);
            },
        };
        let LoanPoolAdditionData { collateral, messages } = data;
        loan_pool_collateral::set(storage, &collateral)?;
        let ghost c = collateral@;
        let ghost cs = collaterals_model(collaterals@);
        collaterals.push(collateral);
        let ghost m0 = msgs_model(response.messages@);
        let ghost e0 = events_model(response.events@);
        response.add_messages(messages);
        response.add_event(Event::with_attribute("loan_pool_added", "marker_address", loan_pools.markers[i].as_str()));
        proof {
            assert(collaterals_model(collaterals@) =~= cs.push(c));
            assert(ls.take(i + 1).map_values(|l: MarkerLookup| added_collateral(l, sender@, contract_address@))
                =~= ls.take(i as int).map_values(|l: MarkerLookup| added_collateral(l, sender@, contract_address@)).push(c));
            assert(denoms[i as int] == loan_pools.markers@[i as int]@);
            assert(denoms.take(i + 1) =~= denoms.take(i as int).push(denoms[i as int]));
            assert(events_model(response.events@) =~= added_events(denoms.take(i + 1)));
            assert(storage.capital_model() =~= insert_collaterals(
                old(storage).capital_model(),
                ls.take(i + 1),
                sender@,
                contract_address@,
            ));
        }
    }
    proof {
        assert(ls.take(n as int) =~= ls);
        assert(denoms.take(n as int) =~= denoms);
    }
    if response.events.len() > 0 {
        response.add_attribute("loan_pool_added_by", sender.as_str());
        response.add_attribute("action", "loan_pool_added");
    }
    proof {
        assert(attrs_model(response.attributes@) =~= added_attributes(n as nat, sender@));
    }
    response.data = Some(LoanPoolMarkers::new(collaterals));
    Ok(response)
}

/// Whether every right of a grant is one the chain defines.
fn rights_known(g: &AccessGrant) -> (b: bool)
    ensures
        b == grant_is_valid(g@),
{
    for i in 0..g.permissions.len()
        invariant
            forall|j: int| 0 <= j < i ==> is_access_number(#[trigger] g@.permissions[j]),
    {
        if g.permissions[i] < 0 || g.permissions[i] > 8 {
            assert(!is_access_number(g@.permissions[i as int]));
            return false;
        }
    }
    true
}

/// Whether a marker can be added: the chain answered both queries, the
/// marker qualifies, and the revocations can be built.
fn can_add(lookup: &MarkerLookup, sender: &String, contract_address: &String) -> (b: bool)
    ensures
        b == addition_ok(*lookup, sender@, contract_address@),
{
    let marker = match &lookup.marker {
        Ok(m) => m,
        Err(_) => {
            return false;
        },
    };
    let supply = match &lookup.supply {
        Ok(v) => *v,
        Err(_) => {
            return false;
        },
    };
    let rights = [Access::Admin, Access::Withdraw];
    proof {
        assert(rights@ =~= contract_rights());
    }
    if validate_marker_for_loan_pool_add_remove(marker, &lookup.holdings, sender, contract_address, &rights, supply).is_err() {
        return false;
    }
    get_marker_permission_revoke_messages(marker, contract_address).is_ok()
}

/// Whether every grant of a marker held by others than the contract names
/// only rights the chain defines.
fn others_known(marker: &MarkerAccount, contract_address: &String) -> (b: bool)
    ensures
        b == others_valid(*marker, contract_address@),
{
    for i in 0..marker.access_control.len()
        invariant
            forall|j: int|
                0 <= j < i && held_by_other((#[trigger] marker.access_control@[j])@, contract_address@)
                    ==> grant_is_valid(marker.access_control@[j]@),
    {
        let grant = &marker.access_control[i];
        if grant.address != *contract_address && !rights_known(grant) {
            assert(held_by_other(marker.access_control@[i as int]@, contract_address@));
            return false;
        }
    }
    true
}

/// Whether the chain's answers meet what `handle` asks of them.
pub fn handle_admitted(
    storage: &ContractStorage,
    contract_address: &String,
    sender: &String,
    loan_pools: &ContributeLoanPools,
    lookups: &Vec<MarkerLookup>,
) -> (b: bool)
    ensures
        b == handle_admits(*storage, *contract_address, *sender, *loan_pools, *lookups),
{
    let whitelist_contributors = get_whitelist_contributors(storage);
    if !contains_address(&whitelist_contributors, sender) {
        return true;
    }
    if lookups.len() != loan_pools.markers.len() {
        return false;
    }
    let ghost ls = lookups@;
    for k in 0..lookups.len()
        invariant
            ls == lookups@,
            lookups@.len() == loan_pools.markers@.len(),
            whitelist_model(*storage).contains(sender@),
            forall|m: int| 0 <= m < k ==> addition_ok(#[trigger] ls[m], sender@, contract_address@),
            forall|m: int| 0 <= m < k ==> #[trigger] added_in_turn(ls, m, sender@, contract_address@)
                ==> others_valid(ls[m].marker->Ok_0, contract_address@),
    {
        if !can_add(&lookups[k], sender, contract_address) {
            proof {
                assert forall|m: int| 0 <= m < ls.len() && #[trigger] added_in_turn(ls, m, sender@, contract_address@)
                    implies others_valid(ls[m].marker->Ok_0, contract_address@) by {
                    if m >= k {
                        assert(addition_ok(ls[k as int], sender@, contract_address@));
                    }
                }
            }
            return true;
        }
        let marker = match &lookups[k].marker {
            Ok(m) => m,
            Err(_) => {
                return true;
            },
        };
        if !others_known(marker, contract_address) {
            assert(added_in_turn(ls, k as int, sender@, contract_address@));
            return false;
        }
    }
    true
}

} // verus!
