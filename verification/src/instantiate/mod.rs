//! Setting up the contract: its version, configuration and securities, and
//! an active marker for the investment token of each security.

pub mod validate;
use vstd::prelude::*;
use crate::common::error::{ContractError, StdError};
use crate::common::messages::{
    ACCESS_ADMIN, ACCESS_BURN, ACCESS_MINT, ACCESS_WITHDRAW, AccessGrant, AccessGrantModel, MARKER_TYPE_COIN,
    ProvMsg, ProvMsgModel, msgs_model,
};
use crate::common::msg::{CONTRACT_NAME, CONTRACT_VERSION, InstantiateMsg};
use crate::common::response::{Response, attrs_model, events_model};
use crate::common::security::{CoinModel, SecurityModel, securities_model};
use crate::storage::{ContractStorage, ContractVersion, StorageModel};
use crate::storage::{remaining_securities, securities, state};
use crate::storage::state::{State, StateModel};
use crate::util::provenance_utilities::{
    activate_marker, blank, blank_param_text, create_marker, finalize_marker, grant_marker_access,
};
use crate::util::to::{investment_name, security_to_investment_name};

verus! {

/// The rights the contract takes on the markers it creates.
pub open spec fn owner_rights() -> Seq<i32> {
    seq![ACCESS_ADMIN, ACCESS_MINT, ACCESS_BURN, ACCESS_WITHDRAW]
}

/// The messages that create a coin marker owned by an address, grant it
/// rights, finalize and activate it.
pub open spec fn active_marker_msgs(owner: Seq<char>, denom: Seq<char>, amount: u128) -> Seq<ProvMsgModel> {
    seq![
        ProvMsgModel::AddMarker {
            amount: CoinModel { denom, amount },
            manager: owner,
            from_address: owner,
            marker_type: MARKER_TYPE_COIN,
        },
        ProvMsgModel::AddAccess {
            denom,
            administrator: owner,
            access: seq![AccessGrantModel { address: owner, permissions: owner_rights() }],
        },
        ProvMsgModel::Finalize { denom, administrator: owner },
        ProvMsgModel::Activate { denom, administrator: owner },
    ]
}

/// Why those messages cannot be built, if they cannot.
pub open spec fn marker_refusal(owner: Seq<char>, denom: Seq<char>) -> Option<Seq<char>> {
    if blank(denom) {
        Some(blank_param_text("denom"@))
    } else if blank(owner) {
        Some("address must not be empty"@)
    } else {
        None
    }
}

/// A new active coin marker owned by an address.
pub fn new_active_marker(owner: String, denom: &String, amount: u128) -> (r: Result<Vec<ProvMsg>, StdError>)
    ensures
        match marker_refusal(owner@, denom@) {
            None => r matches Ok(msgs) && msgs_model(msgs@) == active_marker_msgs(owner@, denom@, amount),
            Some(text) => r matches Err(StdError::GenericErr { msg }) && msg@ == text,
        },
{
    let mut permissions: Vec<i32> = Vec::new();
    permissions.push(ACCESS_ADMIN);
    permissions.push(ACCESS_MINT);
    permissions.push(ACCESS_BURN);
    permissions.push(ACCESS_WITHDRAW);
    assert(permissions@ =~= owner_rights());
    let mut grants: Vec<AccessGrant> = Vec::new();
    grants.push(AccessGrant { address: owner.clone(), permissions });
    proof {
        assert(crate::common::messages::grants_model(grants@) =~= seq![
            AccessGrantModel { address: owner@, permissions: owner_rights() },
        ]);
    }
    let create = create_marker(amount, denom.clone(), MARKER_TYPE_COIN, owner.clone())?;
    let grant = grant_marker_access(denom.clone(), owner.clone(), grants)?;
    let finalize = finalize_marker(denom.clone(), owner.clone())?;
    let activate = activate_marker(denom.clone(), owner)?;
    let mut msgs: Vec<ProvMsg> = Vec::new();
    msgs.push(create);
    msgs.push(grant);
    msgs.push(finalize);
    msgs.push(activate);
    assert(msgs_model(msgs@) =~= active_marker_msgs(owner@, denom@, amount));
    Ok(msgs)
}

/// The securities stored under their names, in order.
pub open spec fn insert_securities(m: Map<Seq<char>, SecurityModel>, s: Seq<SecurityModel>) -> Map<Seq<char>, SecurityModel>
    decreases s.len(),
{
    if s.len() == 0 {
        m
    } else {
        insert_securities(m, s.drop_last()).insert(s.last().name, s.last())
    }
}

/// The full amount of each security stored as its remainder, in order.
pub open spec fn insert_remaining(m: Map<Seq<char>, u128>, s: Seq<SecurityModel>) -> Map<Seq<char>, u128>
    decreases s.len(),
{
    if s.len() == 0 {
        m
    } else {
        insert_remaining(m, s.drop_last()).insert(s.last().name, s.last().amount)
    }
}

/// The marker messages of each security's investment token, in order.
pub open spec fn investment_markers(contract: Seq<char>, s: Seq<SecurityModel>) -> Seq<ProvMsgModel>
    decreases s.len(),
{
    if s.len() == 0 {
        Seq::empty()
    } else {
        investment_markers(contract, s.drop_last()) + active_marker_msgs(
            contract,
            investment_name(s.last().name, contract),
            0,
        )
    }
}

/// What setting up the contract leaves stored once the first `k`
/// securities are recorded.
pub open spec fn instantiated(s: StorageModel, msg: InstantiateMsg, k: int) -> StorageModel {
    let secs = securities_model(msg.securities@).take(k);
    StorageModel {
        contract_version: Some((CONTRACT_NAME@, CONTRACT_VERSION@)),
        state: Some(StateModel { gp: msg.gp@, capital_denom: msg.capital_denom@, settlement_time: msg.settlement_time }),
        securities: insert_securities(s.securities, secs),
        remaining: insert_remaining(s.remaining, secs),
        ..s
    }
}

/// What handling the message leaves stored and answers.
pub open spec fn handle_outcome(before: ContractStorage, after: ContractStorage, r: Result<Response, ContractError>, contract_address: String, msg: InstantiateMsg) -> bool {
    &&& ({
        let secs = securities_model(msg.securities@);
        if forall|k: int| 0 <= k < secs.len() ==> marker_refusal(
            contract_address@,
            investment_name((#[trigger] secs[k]).name, contract_address@),
        ) is None {
            &&& after.model() == instantiated(before.model(), msg, secs.len() as int)
            &&& r matches Ok(resp) && msgs_model(resp.messages@) == investment_markers(contract_address@, secs)
                && attrs_model(resp.attributes@) == seq![("action"@, "init"@)] && events_model(resp.events@).len()
                == 0 && resp.data is None
        } else {
            exists|k: int|
                0 <= k < secs.len() && marker_refusal(
                    contract_address@,
                    investment_name((#[trigger] secs[k]).name, contract_address@),
                ) is Some && (forall|j: int|
                    0 <= j < k ==> marker_refusal(contract_address@, investment_name(secs[j].name, contract_address@))
                        is None) && after.model() == instantiated(before.model(), msg, k) && (r matches Err(
                    ContractError::Std(StdError::GenericErr { msg: m }),
                ) && Some(m@) == marker_refusal(contract_address@, investment_name(secs[k].name, contract_address@)))
        }
    })
}

/// Records the contract's name and version, its configuration, and each
/// security with its full amount remaining, and creates the marker of each
/// security's investment token, owned by the contract.
pub fn handle(storage: &mut ContractStorage, contract_address: String, msg: InstantiateMsg) -> (r: Result<
    Response,
    ContractError,
>)
    requires
        old(storage).wf(),
    ensures
        final(storage).wf(),
        handle_outcome(*old(storage), *final(storage), r, contract_address, msg),
{
    let ghost s0 = storage.model();
    let ghost secs = securities_model(msg.securities@);
    storage.contract_version = Some(
        ContractVersion { contract: CONTRACT_NAME.to_owned(), version: CONTRACT_VERSION.to_owned() },
    );
    let st = State::new(msg.gp.clone(), msg.capital_denom.clone(), msg.settlement_time);
    state::set(storage, &st)?;
    let mut messages: Vec<ProvMsg> = Vec::new();
    let n = msg.securities.len();
    for i in 0..n
        invariant
            n == msg.securities@.len(),
            secs == securities_model(msg.securities@),
            s0 == old(storage).model(),
            old(storage).wf(),
            storage.wf(),
            storage.model() == instantiated(s0, msg, i as int),
            msgs_model(messages@) == investment_markers(contract_address@, secs.take(i as int)),
            forall|j: int|
                0 <= j < i ==> marker_refusal(contract_address@, investment_name((#[trigger] secs[j]).name, contract_address@))
                    is None,
    {
        proof {
            assert(secs.take(i + 1).drop_last() =~= secs.take(i as int));
            assert(secs.take(i + 1).last() == secs[i as int]);
            assert(secs[i as int] == msg.securities@[i as int]@);
        }
        let security = &msg.securities[i];
        let name = security_to_investment_name(&security.name, &contract_address);
        let mut markers = match new_active_marker(contract_address.clone(), &name, 0) {
            Ok(m) => m,
            Err(e) => {
                return Err(ContractError::Std(e));
            },
        };
        let ghost m0 = msgs_model(messages@);
        let ghost added = msgs_model(markers@);
        messages.append(&mut markers);
        assert(msgs_model(messages@) =~= m0 + added);
        securities::set(storage, security)?;
        remaining_securities::set(storage, security.name.clone(), security.amount)?;
        proof {
            assert(storage.model() =~= instantiated(s0, msg, i + 1));
        }
    }
    proof {
        assert(secs.take(n as int) =~= secs);
    }
    let mut response = Response::new();
    response.add_messages(messages);
    response.add_attribute("action", "init");
    assert(attrs_model(response.attributes@) =~= seq![("action"@, "init"@)]);
    Ok(response)
}

} // verus!
