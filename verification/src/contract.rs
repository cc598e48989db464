//! The contract's entry points: set up, execute and migrate.

use vstd::prelude::*;
use crate::common::error::ContractError;
use crate::common::msg::{ExecuteMsg, InstantiateMsg, MigrateMsg};
use crate::common::response::Response;
use crate::common::security::{Coin, securities_model};
use crate::execute::router::{route, route_admits, route_outcome};
use crate::instantiate::validate::{instantiate_validation, no_funds};
use crate::storage::ContractStorage;
use crate::util::provenance_utilities::MarkerLookup;
use crate::util::validate::Validate;

verus! {

/// What setting up the contract leaves stored and answers: the refusal of
/// the first check that fails, or what the set-up handler does.
pub open spec fn instantiate_outcome(
    before: ContractStorage,
    after: ContractStorage,
    r: Result<Response, ContractError>,
    contract_address: String,
    funds: Seq<Coin>,
    msg: InstantiateMsg,
) -> bool {
    &&& instantiate_validation(securities_model(msg.securities@), msg.capital_denom@) matches Err(e) ==> r == Err::<
        Response,
        ContractError,
    >(e) && after == before
    &&& instantiate_validation(securities_model(msg.securities@), msg.capital_denom@) is Ok ==> (no_funds(funds) matches Err(
        e,
    ) ==> r == Err::<Response, ContractError>(e) && after == before)
    &&& instantiate_validation(securities_model(msg.securities@), msg.capital_denom@) is Ok && no_funds(funds) is Ok
        ==> crate::instantiate::handle_outcome(before, after, r, contract_address, msg)
}

/// Sets up the contract once the message and the funds sent with it pass
/// their checks; no funds may be sent.
pub fn instantiate(storage: &mut ContractStorage, contract_address: String, funds: &[Coin], msg: InstantiateMsg) -> (r:
    Result<Response, ContractError>)
    requires
        old(storage).wf(),
    ensures
        final(storage).wf(),
        instantiate_outcome(*old(storage), *final(storage), r, contract_address, funds@, msg),
{
    msg.validate()?;
    msg.validate_msg_funds(funds)?;
    crate::instantiate::handle(storage, contract_address, msg)
}

/// Executes a message: see `route`.
pub fn execute(
    storage: &mut ContractStorage,
    now: u64,
    contract_address: String,
    sender: String,
    msg: ExecuteMsg,
    lookups: Vec<MarkerLookup>,
) -> (r: Result<Response, ContractError>)
    requires
        old(storage).wf(),
        route_admits(*old(storage), now, contract_address, sender, msg, lookups),
    ensures
        final(storage).wf(),
        route_outcome(*old(storage), *final(storage), r, now, contract_address, sender, msg, lookups),
{
    route(storage, now, contract_address, sender, msg, lookups)
}

/// The migration entry point. It does nothing: a migration leaves the
/// stored state as it was and answers nothing.
pub fn migrate(storage: &mut ContractStorage, msg: MigrateMsg)
    ensures
        *final(storage) == *old(storage),
{
}

} // verus!
