//! The contract's basic configuration: its general partner, the denomination
//! of capital, and the settlement time.

use vstd::prelude::*;
use crate::common::error::{ContractError, not_found};
use crate::storage::ContractStorage;

verus! {

#[derive(Debug, PartialEq, Eq)]
pub struct State {
    pub gp: String,
    pub capital_denom: String,
    pub settlement_time: Option<u64>,
}

pub struct StateModel {
    pub gp: Seq<char>,
    pub capital_denom: Seq<char>,
    pub settlement_time: Option<u64>,
}

impl View for State {
    type V = StateModel;

    open spec fn view(&self) -> StateModel {
        StateModel {
            gp: self.gp@,
            capital_denom: self.capital_denom@,
            settlement_time: self.settlement_time,
        }
    }
}

impl Clone for State {
    fn clone(&self) -> (r: Self)
        ensures
            r@ == self@,
    {
        State {
            gp: self.gp.clone(),
            capital_denom: self.capital_denom.clone(),
            settlement_time: self.settlement_time,
        }
    }
}

impl State {
    pub fn new(gp: String, capital_denom: String, settlement_time: Option<u64>) -> (s: Self)
        ensures
            s.gp == gp,
            s.capital_denom == capital_denom,
            s.settlement_time == settlement_time,
    {
        State { gp, capital_denom, settlement_time }
    }
}

/// Reads the configuration.
pub fn get(storage: &ContractStorage) -> (r: Result<State, ContractError>)
    ensures
        match storage.state {
            Some(s) => r matches Ok(t) && t@ == s@,
            None => r matches Err(ContractError::Std(_)),
        },
{
    match &storage.state {
        Some(s) => Ok(s.clone()),
        None => Err(not_found("State")),
    }
}

/// Stores the configuration.
pub fn set(storage: &mut ContractStorage, state: &State) -> (r: Result<(), ContractError>)
    ensures
        r is Ok,
        final(storage).state matches Some(s) && s@ == state@,
        *final(storage) == (ContractStorage { state: final(storage).state, ..*old(storage) }),
{
    storage.state = Some(state.clone());
    Ok(())
}

/// Reads the settlement time.
pub fn get_settlement_time(storage: &ContractStorage) -> (r: Result<Option<u64>, ContractError>)
    ensures
        match storage.state {
            Some(s) => r == Ok::<Option<u64>, ContractError>(s.settlement_time),
            None => r matches Err(ContractError::Std(_)),
        },
{
    let state = get(storage)?;
    Ok(state.settlement_time)
}

/// Replaces the settlement time, keeping the rest of the configuration.
pub fn set_settlement_time(storage: &mut ContractStorage, new_settlement_time: Option<u64>) -> (r:
    Result<(), ContractError>)
    ensures
        match old(storage).state {
            Some(s) => {
                &&& r is Ok
                &&& final(storage).state matches Some(t) && t@ == (StateModel { settlement_time: new_settlement_time, ..s@ })
                &&& *final(storage) == (ContractStorage { state: final(storage).state, ..*old(storage) })
            },
            None => r matches Err(ContractError::Std(_)) && *final(storage) == *old(storage),
        },
{
    let mut state = get(storage)?;
    state.settlement_time = new_settlement_time;
    set(storage, &state)?;
    Ok(())
}

} // verus!
