//! The securities configured at instantiation, by name.

use vstd::prelude::*;
use crate::common::error::{ContractError, not_found};
use crate::common::security::{Security, strings_model};
use crate::storage::ContractStorage;
use crate::storage::keyed_map::entries_keys;

verus! {

/// The names of the securities in ascending order.
pub fn get_security_types(storage: &ContractStorage) -> (r: Vec<String>)
    requires
        storage.wf(),
    ensures
        strings_model(r@) == entries_keys(storage.securities@),
{
    let mut r: Vec<String> = Vec::new();
    let n = storage.securities.len();
    for i in 0..n
        invariant
            n == storage.securities@.len(),
            r@.len() == i,
            forall|j: int| 0 <= j < i ==> #[trigger] r@[j]@ == storage.securities@[j].0,
    {
        r.push(storage.securities.key_at(i).clone());
    }
    assert(strings_model(r@) =~= entries_keys(storage.securities@));
    r
}

/// Reads a security by name.
pub fn get(storage: &ContractStorage, security_name: String) -> (r: Result<Security, ContractError>)
    requires
        storage.wf(),
    ensures
        storage.securities_model().contains_key(security_name@) ==> (r matches Ok(s) && s@
            == storage.securities_model()[security_name@]),
        !storage.securities_model().contains_key(security_name@) ==> r matches Err(ContractError::Std(_)),
{
    match storage.securities.get(&security_name) {
        Some(s) => Ok(s.clone()),
        None => Err(not_found("Security")),
    }
}

/// Stores a security under its name.
pub fn set(storage: &mut ContractStorage, security: &Security) -> (r: Result<(), ContractError>)
    requires
        old(storage).wf(),
    ensures
        r is Ok,
        final(storage).wf(),
        final(storage).securities_model() == old(storage).securities_model().insert(security.name@, security@),
        *final(storage) == (ContractStorage { securities: final(storage).securities, ..*old(storage) }),
{
    storage.securities.insert(security.name.clone(), security.clone());
    assert(storage.securities_model() =~= old(storage).securities_model().insert(security.name@, security@));
    Ok(())
}

} // verus!
