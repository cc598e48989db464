//! How much of each security is still unclaimed by accepted commitments.

use vstd::prelude::*;
use crate::common::error::{ContractError, not_found};
use crate::storage::ContractStorage;

verus! {

/// Reads the remaining amount of a security.
pub fn get(storage: &ContractStorage, security_name: String) -> (r: Result<u128, ContractError>)
    requires
        storage.wf(),
    ensures
        storage.remaining_model().contains_key(security_name@) ==> r == Ok::<u128, ContractError>(
            storage.remaining_model()[security_name@],
        ),
        !storage.remaining_model().contains_key(security_name@) ==> r matches Err(ContractError::Std(_)),
{
    match storage.remaining_securities.get(&security_name) {
        Some(v) => Ok(*v),
        None => Err(not_found("u128")),
    }
}

/// Stores the remaining amount of a security.
pub fn set(storage: &mut ContractStorage, security_name: String, remaining: u128) -> (r: Result<
    (),
    ContractError,
>)
    requires
        old(storage).wf(),
    ensures
        r is Ok,
        final(storage).wf(),
        final(storage).remaining_model() == old(storage).remaining_model().insert(security_name@, remaining),
        *final(storage) == (ContractStorage {
            remaining_securities: final(storage).remaining_securities,
            ..*old(storage)
        }),
{
    storage.remaining_securities.insert(security_name, remaining);
    Ok(())
}

/// Whether at least the given amount of a security remains; `false` for a
/// security that is not stored.
pub fn has_amount(storage: &ContractStorage, security_name: String, amount: u128) -> (r: Result<
    bool,
    ContractError,
>)
    requires
        storage.wf(),
    ensures
        r == Ok::<bool, ContractError>(
            storage.remaining_model().contains_key(security_name@) && amount
                <= storage.remaining_model()[security_name@],
        ),
{
    match storage.remaining_securities.get(&security_name) {
        None => Ok(false),
        Some(v) => Ok(v.checked_sub(amount).is_some()),
    }
}

/// Takes an amount off the remainder of a security. Answers `false` and
/// changes nothing when the security is not stored or less than the amount
/// remains.
pub fn subtract(storage: &mut ContractStorage, security_name: String, amount: u128) -> (r: Result<
    bool,
    ContractError,
>)
    requires
        old(storage).wf(),
    ensures
        final(storage).wf(),
        *final(storage) == (ContractStorage {
            remaining_securities: final(storage).remaining_securities,
            ..*old(storage)
        }),
        ({
            let m = old(storage).remaining_model();
            let k = security_name@;
            if m.contains_key(k) && amount <= m[k] {
                r == Ok::<bool, ContractError>(true) && final(storage).remaining_model() == m.insert(
                    k,
                    (m[k] - amount) as u128,
                )
            } else {
                r == Ok::<bool, ContractError>(false) && final(storage).remaining_model() == m
            }
        }),
{
    let current = match storage.remaining_securities.get(&security_name) {
        None => return Ok(false),
        Some(v) => *v,
    };
    match current.checked_sub(amount) {
        Some(new_value) => {
            storage.remaining_securities.insert(security_name, new_value);
            Ok(true)
        },
        None => Ok(false),
    }
}

/// Puts an amount back on the remainder of a security. Answers `false` and
/// changes nothing when the security is not stored or the sum would not fit.
pub fn add(storage: &mut ContractStorage, security_name: String, amount: u128) -> (r: Result<
    bool,
    ContractError,
>)
    requires
        old(storage).wf(),
    ensures
        final(storage).wf(),
        *final(storage) == (ContractStorage {
            remaining_securities: final(storage).remaining_securities,
            ..*old(storage)
        }),
        ({
            let m = old(storage).remaining_model();
            let k = security_name@;
            if m.contains_key(k) && m[k] + amount <= u128::MAX {
                r == Ok::<bool, ContractError>(true) && final(storage).remaining_model() == m.insert(
                    k,
                    (m[k] + amount) as u128,
                )
            } else {
                r == Ok::<bool, ContractError>(false) && final(storage).remaining_model() == m
            }
        }),
{
    let current = match storage.remaining_securities.get(&security_name) {
        None => return Ok(false),
        Some(v) => *v,
    };
    match current.checked_add(amount) {
        Some(new_value) => {
            storage.remaining_securities.insert(security_name, new_value);
            Ok(true)
        },
        None => Ok(false),
    }
}

} // verus!
