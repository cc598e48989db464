//! The addresses allowed to contribute loan pools.

use vstd::prelude::*;
use crate::common::error::ContractError;
use crate::common::security::{clone_strings, strings_model};
use crate::storage::ContractStorage;

verus! {

/// The whitelist as read: the stored list, or an empty one.
pub open spec fn whitelist_model(storage: ContractStorage) -> Seq<Seq<char>> {
    match storage.whitelist {
        Some(v) => strings_model(v@),
        None => Seq::empty(),
    }
}

/// Appends contributors to the whitelist.
pub fn save_contributors(storage: &mut ContractStorage, new_contributors: Vec<String>) -> (r: Result<
    (),
    ContractError,
>)
    ensures
        r is Ok,
        final(storage).whitelist is Some,
        whitelist_model(*final(storage)) == whitelist_model(*old(storage)) + strings_model(new_contributors@),
        *final(storage) == (ContractStorage { whitelist: final(storage).whitelist, ..*old(storage) }),
{
    let mut contributors = get_whitelist_contributors(storage);
    let ghost before = strings_model(contributors@);
    let ghost added = strings_model(new_contributors@);
    let mut new_contributors = new_contributors;
    contributors.append(&mut new_contributors);
    assert(strings_model(contributors@) =~= before + added);
    storage.whitelist = Some(contributors);
    Ok(())
}

/// Whether an address is among those given.
pub fn contains_address(list: &Vec<String>, address: &String) -> (b: bool)
    ensures
        b == strings_model(list@).contains(address@),
{
    for i in 0..list.len()
        invariant
            forall|j: int| 0 <= j < i ==> #[trigger] list@[j]@ != address@,
    {
        if list[i] == *address {
            assert(strings_model(list@)[i as int] == address@);
            return true;
        }
    }
    proof {
        if strings_model(list@).contains(address@) {
            let j = choose|j: int| 0 <= j < strings_model(list@).len() && strings_model(list@)[j] == address@;
            assert(list@[j]@ == address@);
        }
    }
    false
}

/// Removes every listed contributor from the whitelist, keeping the order of
/// the others.
pub fn remove_contributors(storage: &mut ContractStorage, to_remove: Vec<String>) -> (r: Result<
    (),
    ContractError,
>)
    ensures
        r is Ok,
        final(storage).whitelist is Some,
        whitelist_model(*final(storage)) == whitelist_model(*old(storage)).filter(
            |a: Seq<char>| !strings_model(to_remove@).contains(a),
        ),
        *final(storage) == (ContractStorage { whitelist: final(storage).whitelist, ..*old(storage) }),
{
    let contributors = get_whitelist_contributors(storage);
    let ghost all = strings_model(contributors@);
    let ghost keep = |a: Seq<char>| !strings_model(to_remove@).contains(a);
    let mut kept: Vec<String> = Vec::new();
    for i in 0..contributors.len()
        invariant
            all == strings_model(contributors@),
            keep == (|a: Seq<char>| !strings_model(to_remove@).contains(a)),
            strings_model(kept@) == all.take(i as int).filter(keep),
    {
        proof {
            assert(all[i as int] == contributors@[i as int]@);
            crate::common::search::lemma_filter_take_step(all, keep, i as int);
        }
        if !contains_address(&to_remove, &contributors[i]) {
            let ghost before = kept@;
            kept.push(contributors[i].clone());
            assert(strings_model(kept@) =~= strings_model(before).push(all[i as int]));
        }
    }
    assert(all.take(contributors@.len() as int) =~= all);
    storage.whitelist = Some(kept);
    Ok(())
}

/// The whitelist; an empty list where none is stored.
pub fn get_whitelist_contributors(storage: &ContractStorage) -> (r: Vec<String>)
    ensures
        strings_model(r@) == whitelist_model(*storage),
{
    match &storage.whitelist {
        Some(v) => clone_strings(v),
        None => {
            let r: Vec<String> = Vec::new();
            assert(strings_model(r@) =~= Seq::<Seq<char>>::empty());
            r
        },
    }
}

} // verus!
