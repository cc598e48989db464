//! The securities asked for by name.

use vstd::prelude::*;
use crate::common::error::ContractError;
use crate::common::msg::QuerySecuritizationsResponse;
use crate::common::security::Security;
use crate::storage::{ContractStorage, securities};

verus! {

/// The securities named, in the order asked; an unknown name is an error.
pub fn handle(storage: &ContractStorage, security_names: Vec<String>) -> (r: Result<
    QuerySecuritizationsResponse,
    ContractError,
>)
    requires
        storage.wf(),
    ensures
        (forall|k: int| 0 <= k < security_names@.len() ==> storage.securities_model().contains_key(
            (#[trigger] security_names@[k])@,
        )) ==> (r matches Ok(resp) && resp.securities@.map_values(|s: Security| s@) == security_names@.map_values(
            |n: String| storage.securities_model()[n@],
        )),
        !(forall|k: int| 0 <= k < security_names@.len() ==> storage.securities_model().contains_key(
            (#[trigger] security_names@[k])@,
        )) ==> r matches Err(ContractError::Std(_)),
{
    let mut found: Vec<Security> = Vec::new();
    for i in 0..security_names.len()
        invariant
            storage.wf(),
            found@.len() == i,
            forall|k: int| 0 <= k < i ==> storage.securities_model().contains_key((#[trigger] security_names@[k])@),
            forall|k: int| 0 <= k < i ==> (#[trigger] found@[k])@ == storage.securities_model()[security_names@[k]@],
    {
        let security = securities::get(storage, security_names[i].clone())?;
        found.push(security);
    }
    proof {
        assert(found@.map_values(|s: Security| s@) =~= security_names@.map_values(
            |n: String| storage.securities_model()[n@],
        ));
    }
    Ok(QuerySecuritizationsResponse { securities: found })
}

} // verus!
