//! The general partner adds addresses to the loan pool contributors'
//! whitelist.

use vstd::prelude::*;
use crate::common::error::ContractError;
use crate::common::messages::msgs_model;
use crate::common::response::{Response, attrs_model, events_model};
use crate::common::security::strings_model;
use crate::common::text::{join_strings, joined};
use crate::storage::ContractStorage;
use crate::storage::state;
use crate::storage::whitelist_contributors_store::{save_contributors, whitelist_model};

verus! {

/// The answer to a change of the whitelist: an action and the addresses,
/// joined by commas.
pub open spec fn whitelist_attributes(action: Seq<char>, key: Seq<char>, addresses: Seq<Seq<char>>) -> Seq<
    (Seq<char>, Seq<char>),
> {
    seq![("action"@, action), (key, joined(addresses, ","@))]
}

/// What handling the message leaves stored and answers.
pub open spec fn handle_outcome(before: ContractStorage, after: ContractStorage, r: Result<Response, ContractError>, sender: String, contributors: Vec<String>) -> bool {
    &&& match before.state {
        None => r matches Err(ContractError::Std(_)) && after == before,
        Some(st) => if sender@ != st.gp@ {
            r == Err::<Response, ContractError>(ContractError::Unauthorized {}) && after
                == before
        } else {
            &&& after.whitelist is Some
            &&& whitelist_model(after) == whitelist_model(before) + strings_model(contributors@)
            &&& after == (ContractStorage { whitelist: after.whitelist, ..before })
            &&& r matches Ok(resp) && attrs_model(resp.attributes@) == whitelist_attributes(
                "whitelist_added"@,
                "addresses_whitelisted"@,
                strings_model(contributors@),
            ) && msgs_model(resp.messages@).len() == 0 && events_model(resp.events@).len() == 0
                && resp.data is None
        },
    }
}

/// Adds addresses to the whitelist; only the general partner may.
pub fn handle(storage: &mut ContractStorage, sender: String, contributors: Vec<String>) -> (r: Result<
    Response,
    ContractError,
>)
    requires
        old(storage).wf(),
    ensures
        final(storage).wf(),
        handle_outcome(*old(storage), *final(storage), r, sender, contributors),
{
    let st = state::get(storage)?;
    if sender != st.gp {
        return Err(ContractError::Unauthorized {});
    }
    loan_pool_contributors(storage, contributors)
}

/// Adds addresses to the whitelist, and answers them joined by commas.
pub fn loan_pool_contributors(storage: &mut ContractStorage, new_contributors: Vec<String>) -> (r: Result<
    Response,
    ContractError,
>)
    ensures
        final(storage).whitelist is Some,
        whitelist_model(*final(storage)) == whitelist_model(*old(storage)) + strings_model(new_contributors@),
        *final(storage) == (ContractStorage { whitelist: final(storage).whitelist, ..*old(storage) }),
        r matches Ok(resp) && attrs_model(resp.attributes@) == whitelist_attributes(
            "whitelist_added"@,
            "addresses_whitelisted"@,
            strings_model(new_contributors@),
        ) && msgs_model(resp.messages@).len() == 0 && events_model(resp.events@).len() == 0 && resp.data is None,
{
    let contributors_str = join_strings(&new_contributors, ",");
    save_contributors(storage, new_contributors)?;
    let mut response = Response::new();
    response.add_attribute("action", "whitelist_added");
    response.add_attribute("addresses_whitelisted", contributors_str.as_str());
    Ok(response)
}

} // verus!
