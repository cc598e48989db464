//! The general partner takes addresses off the loan pool contributors'
//! whitelist.

use vstd::prelude::*;
use crate::common::error::ContractError;
use crate::common::messages::msgs_model;
use crate::common::response::{Response, attrs_model, events_model};
use crate::common::security::strings_model;
use crate::common::text::join_strings;
use crate::execute::settlement::whitelist_loanpool_contributors::whitelist_attributes;
use crate::storage::ContractStorage;
use crate::storage::state;
use crate::storage::whitelist_contributors_store::{remove_contributors, whitelist_model};

verus! {

/// What handling the message leaves stored and answers.
pub open spec fn handle_outcome(before: ContractStorage, after: ContractStorage, r: Result<Response, ContractError>, sender: String, contributors: Vec<String>) -> bool {
    &&& match before.state {
        None => r matches Err(ContractError::Std(_)) && after == before,
        Some(st) => if sender@ != st.gp@ {
            r == Err::<Response, ContractError>(ContractError::Unauthorized {}) && after
                == before
        } else {
            &&& after.whitelist is Some
            &&& whitelist_model(after) == whitelist_model(before).filter(
                |a: Seq<char>| !strings_model(contributors@).contains(a),
            )
            &&& after == (ContractStorage { whitelist: after.whitelist, ..before })
            &&& r matches Ok(resp) && attrs_model(resp.attributes@) == whitelist_attributes(
                "whitelist_removed"@,
                "whitelist_address_removed"@,
                strings_model(contributors@),
            ) && msgs_model(resp.messages@).len() == 0 && events_model(resp.events@).len() == 0
                && resp.data is None
        },
    }
}

/// Takes addresses off the whitelist; only the general partner may.
pub fn handle(storage: &mut ContractStorage, sender: String, contributors: Vec<String>) -> (r: Result<
    Response,
    ContractError,
>)
    requires
        old(storage).wf(),
    ensures
        final(storage).wf(),
        handle_outcome(*old(storage), *final(storage), r, sender, contributors),
{
    let st = state::get(storage)?;
    if sender != st.gp {
        return Err(ContractError::Unauthorized {});
    }
    remove_loan_pool_contributors(storage, contributors)
}

/// Takes addresses off the whitelist, and answers them joined by commas.
pub fn remove_loan_pool_contributors(storage: &mut ContractStorage, addresses: Vec<String>) -> (r: Result<
    Response,
    ContractError,
>)
    ensures
        final(storage).whitelist is Some,
        whitelist_model(*final(storage)) == whitelist_model(*old(storage)).filter(
            |a: Seq<char>| !strings_model(addresses@).contains(a),
        ),
        *final(storage) == (ContractStorage { whitelist: final(storage).whitelist, ..*old(storage) }),
        r matches Ok(resp) && attrs_model(resp.attributes@) == whitelist_attributes(
            "whitelist_removed"@,
            "whitelist_address_removed"@,
            strings_model(addresses@),
        ) && msgs_model(resp.messages@).len() == 0 && events_model(resp.events@).len() == 0 && resp.data is None,
{
    let contributors_str = join_strings(&addresses, ",");
    remove_contributors(storage, addresses)?;
    let mut response = Response::new();
    response.add_attribute("action", "whitelist_removed");
    response.add_attribute("whitelist_address_removed", contributors_str.as_str());
    Ok(response)
}

} // verus!
