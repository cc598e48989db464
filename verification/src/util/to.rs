//! Names derived from other names.

use vstd::prelude::*;
use crate::common::text::concat;

verus! {

/// The name of the investment token of a security: the contract's address,
/// a dot, and the security's name.
pub open spec fn investment_name(security_name: Seq<char>, contract: Seq<char>) -> Seq<char> {
    contract + seq!['.'] + security_name
}

/// The investment token name for a security of this contract.
pub fn security_to_investment_name(security_name: &String, contract: &String) -> (r: String)
    ensures
        r@ == investment_name(security_name@, contract@),
{
    let dotted = concat(contract.as_str(), ".");
    let r = concat(dotted.as_str(), security_name.as_str());
    proof {
        reveal_strlit(".");
    }
    r
}

} // verus!
