//! Amounts written as decimal text, as the chain reports balances and
//! supplies.

use vstd::prelude::*;
use crate::common::error::StdError;

verus! {

/// Every character is a decimal digit.
pub open spec fn all_digits(s: Seq<char>) -> bool {
    forall|i: int| 0 <= i < s.len() ==> '0' <= #[trigger] s[i] <= '9'
}

/// The number that decimal digits stand for.
pub open spec fn digits_value(s: Seq<char>) -> nat
    decreases s.len(),
{
    if s.len() == 0 {
        0
    } else {
        digits_value(s.drop_last()) * 10 + (s.last() as int - '0' as int) as nat
    }
}

/// The unsigned number a text stands for: an optional `+`, then at least
/// one decimal digit, with a value that fits in a `u128`.
pub open spec fn unsigned_value(text: Seq<char>) -> Option<u128> {
    let d = if text.len() > 0 && text[0] == '+' {
        text.drop_first()
    } else {
        text
    };
    if d.len() > 0 && all_digits(d) && digits_value(d) <= u128::MAX {
        Some(digits_value(d) as u128)
    } else {
        None
    }
}

/// `cosmwasm_std::Uint128::from_str`, which reads the text as `str::parse`
/// reads a `u128` and reports a failure as a generic error whose message
/// starts with `Parsing u128: `; what follows that prefix is not stated.
#[verifier::external_body]
pub(crate) fn parse_uint128(text: &str) -> (r: Result<u128, StdError>)
    ensures
        match unsigned_value(text@) {
            Some(v) => r == Ok::<u128, StdError>(v),
            None => r matches Err(StdError::GenericErr { msg }) && "Parsing u128: "@.is_prefix_of(msg@),
        },
{
    match <cosmwasm_std::Uint128 as std::str::FromStr>::from_str(text) {
        Ok(v) => Ok(v.u128()),
        Err(cosmwasm_std::StdError::GenericErr { msg, .. }) => Err(StdError::GenericErr { msg }),
        Err(e) => Err(StdError::GenericErr { msg: e.to_string() }),
    }
}

} // verus!
