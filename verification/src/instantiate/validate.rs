//! Checks on the message that sets up the contract.

use vstd::prelude::*;
use crate::common::error::ContractError;
use crate::common::msg::InstantiateMsg;
use crate::common::security::{Coin, SecurityModel, securities_model, security_equal};
use crate::util::validate::Validate;

verus! {

/// The securities form a valid offer: all of one kind, each with a
/// non-zero amount at least its minimum, and no two the same.
pub open spec fn securities_valid(s: Seq<SecurityModel>) -> bool {
    &&& forall|i: int| 0 <= i < s.len() ==> (#[trigger] s[i]).security_type == s[0].security_type
    &&& forall|i: int| 0 <= i < s.len() ==> (#[trigger] s[i]).minimum_amount <= s[i].amount
    &&& forall|i: int| 0 <= i < s.len() ==> (#[trigger] s[i]).amount != 0
    &&& forall|i: int, j: int| 0 <= i < j < s.len() ==> s[i] != s[j]
}

/// What checking an instantiation message answers.
pub open spec fn instantiate_validation(securities: Seq<SecurityModel>, capital_denom: Seq<char>) -> Result<
    (),
    ContractError,
> {
    if securities.len() == 0 {
        Err(ContractError::EmptySecurityList {})
    } else if !securities_valid(securities) {
        Err(ContractError::InvalidSecurityList {})
    } else if capital_denom.len() == 0 {
        Err(ContractError::InvalidCapitalDenom {})
    } else if !(forall|i: int| 0 <= i < securities.len() ==> (#[trigger] securities[i]).price_per_unit.denom == capital_denom) {
        Err(ContractError::InvalidSecurityPriceDenom {})
    } else {
        Ok(())
    }
}

/// Funds are refused with a message that expects none.
pub open spec fn no_funds(funds: Seq<Coin>) -> Result<(), ContractError> {
    if funds.len() == 0 {
        Ok(())
    } else {
        Err(ContractError::UnexpectedFunds {})
    }
}

impl Validate for InstantiateMsg {
    fn validate(&self) -> (r: Result<(), ContractError>)
        ensures
            r == instantiate_validation(securities_model(self.securities@), self.capital_denom@),
    {
        let ghost s = securities_model(self.securities@);
        let n = self.securities.len();
        if n == 0 {
            return Err(ContractError::EmptySecurityList {});
        }
        let mut valid = true;
        for i in 0..n
            invariant
                n == self.securities@.len(),
                n > 0,
                s == securities_model(self.securities@),
                valid ==> forall|j: int| 0 <= j < i ==> (#[trigger] s[j]).security_type == s[0].security_type,
                !valid ==> !securities_valid(s),
        {
            assert(s[i as int] == self.securities@[i as int]@);
            assert(s[0] == self.securities@[0]@);
            if self.securities[i].security_type != self.securities[0].security_type {
                valid = false;
            }
        }
        for i in 0..n
            invariant
                n == self.securities@.len(),
                s == securities_model(self.securities@),
                valid ==> forall|j: int| 0 <= j < n ==> (#[trigger] s[j]).security_type == s[0].security_type,
                valid ==> forall|j: int| 0 <= j < i ==> (#[trigger] s[j]).minimum_amount <= s[j].amount,
                !valid ==> !securities_valid(s),
        {
            assert(s[i as int] == self.securities@[i as int]@);
            if self.securities[i].minimum_amount > self.securities[i].amount {
                valid = false;
            }
        }
        for i in 0..n
            invariant
                n == self.securities@.len(),
                s == securities_model(self.securities@),
                valid ==> forall|j: int| 0 <= j < n ==> (#[trigger] s[j]).security_type == s[0].security_type,
                valid ==> forall|j: int| 0 <= j < n ==> (#[trigger] s[j]).minimum_amount <= s[j].amount,
                valid ==> forall|j: int| 0 <= j < i ==> (#[trigger] s[j]).amount != 0,
                !valid ==> !securities_valid(s),
        {
            assert(s[i as int] == self.securities@[i as int]@);
            if self.securities[i].amount == 0 {
                valid = false;
            }
        }
        for i in 0..n
            invariant
                n == self.securities@.len(),
                s == securities_model(self.securities@),
                valid ==> forall|j: int| 0 <= j < n ==> (#[trigger] s[j]).security_type == s[0].security_type,
                valid ==> forall|j: int| 0 <= j < n ==> (#[trigger] s[j]).minimum_amount <= s[j].amount,
                valid ==> forall|j: int| 0 <= j < n ==> (#[trigger] s[j]).amount != 0,
                valid ==> forall|a: int, b: int| 0 <= a < i && a < b < n ==> s[a] != s[b],
                !valid ==> !securities_valid(s),
        {
            for k in i + 1..n
                invariant
                    n == self.securities@.len(),
                    0 <= i < n,
                    s == securities_model(self.securities@),
                    valid ==> forall|j: int| 0 <= j < n ==> (#[trigger] s[j]).security_type == s[0].security_type,
                    valid ==> forall|j: int| 0 <= j < n ==> (#[trigger] s[j]).minimum_amount <= s[j].amount,
                    valid ==> forall|j: int| 0 <= j < n ==> (#[trigger] s[j]).amount != 0,
                    valid ==> forall|a: int, b: int| 0 <= a < i && a < b < n ==> s[a] != s[b],
                    valid ==> forall|b: int| i < b < k ==> s[i as int] != s[b],
                    !valid ==> !securities_valid(s),
            {
                assert(s[i as int] == self.securities@[i as int]@);
                assert(s[k as int] == self.securities@[k as int]@);
                if security_equal(&self.securities[i], &self.securities[k]) {
                    valid = false;
                }
            }
        }
        if !valid {
            return Err(ContractError::InvalidSecurityList {});
        }
        if self.capital_denom.as_str().is_empty() {
            return Err(ContractError::InvalidCapitalDenom {});
        }
        for i in 0..n
            invariant
                n == self.securities@.len(),
                s == securities_model(self.securities@),
                forall|j: int| 0 <= j < i ==> (#[trigger] s[j]).price_per_unit.denom == self.capital_denom@,
                s.len() > 0,
                securities_valid(s),
                self.capital_denom@.len() > 0,
        {
            assert(s[i as int] == self.securities@[i as int]@);
            if self.securities[i].price_per_unit.denom != self.capital_denom {
                assert(s[i as int].price_per_unit.denom != self.capital_denom@);
                return Err(ContractError::InvalidSecurityPriceDenom {});
            }
        }
        Ok(())
    }

    fn validate_msg_funds(&self, funds: &[Coin]) -> (r: Result<(), ContractError>)
        ensures
            r == no_funds(funds@),
    {
        if funds.len() != 0 {
            return Err(ContractError::UnexpectedFunds {});
        }
        Ok(())
    }
}

} // verus!
