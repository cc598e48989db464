//! Whether a marker qualifies to be added to, or removed from, the loan
//! pools: its owner and the contract hold the rights asked for, it is
//! active, and it holds its own supply.

use vstd::prelude::*;
use crate::common::amount::{parse_uint128, unsigned_value};
use crate::common::error::{ContractError, StdError};
use crate::common::messages::{MARKER_STATUS_ACTIVE, grants_model};
use crate::common::text::{concat, i32_text, decimal_text};
use crate::util::provenance_utilities::{
    Access, Balance, MarkerAccount, access_list_debug, access_list_text, coins_of_denom,
    get_single_marker_coin_holding, has_permissions, marker_address_of, marker_has_admin, marker_has_permissions,
    holding_error_text, all_coins, held_balances,
};

verus! {

/// An `i32` in decimal notation.
pub open spec fn signed_text(n: i32) -> Seq<char> {
    if n < 0 {
        seq!['-'] + decimal_text((-n) as nat)
    } else {
        decimal_text(n as nat)
    }
}

/// The refusal for a marker that does not qualify.
pub open spec fn invalid_marker(e: ContractError, message: Seq<char>) -> bool {
    e matches ContractError::InvalidMarker { message: m } && m@ == message
}

/// The checks on the marker itself, before its holdings are read, and the
/// refusal text of the first that fails.
pub open spec fn marker_refusal(
    marker: MarkerAccount,
    owner: Seq<char>,
    contract: Seq<char>,
    expected: Seq<Access>,
) -> Option<Seq<char>> {
    let grants = grants_model(marker.access_control@);
    let denom = marker.denom@;
    if !has_permissions(grants, owner, seq![Access::Admin]) {
        Some("expected sender ["@ + owner + "] to have admin privileges on marker ["@ + denom + "]"@)
    } else if !has_permissions(grants, contract, expected) {
        Some("expected this contract ["@ + contract + "] to have privileges "@ + access_list_text(expected)
            + " on marker ["@ + denom + "]"@)
    } else if marker.status != 3 {
        Some("expected marker ["@ + denom + "] to be active, but was in status ["@ + signed_text(marker.status)
            + "]"@)
    } else {
        None
    }
}

/// The checks on the amount the marker holds of its own denomination, and
/// the refusal text of the first that fails.
pub open spec fn supply_refusal(marker: MarkerAccount, held_text: Seq<char>, held: u128, supply: u128, bank_supply: u128) -> Option<
    Seq<char>,
> {
    let denom = marker.denom@;
    if held == 0 {
        Some("expected marker ["@ + denom + "] to hold at least one of its supply of denom, but it had ["@
            + held_text + "]"@)
    } else if marker.supply_fixed {
        if held > supply {
            Some("expected marker ["@ + denom + "] to be holding all the shares with supply ["@ + held_text
                + "], found ["@ + marker.supply@ + "]"@)
        } else {
            None
        }
    } else if bank_supply > held {
        Some("expected that marker, ["@ + denom + "] to be holding all the shares with supply, ["@ + held_text
            + "]"@)
    } else {
        None
    }
}

/// A marker qualifies: every check passes.
pub open spec fn marker_valid(
    marker: MarkerAccount,
    holdings: Result<Vec<Balance>, StdError>,
    owner: Seq<char>,
    contract: Seq<char>,
    expected: Seq<Access>,
    bank_supply: u128,
) -> bool {
    let found = coins_of_denom(held_balances(holdings), marker.denom@);
    &&& marker_refusal(marker, owner, contract, expected) is None
    &&& holdings is Ok
    &&& marker_address_of(marker) is Some
    &&& found.len() == 1
    &&& unsigned_value(found[0].1) is Some
    &&& unsigned_value(marker.supply@) is Some
    &&& supply_refusal(
        marker,
        found[0].1,
        unsigned_value(found[0].1)->Some_0,
        unsigned_value(marker.supply@)->Some_0,
        bank_supply,
    ) is None
}

/// What checking a marker answers: the refusal of the first check that
/// fails, in order.
pub open spec fn validation_outcome(
    marker: MarkerAccount,
    holdings: Result<Vec<Balance>, StdError>,
    owner: Seq<char>,
    contract: Seq<char>,
    expected: Seq<Access>,
    bank_supply: u128,
    r: Result<(), ContractError>,
) -> bool {
    match marker_refusal(marker, owner, contract, expected) {
        Some(text) => r is Err && invalid_marker(r->Err_0, text),
        None => match holdings {
            Err(q) => r == Err::<(), ContractError>(ContractError::Std(q)),
            Ok(h) => match marker_address_of(marker) {
                None => r is Err && invalid_marker(r->Err_0, "Base account is missing"@),
                Some(address) => {
                    let found = coins_of_denom(h@, marker.denom@);
                    if found.len() != 1 {
                        r is Err && invalid_marker(r->Err_0, holding_error_text(address, marker.denom@, all_coins(h@)))
                    } else {
                        let held_text = found[0].1;
                        match (unsigned_value(held_text), unsigned_value(marker.supply@)) {
                            (None, _) => r matches Err(ContractError::Std(StdError::GenericErr { msg }))
                                && "Parsing u128: "@.is_prefix_of(msg@),
                            (Some(_), None) => r matches Err(ContractError::Std(StdError::GenericErr { msg }))
                                && "Parsing u128: "@.is_prefix_of(msg@),
                            (Some(held), Some(supply)) => match supply_refusal(
                                marker,
                                held_text,
                                held,
                                supply,
                                bank_supply,
                            ) {
                                Some(text) => r is Err && invalid_marker(r->Err_0, text),
                                None => r is Ok,
                            },
                        }
                    }
                },
            },
        },
    }
}

/// A refusal because a marker does not qualify, with the reason.
pub fn get_contract_error(msg: String) -> (r: Result<(), ContractError>)
    ensures
        r == Err::<(), ContractError>(ContractError::InvalidMarker { message: msg }),
{
    Err(ContractError::InvalidMarker { message: msg })
}

/// Checks that a marker qualifies for the loan pools: the original owner
/// has admin rights on it, the contract holds the expected rights, it is
/// active, and it holds exactly one entry of its own denomination (among
/// the holdings the chain reported for it) with a non-zero amount that
/// covers the supply: the marker's own supply when fixed, else the bank's.
pub fn validate_marker_for_loan_pool_add_remove(
    marker: &MarkerAccount,
    holdings: &Result<Vec<Balance>, StdError>,
    original_owner_address: &String,
    contract_address: &String,
    expected_contract_permissions: &[Access],
    bank_supply: u128,
) -> (r: Result<(), ContractError>)
    ensures
        validation_outcome(
            *marker,
            *holdings,
            original_owner_address@,
            contract_address@,
            expected_contract_permissions@,
            bank_supply,
            r,
        ),
        r is Ok <==> marker_valid(
            *marker,
            *holdings,
            original_owner_address@,
            contract_address@,
            expected_contract_permissions@,
            bank_supply,
        ),
{
    if !marker_has_admin(marker, original_owner_address) {
        let a = concat("expected sender [", original_owner_address.as_str());
        let b = concat(a.as_str(), "] to have admin privileges on marker [");
        let c = concat(b.as_str(), marker.denom.as_str());
        let message = concat(c.as_str(), "]");
        return get_contract_error(message);
    }
    if !marker_has_permissions(marker, contract_address, expected_contract_permissions) {
        let a = concat("expected this contract [", contract_address.as_str());
        let b = concat(a.as_str(), "] to have privileges ");
        let rights = access_list_debug(expected_contract_permissions);
        let c = concat(b.as_str(), rights.as_str());
        let d = concat(c.as_str(), " on marker [");
        let e = concat(d.as_str(), marker.denom.as_str());
        let message = concat(e.as_str(), "]");
        return get_contract_error(message);
    }
    if marker.status != MARKER_STATUS_ACTIVE {
        let a = concat("expected marker [", marker.denom.as_str());
        let b = concat(a.as_str(), "] to be active, but was in status [");
        let status = i32_text(marker.status);
        let c = concat(b.as_str(), status.as_str());
        let message = concat(c.as_str(), "]");
        return get_contract_error(message);
    }
    let marker_coin = get_single_marker_coin_holding(holdings, marker)?;
    let coin_amount = match parse_uint128(marker_coin.amount.as_str()) {
        Ok(v) => v,
        Err(e) => {
            return Err(ContractError::Std(e));
        },
    };
    let marker_supply = match parse_uint128(marker.supply.as_str()) {
        Ok(v) => v,
        Err(e) => {
            return Err(ContractError::Std(e));
        },
    };
    if coin_amount == 0 {
        let a = concat("expected marker [", marker.denom.as_str());
        let b = concat(a.as_str(), "] to hold at least one of its supply of denom, but it had [");
        let c = concat(b.as_str(), marker_coin.amount.as_str());
        let message = concat(c.as_str(), "]");
        return get_contract_error(message);
    }
    if marker.supply_fixed {
        if coin_amount > marker_supply {
            let a = concat("expected marker [", marker.denom.as_str());
            let b = concat(a.as_str(), "] to be holding all the shares with supply [");
            let c = concat(b.as_str(), marker_coin.amount.as_str());
            let d = concat(c.as_str(), "], found [");
            let e = concat(d.as_str(), marker.supply.as_str());
            let message = concat(e.as_str(), "]");
            return get_contract_error(message);
        }
    } else {
        if bank_supply > coin_amount {
            let a = concat("expected that marker, [", marker.denom.as_str());
            let b = concat(a.as_str(), "] to be holding all the shares with supply, [");
            let c = concat(b.as_str(), marker_coin.amount.as_str());
            let message = concat(c.as_str(), "]");
            return get_contract_error(message);
        }
    }
    Ok(())
}

} // verus!
