//! Markers on the chain: their accounts as the contract reads them, checks
//! on their rights, and the messages that act on them.

use vstd::prelude::*;
use crate::common::collateral::{MarkerAccess, access_number};
use crate::common::error::{ContractError, StdError};
use crate::common::messages::{
    AccessGrant, AccessGrantModel, ProvMsg, ProvMsgModel, grants_model, ACCESS_ADMIN, ACCESS_BURN, ACCESS_DELETE,
    ACCESS_DEPOSIT, ACCESS_FORCE_TRANSFER, ACCESS_MINT, ACCESS_TRANSFER, ACCESS_UNSPECIFIED, ACCESS_WITHDRAW,
};
use crate::common::security::{Coin, CoinModel, strings_model};
use crate::common::text::{concat, join_strings, joined};

verus! {

pub const NHASH: &'static str = "nhash";

/// A right on a marker, as the chain names it.
#[derive(Debug, PartialEq, Eq, Structural, Clone, Copy)]
pub enum Access {
    Unspecified,
    Mint,
    Burn,
    Deposit,
    Withdraw,
    Delete,
    Admin,
    Transfer,
    ForceTransfer,
}

/// The chain's number for a right.
pub open spec fn access_value(a: Access) -> i32 {
    match a {
        Access::Unspecified => ACCESS_UNSPECIFIED,
        Access::Mint => ACCESS_MINT,
        Access::Burn => ACCESS_BURN,
        Access::Deposit => ACCESS_DEPOSIT,
        Access::Withdraw => ACCESS_WITHDRAW,
        Access::Delete => ACCESS_DELETE,
        Access::Admin => ACCESS_ADMIN,
        Access::Transfer => ACCESS_TRANSFER,
        Access::ForceTransfer => ACCESS_FORCE_TRANSFER,
    }
}

/// Conversion of a right to the chain's number for it.
pub trait AccessExt {
    fn to_i32(&self) -> i32;
}

impl AccessExt for Access {
    fn to_i32(&self) -> (r: i32)
        ensures
            r == access_value(*self),
    {
        match self {
            Access::Unspecified => ACCESS_UNSPECIFIED,
            Access::Mint => ACCESS_MINT,
            Access::Burn => ACCESS_BURN,
            Access::Deposit => ACCESS_DEPOSIT,
            Access::Withdraw => ACCESS_WITHDRAW,
            Access::Delete => ACCESS_DELETE,
            Access::Admin => ACCESS_ADMIN,
            Access::Transfer => ACCESS_TRANSFER,
            Access::ForceTransfer => ACCESS_FORCE_TRANSFER,
        }
    }
}

impl Access {
    /// The stored form of a right.
    pub fn to_marker_access(self) -> (m: MarkerAccess)
        ensures
            access_number(m) == access_value(self),
    {
        match self {
            Access::Unspecified => MarkerAccess::Unspecified,
            Access::Mint => MarkerAccess::Mint,
            Access::Burn => MarkerAccess::Burn,
            Access::Deposit => MarkerAccess::Deposit,
            Access::Withdraw => MarkerAccess::Withdraw,
            Access::Delete => MarkerAccess::Delete,
            Access::Admin => MarkerAccess::Admin,
            Access::Transfer => MarkerAccess::Transfer,
            Access::ForceTransfer => MarkerAccess::ForceTransfer,
        }
    }

    /// The chain form of a stored right.
    pub fn from_marker_access(m: MarkerAccess) -> (a: Access)
        ensures
            access_value(a) == access_number(m),
    {
        match m {
            MarkerAccess::Unspecified => Access::Unspecified,
            MarkerAccess::Mint => Access::Mint,
            MarkerAccess::Burn => Access::Burn,
            MarkerAccess::Deposit => Access::Deposit,
            MarkerAccess::Withdraw => Access::Withdraw,
            MarkerAccess::Delete => Access::Delete,
            MarkerAccess::Admin => Access::Admin,
            MarkerAccess::Transfer => Access::Transfer,
            MarkerAccess::ForceTransfer => Access::ForceTransfer,
        }
    }
}

/// The debug name of a right.
pub open spec fn access_name(a: Access) -> Seq<char> {
    match a {
        Access::Unspecified => "Unspecified"@,
        Access::Mint => "Mint"@,
        Access::Burn => "Burn"@,
        Access::Deposit => "Deposit"@,
        Access::Withdraw => "Withdraw"@,
        Access::Delete => "Delete"@,
        Access::Admin => "Admin"@,
        Access::Transfer => "Transfer"@,
        Access::ForceTransfer => "ForceTransfer"@,
    }
}

fn access_name_str(a: Access) -> (s: &'static str)
    ensures
        s@ == access_name(a),
{
    match a {
        Access::Unspecified => "Unspecified",
        Access::Mint => "Mint",
        Access::Burn => "Burn",
        Access::Deposit => "Deposit",
        Access::Withdraw => "Withdraw",
        Access::Delete => "Delete",
        Access::Admin => "Admin",
        Access::Transfer => "Transfer",
        Access::ForceTransfer => "ForceTransfer",
    }
}

/// A list of rights as debug output prints it: `[Admin, Withdraw]`.
pub open spec fn access_list_text(list: Seq<Access>) -> Seq<char> {
    "["@ + joined(list.map_values(|a: Access| access_name(a)), ", "@) + "]"@
}

/// Prints a list of rights as debug output does.
pub fn access_list_debug(list: &[Access]) -> (s: String)
    ensures
        s@ == access_list_text(list@),
{
    let mut names: Vec<String> = Vec::new();
    for i in 0..list.len()
        invariant
            names@.len() == i,
            forall|j: int| 0 <= j < i ==> #[trigger] names@[j]@ == access_name(list@[j]),
    {
        names.push(access_name_str(list[i]).to_owned());
    }
    assert(strings_model(names@) =~= list@.map_values(|a: Access| access_name(a)));
    let inner = join_strings(&names, ", ");
    let open = concat("[", inner.as_str());
    concat(open.as_str(), "]")
}

/// A coin as the chain's marker module reports it: the amount is text.
#[derive(Debug, PartialEq, Eq)]
pub struct ProtoCoin {
    pub denom: String,
    pub amount: String,
}

impl View for ProtoCoin {
    type V = (Seq<char>, Seq<char>);

    open spec fn view(&self) -> (Seq<char>, Seq<char>) {
        (self.denom@, self.amount@)
    }
}

impl Clone for ProtoCoin {
    fn clone(&self) -> (r: Self)
        ensures
            r@ == self@,
    {
        ProtoCoin { denom: self.denom.clone(), amount: self.amount.clone() }
    }
}

/// The coins an account holds.
#[derive(Debug, PartialEq, Eq)]
pub struct Balance {
    pub address: String,
    pub coins: Vec<ProtoCoin>,
}

/// The account part of a marker.
#[derive(Debug, PartialEq, Eq)]
pub struct BaseAccount {
    pub address: String,
    pub account_number: u64,
    pub sequence: u64,
}

/// A marker as the chain reports it.
#[derive(Debug, PartialEq, Eq)]
pub struct MarkerAccount {
    pub base_account: Option<BaseAccount>,
    pub manager: String,
    pub access_control: Vec<AccessGrant>,
    pub status: i32,
    pub denom: String,
    pub supply: String,
    pub marker_type: i32,
    pub supply_fixed: bool,
    pub allow_governance_control: bool,
    pub allow_forced_transfer: bool,
    pub required_attributes: Vec<String>,
}

/// A marker's account with the coins it holds.
pub struct Marker {
    pub marker_account: MarkerAccount,
    pub coins: Vec<ProtoCoin>,
}

/// Reads the chain's answer to a marker query: `None` where no marker is
/// found under the id, `Some(None)` where the answer does not decode as a
/// marker account.
pub fn get_marker(found: Option<Option<MarkerAccount>>) -> (r: Result<MarkerAccount, StdError>)
    ensures
        match found {
            None => r matches Err(StdError::GenericErr { msg }) && msg@ == "no marker found for id"@,
            Some(None) => r matches Err(StdError::GenericErr { msg }) && msg@ == "unable to type-cast marker account"@,
            Some(Some(a)) => r == Ok::<MarkerAccount, StdError>(a),
        },
{
    match found {
        None => Err(StdError::GenericErr { msg: "no marker found for id".to_owned() }),
        Some(None) => Err(StdError::GenericErr { msg: "unable to type-cast marker account".to_owned() }),
        Some(Some(a)) => Ok(a),
    }
}

/// What the chain answered about a marker: the marker query, the bank's
/// supply of its denomination, and the balances the marker holds.
pub struct MarkerLookup {
    pub marker: Result<MarkerAccount, StdError>,
    pub supply: Result<u128, StdError>,
    pub holdings: Result<Vec<Balance>, StdError>,
}

/// The balances the chain reported, or none where the query failed.
pub open spec fn held_balances(holdings: Result<Vec<Balance>, StdError>) -> Seq<Balance> {
    match holdings {
        Ok(v) => v@,
        Err(_) => Seq::empty(),
    }
}

/// The marker's address, if it has an account.
pub open spec fn marker_address_of(m: MarkerAccount) -> Option<Seq<char>> {
    match m.base_account {
        Some(b) => Some(b.address@),
        None => None,
    }
}

/// Whether an address holds every expected right on a marker, through one
/// grant.
pub open spec fn has_permissions(grants: Seq<AccessGrantModel>, address: Seq<char>, expected: Seq<Access>) -> bool {
    exists|i: int|
        0 <= i < grants.len() && #[trigger] grants[i].address == address && forall|e: int|
            0 <= e < expected.len() ==> grants[i].permissions.contains(access_value(#[trigger] expected[e]))
}

fn grant_has_all(grant: &AccessGrant, expected: &[Access]) -> (b: bool)
    ensures
        b == forall|e: int| 0 <= e < expected@.len() ==> grant@.permissions.contains(access_value(#[trigger] expected@[e])),
{
    for e in 0..expected.len()
        invariant
            forall|f: int| 0 <= f < e ==> grant@.permissions.contains(access_value(#[trigger] expected@[f])),
    {
        let wanted = expected[e].to_i32();
        let mut found = false;
        for p in 0..grant.permissions.len()
            invariant
                found == exists|q: int| 0 <= q < p && grant.permissions@[q] == wanted,
        {
            if grant.permissions[p] == wanted {
                found = true;
            }
        }
        if !found {
            return false;
        }
        assert(grant@.permissions.contains(wanted));
    }
    true
}

/// Whether an address holds all the expected rights on a marker.
pub fn marker_has_permissions(marker: &MarkerAccount, address: &String, expected_permissions: &[Access]) -> (b:
    bool)
    ensures
        b == has_permissions(grants_model(marker.access_control@), address@, expected_permissions@),
{
    let ghost grants = grants_model(marker.access_control@);
    for i in 0..marker.access_control.len()
        invariant
            grants == grants_model(marker.access_control@),
            forall|j: int| 0 <= j < i ==> !(#[trigger] grants[j].address == address@ && forall|e: int|
                0 <= e < expected_permissions@.len() ==> grants[j].permissions.contains(
                    access_value(#[trigger] expected_permissions@[e]),
                )),
    {
        assert(grants[i as int] == marker.access_control@[i as int]@);
        if marker.access_control[i].address == *address && grant_has_all(&marker.access_control[i], expected_permissions) {
            assert(grants[i as int].address == address@);
            return true;
        }
    }
    false
}

/// Whether an address has admin rights on a marker.
pub fn marker_has_admin(marker: &MarkerAccount, admin_address: &String) -> (b: bool)
    ensures
        b == has_permissions(grants_model(marker.access_control@), admin_address@, seq![Access::Admin]),
{
    let expected = [Access::Admin];
    let r = marker_has_permissions(marker, admin_address, &expected);
    assert(expected@ =~= seq![Access::Admin]);
    r
}

/// Whether a character has Unicode's `White_Space` property, the white
/// space that `str::trim` removes.
pub open spec fn is_white_space(c: char) -> bool {
    let n = c as u32;
    ||| 0x9 <= n <= 0xd
    ||| n == 0x20
    ||| n == 0x85
    ||| n == 0xa0
    ||| n == 0x1680
    ||| 0x2000 <= n <= 0x200a
    ||| n == 0x2028
    ||| n == 0x2029
    ||| n == 0x202f
    ||| n == 0x205f
    ||| n == 0x3000
}

/// The text left of a string once leading and trailing white space is
/// removed.
pub open spec fn trimmed(text: Seq<char>) -> Seq<char>
    decreases text.len(),
{
    if text.len() > 0 && is_white_space(text[0]) {
        trimmed(text.drop_first())
    } else if text.len() > 0 && is_white_space(text.last()) {
        trimmed(text.drop_last())
    } else {
        text
    }
}

/// `str::trim`, documented to return the text with leading and trailing
/// white space removed, white space being what Unicode's `White_Space`
/// property names.
#[verifier::external_body]
fn trim_text(s: &str) -> (r: &str)
    ensures
        r@ == trimmed(s@),
{
    s.trim()
}

/// Whether a text is empty or whitespace only.
pub open spec fn blank(text: Seq<char>) -> bool {
    trimmed(text).len() == 0
}

/// The error for a text parameter that is blank.
pub open spec fn blank_param_text(param_name: Seq<char>) -> Seq<char> {
    param_name + " must not be empty"@
}

/// A text parameter that must not be blank.
pub fn validate_string(input: String, param_name: &str) -> (r: Result<String, StdError>)
    ensures
        blank(input@) ==> (r matches Err(StdError::GenericErr { msg }) && msg@ == blank_param_text(param_name@)),
        !blank(input@) ==> r == Ok::<String, StdError>(input),
{
    if trim_text(input.as_str()).is_empty() {
        Err(StdError::GenericErr { msg: concat(param_name, " must not be empty") })
    } else {
        Ok(input)
    }
}

/// An address parameter that must not be blank.
pub fn validate_address(input: String) -> (r: Result<String, StdError>)
    ensures
        blank(input@) ==> (r matches Err(StdError::GenericErr { msg }) && msg@ == "address must not be empty"@),
        !blank(input@) ==> r == Ok::<String, StdError>(input),
{
    if trim_text(input.as_str()).is_empty() {
        Err(StdError::GenericErr { msg: "address must not be empty".to_owned() })
    } else {
        Ok(input)
    }
}

/// A failure with the given text.
pub open spec fn fails_with(r: Result<ProvMsg, StdError>, text: Seq<char>) -> bool {
    r matches Err(StdError::GenericErr { msg }) && msg@ == text
}

/// A message whose model is the given one.
pub open spec fn gives(r: Result<ProvMsg, StdError>, m: ProvMsgModel) -> bool {
    r matches Ok(x) && x@ == m
}

/// A proposal for a new marker, managed by the contract.
pub fn create_marker(amount: u128, denom: String, marker_type: i32, contract_address: String) -> (r: Result<
    ProvMsg,
    StdError,
>)
    ensures
        blank(denom@) ==> fails_with(r, blank_param_text("denom"@)),
        !blank(denom@) && blank(contract_address@) ==> fails_with(r, "address must not be empty"@),
        !blank(denom@) && !blank(contract_address@) ==> gives(
            r,
            ProvMsgModel::AddMarker {
                amount: CoinModel { denom: denom@, amount },
                manager: contract_address@,
                from_address: contract_address@,
                marker_type,
            },
        ),
{
    let denom = validate_string(denom, "denom")?;
    let manager = validate_address(contract_address.clone())?;
    let from_address = validate_address(contract_address)?;
    Ok(ProvMsg::AddMarker { amount: Coin { denom, amount }, manager, from_address, marker_type })
}

/// Finalizes a marker.
pub fn finalize_marker(denom: String, contract_address: String) -> (r: Result<ProvMsg, StdError>)
    ensures
        blank(denom@) ==> fails_with(r, blank_param_text("denom"@)),
        !blank(denom@) && blank(contract_address@) ==> fails_with(r, "address must not be empty"@),
        !blank(denom@) && !blank(contract_address@) ==> gives(
            r,
            ProvMsgModel::Finalize { denom: denom@, administrator: contract_address@ },
        ),
{
    let denom = validate_string(denom, "denom")?;
    let administrator = validate_address(contract_address)?;
    Ok(ProvMsg::Finalize { denom, administrator })
}

/// Activates a marker.
pub fn activate_marker(denom: String, contract_address: String) -> (r: Result<ProvMsg, StdError>)
    ensures
        blank(denom@) ==> fails_with(r, blank_param_text("denom"@)),
        !blank(denom@) && blank(contract_address@) ==> fails_with(r, "address must not be empty"@),
        !blank(denom@) && !blank(contract_address@) ==> gives(
            r,
            ProvMsgModel::Activate { denom: denom@, administrator: contract_address@ },
        ),
{
    let denom = validate_string(denom, "denom")?;
    let administrator = validate_address(contract_address)?;
    Ok(ProvMsg::Activate { denom, administrator })
}

/// Moves marker coins between accounts.
pub fn transfer_marker_coins(amount: u128, denom: String, to: String, from: String, contract_address: String) -> (r:
    Result<ProvMsg, StdError>)
    ensures
        amount == 0 ==> fails_with(r, "transfer amount must be > 0"@),
        amount != 0 && blank(denom@) ==> fails_with(r, blank_param_text("denom"@)),
        amount != 0 && !blank(denom@) && (blank(from@) || blank(to@)) ==> fails_with(
            r,
            "address must not be empty"@,
        ),
        amount != 0 && !blank(denom@) && !blank(from@) && !blank(to@) ==> gives(
            r,
            ProvMsgModel::Transfer {
                amount: CoinModel { denom: denom@, amount },
                administrator: contract_address@,
                from_address: from@,
                to_address: to@,
            },
        ),
{
    if amount == 0 {
        return Err(StdError::GenericErr { msg: "transfer amount must be > 0".to_owned() });
    }
    let denom = validate_string(denom, "denom")?;
    let from_address = validate_address(from)?;
    let to_address = validate_address(to)?;
    Ok(ProvMsg::Transfer { amount: Coin { denom, amount }, administrator: contract_address, from_address, to_address })
}

/// Increases a marker's supply.
pub fn mint_marker_supply(amount: u128, denom: String, contract_address: String) -> (r: Result<ProvMsg, StdError>)
    ensures
        amount == 0 ==> fails_with(r, "mint amount must be > 0"@),
        amount != 0 && blank(denom@) ==> fails_with(r, blank_param_text("denom"@)),
        amount != 0 && !blank(denom@) && blank(contract_address@) ==> fails_with(r, "address must not be empty"@),
        amount != 0 && !blank(denom@) && !blank(contract_address@) ==> gives(
            r,
            ProvMsgModel::Mint { amount: CoinModel { denom: denom@, amount }, administrator: contract_address@ },
        ),
{
    if amount == 0 {
        return Err(StdError::GenericErr { msg: "mint amount must be > 0".to_owned() });
    }
    let denom = validate_string(denom, "denom")?;
    let administrator = validate_address(contract_address)?;
    Ok(ProvMsg::Mint { amount: Coin { denom, amount }, administrator })
}

/// Sends coins held by a marker to an account.
pub fn withdraw_coins(
    marker_denom: String,
    amount: u128,
    denom: String,
    recipient: String,
    contract_address: String,
) -> (r: Result<ProvMsg, StdError>)
    ensures
        amount == 0 ==> fails_with(r, "withdraw amount must be > 0"@),
        amount != 0 && blank(denom@) ==> fails_with(r, blank_param_text("denom"@)),
        amount != 0 && !blank(denom@) && blank(marker_denom@) ==> fails_with(r, blank_param_text("marker_denom"@)),
        amount != 0 && !blank(denom@) && !blank(marker_denom@) && (blank(contract_address@) || blank(recipient@))
            ==> fails_with(r, "address must not be empty"@),
        amount != 0 && !blank(denom@) && !blank(marker_denom@) && !blank(contract_address@) && !blank(recipient@)
            ==> gives(
            r,
            ProvMsgModel::Withdraw {
                denom: marker_denom@,
                administrator: contract_address@,
                to_address: recipient@,
                amount: seq![CoinModel { denom: denom@, amount }],
            },
        ),
{
    if amount == 0 {
        return Err(StdError::GenericErr { msg: "withdraw amount must be > 0".to_owned() });
    }
    let coin_denom = validate_string(denom, "denom")?;
    let marker = validate_string(marker_denom, "marker_denom")?;
    let administrator = validate_address(contract_address)?;
    let to_address = validate_address(recipient)?;
    let mut coins: Vec<Coin> = Vec::new();
    coins.push(Coin { denom: coin_denom, amount });
    let r = ProvMsg::Withdraw { denom: marker, administrator, to_address, amount: coins };
    assert(crate::common::security::coins_model(coins@) =~= seq![CoinModel { denom: denom@, amount }]);
    Ok(r)
}

/// Grants rights on a marker.
pub fn grant_marker_access(denom: String, address: String, permissions: Vec<AccessGrant>) -> (r: Result<
    ProvMsg,
    StdError,
>)
    ensures
        blank(denom@) ==> fails_with(r, blank_param_text("denom"@)),
        !blank(denom@) && blank(address@) ==> fails_with(r, "address must not be empty"@),
        !blank(denom@) && !blank(address@) ==> gives(
            r,
            ProvMsgModel::AddAccess {
                denom: denom@,
                administrator: address@,
                access: grants_model(permissions@),
            },
        ),
{
    let denom = validate_string(denom, "denom")?;
    let administrator = validate_address(address)?;
    Ok(ProvMsg::AddAccess { denom, administrator, access: permissions })
}

/// Revokes an address's rights on a marker, signed by that address.
pub fn revoke_marker_access(denom: String, address: String) -> (r: Result<ProvMsg, StdError>)
    ensures
        blank(denom@) ==> fails_with(r, blank_param_text("denom"@)),
        !blank(denom@) && blank(address@) ==> fails_with(r, "address must not be empty"@),
        !blank(denom@) && !blank(address@) ==> gives(
            r,
            ProvMsgModel::DeleteAccess { denom: denom@, administrator: address@, removed_address: address@ },
        ),
{
    let denom = validate_string(denom, "denom")?;
    let administrator = validate_address(address.clone())?;
    let removed_address = validate_address(address)?;
    Ok(ProvMsg::DeleteAccess { denom, administrator, removed_address })
}

/// Charges a custom fee to an address.
pub fn assess_custom_fee(amount: Coin, name: Option<String>, from: String, recipient: Option<String>) -> (r:
    Result<ProvMsg, StdError>)
    ensures
        blank(from@) ==> fails_with(r, "address must not be empty"@),
        !blank(from@) ==> gives(
            r,
            ProvMsgModel::AssessCustomFee {
                name: match name {
                    Some(n) => n@,
                    None => Seq::empty(),
                },
                amount: amount@,
                recipient: match recipient {
                    Some(a) => a@,
                    None => Seq::empty(),
                },
                from: from@,
                recipient_basis_points: "10000"@,
            },
        ),
{
    let name = match name {
        Some(n) => n,
        None => String::new(),
    };
    let recipient = match recipient {
        Some(a) => a,
        None => String::new(),
    };
    let from = validate_address(from)?;
    Ok(ProvMsg::AssessCustomFee { name, amount, recipient, from, recipient_basis_points: "10000".to_owned() })
}

/// The address of a marker's account.
pub fn get_marker_address(base_account: &Option<BaseAccount>) -> (r: Result<String, ContractError>)
    ensures
        match base_account {
            Some(b) => r matches Ok(a) && a@ == b.address@,
            None => r matches Err(ContractError::InvalidMarker { message }) && message@ == "Base account is missing"@,
        },
{
    match base_account {
        Some(b) => Ok(b.address.clone()),
        None => Err(ContractError::InvalidMarker { message: "Base account is missing".to_owned() }),
    }
}

/// Coins as display text: amount then denomination, joined by commas.
pub open spec fn coins_display(coins: Seq<(Seq<char>, Seq<char>)>) -> Seq<char> {
    joined(coins.map_values(|c: (Seq<char>, Seq<char>)| c.1 + c.0), ", "@)
}

/// Displays coins as `12acoin, 13bcoin`.
pub fn format_coin_display(coins: &[ProtoCoin]) -> (s: String)
    ensures
        s@ == coins_display(coins@.map_values(|c: ProtoCoin| c@)),
{
    let mut parts: Vec<String> = Vec::new();
    for i in 0..coins.len()
        invariant
            parts@.len() == i,
            forall|j: int| 0 <= j < i ==> #[trigger] parts@[j]@ == coins@[j].amount@ + coins@[j].denom@,
    {
        parts.push(concat(coins[i].amount.as_str(), coins[i].denom.as_str()));
    }
    assert(strings_model(parts@) =~= coins@.map_values(|c: ProtoCoin| c@).map_values(
        |c: (Seq<char>, Seq<char>)| c.1 + c.0,
    ));
    join_strings(&parts, ", ")
}

/// Every coin of every balance, in order.
pub open spec fn all_coins(balances: Seq<Balance>) -> Seq<(Seq<char>, Seq<char>)>
    decreases balances.len(),
{
    if balances.len() == 0 {
        Seq::empty()
    } else {
        all_coins(balances.drop_last()) + balances.last().coins@.map_values(|c: ProtoCoin| c@)
    }
}

/// The coins of a denomination among balances, in order.
pub open spec fn coins_of_denom(balances: Seq<Balance>, denom: Seq<char>) -> Seq<(Seq<char>, Seq<char>)> {
    all_coins(balances).filter(|c: (Seq<char>, Seq<char>)| c.0 == denom)
}

/// The text of the error for a marker that does not hold exactly one entry
/// of its own denomination.
pub open spec fn holding_error_text(address: Seq<char>, denom: Seq<char>, holdings: Seq<(Seq<char>, Seq<char>)>) -> Seq<char> {
    "expected marker ["@ + address + "] to have a single coin entry for denom ["@ + denom
        + "], but it did not. Holdings: ["@ + coins_display(holdings) + "]"@
}

fn flatten_coins(balances: &Vec<Balance>) -> (r: Vec<ProtoCoin>)
    ensures
        r@.map_values(|c: ProtoCoin| c@) == all_coins(balances@),
{
    let mut r: Vec<ProtoCoin> = Vec::new();
    for i in 0..balances.len()
        invariant
            r@.map_values(|c: ProtoCoin| c@) == all_coins(balances@.take(i as int)),
    {
        proof {
            assert(balances@.take(i + 1).drop_last() =~= balances@.take(i as int));
            assert(balances@.take(i + 1).last() == balances@[i as int]);
        }
        let coins = &balances[i].coins;
        for j in 0..coins.len()
            invariant
                0 <= i < balances@.len(),
                coins == &balances@[i as int].coins,
                r@.map_values(|c: ProtoCoin| c@) == all_coins(balances@.take(i as int))
                    + balances@[i as int].coins@.take(j as int).map_values(|c: ProtoCoin| c@),
        {
            let ghost prev = r@;
            let ghost cs = balances@[i as int].coins@;
            r.push(coins[j].clone());
            assert(cs.take(j + 1) =~= cs.take(j as int).push(cs[j as int]));
            assert(cs.take(j + 1).map_values(|c: ProtoCoin| c@) =~= cs.take(j as int).map_values(|c: ProtoCoin| c@).push(
                cs[j as int]@,
            ));
            assert(r@.map_values(|c: ProtoCoin| c@) =~= prev.map_values(|c: ProtoCoin| c@).push(cs[j as int]@));
            assert(r@.map_values(|c: ProtoCoin| c@) =~= all_coins(balances@.take(i as int))
                + balances@[i as int].coins@.take(j + 1).map_values(|c: ProtoCoin| c@));
        }
        assert(balances@[i as int].coins@.take(balances@[i as int].coins@.len() as int)
            =~= balances@[i as int].coins@);
    }
    assert(balances@.take(balances@.len() as int) =~= balances@);
    r
}

/// The single coin of a marker's own denomination among its holdings (as
/// the chain's holding query reported them). A failed query is answered
/// with its error; a missing account, or other than exactly one entry of
/// the denomination, is an error that lists the marker's holdings.
pub fn get_single_marker_coin_holding(holdings: &Result<Vec<Balance>, StdError>, marker: &MarkerAccount) -> (r: Result<
    ProtoCoin,
    ContractError,
>)
    ensures
        match *holdings {
            Err(q) => r == Err::<ProtoCoin, ContractError>(ContractError::Std(q)),
            Ok(h) => match marker_address_of(*marker) {
                None => r matches Err(ContractError::InvalidMarker { message }) && message@
                    == "Base account is missing"@,
                Some(address) => {
                    let found = coins_of_denom(h@, marker.denom@);
                    if found.len() == 1 {
                        r matches Ok(c) && c@ == found[0]
                    } else {
                        r matches Err(ContractError::InvalidMarker { message }) && message@ == holding_error_text(
                            address,
                            marker.denom@,
                            all_coins(h@),
                        )
                    }
                },
            },
        },
{
    let holdings = match holdings {
        Ok(h) => h,
        Err(e) => {
            return Err(ContractError::Std(e.clone()));
        },
    };
    let coins = flatten_coins(holdings);
    let ghost all = coins@.map_values(|c: ProtoCoin| c@);
    let ghost pred = |c: (Seq<char>, Seq<char>)| c.0 == marker.denom@;
    let mut marker_denom_holdings: Vec<ProtoCoin> = Vec::new();
    for i in 0..coins.len()
        invariant
            all == coins@.map_values(|c: ProtoCoin| c@),
            pred == (|c: (Seq<char>, Seq<char>)| c.0 == marker.denom@),
            marker_denom_holdings@.map_values(|c: ProtoCoin| c@) == all.take(i as int).filter(pred),
    {
        proof {
            assert(all[i as int] == coins@[i as int]@);
            crate::common::search::lemma_filter_take_step(all, pred, i as int);
        }
        if coins[i].denom == marker.denom {
            let ghost before = marker_denom_holdings@;
            marker_denom_holdings.push(coins[i].clone());
            assert(marker_denom_holdings@.map_values(|c: ProtoCoin| c@) =~= before.map_values(|c: ProtoCoin| c@).push(
                all[i as int],
            ));
        }
    }
    assert(all.take(coins@.len() as int) =~= all);
    let marker_address = get_marker_address(&marker.base_account)?;
    if marker_denom_holdings.len() != 1 {
        let a = concat("expected marker [", marker_address.as_str());
        let b = concat(a.as_str(), "] to have a single coin entry for denom [");
        let c = concat(b.as_str(), marker.denom.as_str());
        let d = concat(c.as_str(), "], but it did not. Holdings: [");
        let shown = format_coin_display(coins.as_slice());
        let e = concat(d.as_str(), shown.as_str());
        let message = concat(e.as_str(), "]");
        return Err(ContractError::InvalidMarker { message });
    }
    assert(marker_denom_holdings@.map_values(|c: ProtoCoin| c@)[0] == marker_denom_holdings@[0]@);
    Ok(marker_denom_holdings[0].clone())
}

/// Gives back to their holders the rights taken when a marker came to the
/// contract, then gives up the contract's own rights; the latter comes last,
/// as the contract could not grant anything once it has no rights left.
pub fn release_marker_from_contract(marker_denom: String, contract_address: &String, permissions_to_grant: &Vec<
    AccessGrant,
>) -> (r: Result<Vec<ProvMsg>, ContractError>)
    ensures
        blank(marker_denom@) ==> (r matches Err(ContractError::Std(StdError::GenericErr { msg })) && msg@
            == blank_param_text("denom"@)),
        !blank(marker_denom@) && (exists|i: int|
            0 <= i < permissions_to_grant@.len() && blank(#[trigger] permissions_to_grant@[i].address@)) ==> (
        r matches Err(ContractError::Std(StdError::GenericErr { msg })) && msg@ == "address must not be empty"@),
        !blank(marker_denom@) && (forall|i: int|
            0 <= i < permissions_to_grant@.len() ==> !blank(#[trigger] permissions_to_grant@[i].address@)) && blank(
            contract_address@,
        ) ==> (r matches Err(ContractError::Std(StdError::GenericErr { msg })) && msg@
            == "address must not be empty"@),
        !blank(marker_denom@) && (forall|i: int|
            0 <= i < permissions_to_grant@.len() ==> !blank(#[trigger] permissions_to_grant@[i].address@)) && !blank(
            contract_address@,
        ) ==> (r matches Ok(msgs) && msgs@.map_values(|m: ProvMsg| m@) == permissions_to_grant@.map_values(
            |g: AccessGrant| ProvMsgModel::AddAccess { denom: marker_denom@, administrator: g.address@, access: seq![g@] },
        ).push(
            ProvMsgModel::DeleteAccess {
                denom: marker_denom@,
                administrator: contract_address@,
                removed_address: contract_address@,
            },
        )),
{
    let mut messages: Vec<ProvMsg> = Vec::new();
    let ghost grants = permissions_to_grant@;
    let ghost f = |g: AccessGrant| ProvMsgModel::AddAccess { denom: marker_denom@, administrator: g.address@, access: seq![g@] };
    for i in 0..permissions_to_grant.len()
        invariant
            grants == permissions_to_grant@,
            f == (|g: AccessGrant| ProvMsgModel::AddAccess { denom: marker_denom@, administrator: g.address@, access: seq![g@] }),
            !blank(marker_denom@) || grants.len() == 0 || i == 0,
            forall|j: int| 0 <= j < i ==> !blank(#[trigger] grants[j].address@),
            messages@.map_values(|m: ProvMsg| m@) == grants.take(i as int).map_values(f),
    {
        let grant = permissions_to_grant[i].clone();
        let mut access: Vec<AccessGrant> = Vec::new();
        access.push(grant);
        let msg = match grant_marker_access(marker_denom.clone(), permissions_to_grant[i].address.clone(), access) {
            Ok(m) => m,
            Err(e) => {
                return Err(ContractError::Std(e));
            },
        };
        proof {
            assert(grants_model(access@) =~= seq![grants[i as int]@]);
        }
        let ghost before = messages@;
        messages.push(msg);
        proof {
            crate::common::search::lemma_map_take_step(grants, f, i as int);
            assert(messages@.map_values(|m: ProvMsg| m@) =~= before.map_values(|m: ProvMsg| m@).push(f(grants[i as int])));
        }
    }
    assert(grants.take(grants.len() as int) =~= grants);
    let revoke = match revoke_marker_access(marker_denom, contract_address.clone()) {
        Ok(m) => m,
        Err(e) => {
            return Err(ContractError::Std(e));
        },
    };
    let ghost before = messages@;
    messages.push(revoke);
    assert(messages@.map_values(|m: ProvMsg| m@) =~= before.map_values(|m: ProvMsg| m@).push(revoke@));
    Ok(messages)
}

} // verus!
