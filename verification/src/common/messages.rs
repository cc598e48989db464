//! The messages that the contract hands to the chain, as plain values.

use vstd::prelude::*;
use crate::common::security::{Coin, CoinModel, coins_model};

verus! {

/// Access rights on a marker, numbered as the chain numbers them.
pub const ACCESS_UNSPECIFIED: i32 = 0;
pub const ACCESS_MINT: i32 = 1;
pub const ACCESS_BURN: i32 = 2;
pub const ACCESS_DEPOSIT: i32 = 3;
pub const ACCESS_WITHDRAW: i32 = 4;
pub const ACCESS_DELETE: i32 = 5;
pub const ACCESS_ADMIN: i32 = 6;
pub const ACCESS_TRANSFER: i32 = 7;
pub const ACCESS_FORCE_TRANSFER: i32 = 8;

/// Marker statuses, numbered as the chain numbers them.
pub const MARKER_STATUS_PROPOSED: i32 = 1;
pub const MARKER_STATUS_FINALIZED: i32 = 2;
pub const MARKER_STATUS_ACTIVE: i32 = 3;

/// Marker kinds, numbered as the chain numbers them.
pub const MARKER_TYPE_COIN: i32 = 1;
pub const MARKER_TYPE_RESTRICTED: i32 = 2;

/// Rights that an address holds on a marker.
#[derive(Debug, PartialEq, Eq)]
pub struct AccessGrant {
    pub address: String,
    pub permissions: Vec<i32>,
}

pub struct AccessGrantModel {
    pub address: Seq<char>,
    pub permissions: Seq<i32>,
}

impl View for AccessGrant {
    type V = AccessGrantModel;

    open spec fn view(&self) -> AccessGrantModel {
        AccessGrantModel { address: self.address@, permissions: self.permissions@ }
    }
}

impl Clone for AccessGrant {
    fn clone(&self) -> (r: Self)
        ensures
            r@ == self@,
    {
        let mut permissions: Vec<i32> = Vec::new();
        for i in 0..self.permissions.len()
            invariant
                permissions@ == self.permissions@.take(i as int),
        {
            permissions.push(self.permissions[i]);
            assert(self.permissions@.take(i + 1) =~= self.permissions@.take(i as int).push(self.permissions@[i as int]));
        }
        assert(self.permissions@.take(self.permissions@.len() as int) =~= self.permissions@);
        AccessGrant { address: self.address.clone(), permissions }
    }
}

/// The grants of a list, each as a model.
pub open spec fn grants_model(s: Seq<AccessGrant>) -> Seq<AccessGrantModel> {
    s.map_values(|g: AccessGrant| g@)
}

/// Copies a list of grants.
pub fn clone_grants(v: &Vec<AccessGrant>) -> (r: Vec<AccessGrant>)
    ensures
        grants_model(r@) == grants_model(v@),
{
    let mut r: Vec<AccessGrant> = Vec::new();
    for i in 0..v.len()
        invariant
            r@.len() == i,
            forall|j: int| 0 <= j < i ==> #[trigger] r@[j]@ == v@[j]@,
    {
        r.push(v[i].clone());
    }
    assert(grants_model(r@) =~= grants_model(v@));
    r
}

/// A message for the chain.
#[derive(Debug, PartialEq, Eq)]
#[allow(inconsistent_fields)]
pub enum ProvMsg {
    /// Propose a new marker with a supply, managed by an address.
    AddMarker { amount: Coin, manager: String, from_address: String, marker_type: i32 },
    /// Grant rights on a marker.
    AddAccess { denom: String, administrator: String, access: Vec<AccessGrant> },
    /// Finalize a proposed marker.
    Finalize { denom: String, administrator: String },
    /// Activate a finalized marker.
    Activate { denom: String, administrator: String },
    /// Move marker coins between accounts.
    Transfer { amount: Coin, administrator: String, from_address: String, to_address: String },
    /// Increase a marker's supply.
    Mint { amount: Coin, administrator: String },
    /// Send coins held by a marker to an account.
    Withdraw { denom: String, administrator: String, to_address: String, amount: Vec<Coin> },
    /// Revoke an address's rights on a marker.
    DeleteAccess { denom: String, administrator: String, removed_address: String },
    /// Charge a custom fee.
    AssessCustomFee {
        name: String,
        amount: Coin,
        recipient: String,
        from: String,
        recipient_basis_points: String,
    },
    /// Send coins from the contract's account.
    BankSend { to_address: String, amount: Vec<Coin> },
}

#[allow(inconsistent_fields)]
pub enum ProvMsgModel {
    AddMarker { amount: CoinModel, manager: Seq<char>, from_address: Seq<char>, marker_type: i32 },
    AddAccess { denom: Seq<char>, administrator: Seq<char>, access: Seq<AccessGrantModel> },
    Finalize { denom: Seq<char>, administrator: Seq<char> },
    Activate { denom: Seq<char>, administrator: Seq<char> },
    Transfer {
        amount: CoinModel,
        administrator: Seq<char>,
        from_address: Seq<char>,
        to_address: Seq<char>,
    },
    Mint { amount: CoinModel, administrator: Seq<char> },
    Withdraw {
        denom: Seq<char>,
        administrator: Seq<char>,
        to_address: Seq<char>,
        amount: Seq<CoinModel>,
    },
    DeleteAccess { denom: Seq<char>, administrator: Seq<char>, removed_address: Seq<char> },
    AssessCustomFee {
        name: Seq<char>,
        amount: CoinModel,
        recipient: Seq<char>,
        from: Seq<char>,
        recipient_basis_points: Seq<char>,
    },
    BankSend { to_address: Seq<char>, amount: Seq<CoinModel> },
}

impl View for ProvMsg {
    type V = ProvMsgModel;

    open spec fn view(&self) -> ProvMsgModel {
        match self {
            ProvMsg::AddMarker { amount, manager, from_address, marker_type } => ProvMsgModel::AddMarker {
                amount: amount@,
                manager: manager@,
                from_address: from_address@,
                marker_type: *marker_type,
            },
            ProvMsg::AddAccess { denom, administrator, access } => ProvMsgModel::AddAccess {
                denom: denom@,
                administrator: administrator@,
                access: grants_model(access@),
            },
            ProvMsg::Finalize { denom, administrator } => ProvMsgModel::Finalize {
                denom: denom@,
                administrator: administrator@,
            },
            ProvMsg::Activate { denom, administrator } => ProvMsgModel::Activate {
                denom: denom@,
                administrator: administrator@,
            },
            ProvMsg::Transfer { amount, administrator, from_address, to_address } => ProvMsgModel::Transfer {
                amount: amount@,
                administrator: administrator@,
                from_address: from_address@,
                to_address: to_address@,
            },
            ProvMsg::Mint { amount, administrator } => ProvMsgModel::Mint {
                amount: amount@,
                administrator: administrator@,
            },
            ProvMsg::Withdraw { denom, administrator, to_address, amount } => ProvMsgModel::Withdraw {
                denom: denom@,
                administrator: administrator@,
                to_address: to_address@,
                amount: coins_model(amount@),
            },
            ProvMsg::DeleteAccess { denom, administrator, removed_address } => ProvMsgModel::DeleteAccess {
                denom: denom@,
                administrator: administrator@,
                removed_address: removed_address@,
            },
            ProvMsg::AssessCustomFee { name, amount, recipient, from, recipient_basis_points } =>
                ProvMsgModel::AssessCustomFee {
                name: name@,
                amount: amount@,
                recipient: recipient@,
                from: from@,
                recipient_basis_points: recipient_basis_points@,
            },
            ProvMsg::BankSend { to_address, amount } => ProvMsgModel::BankSend {
                to_address: to_address@,
                amount: coins_model(amount@),
            },
        }
    }
}

/// The messages of a list, each as a model.
pub open spec fn msgs_model(s: Seq<ProvMsg>) -> Seq<ProvMsgModel> {
    s.map_values(|m: ProvMsg| m@)
}

} // verus!
