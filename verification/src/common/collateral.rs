//! Loan pool markers held by the contract as collateral, and the rights that
//! were taken from their owners when they were contributed.

use vstd::prelude::*;
use crate::common::messages::{
    AccessGrant, AccessGrantModel, ProvMsg, grants_model, ACCESS_UNSPECIFIED, ACCESS_MINT, ACCESS_BURN,
    ACCESS_DEPOSIT, ACCESS_WITHDRAW, ACCESS_DELETE, ACCESS_ADMIN, ACCESS_TRANSFER, ACCESS_FORCE_TRANSFER,
};

verus! {

/// A right on a marker.
#[derive(Debug, PartialEq, Eq, Structural, Clone, Copy)]
pub enum MarkerAccess {
    Admin,
    Burn,
    Deposit,
    Delete,
    Mint,
    Transfer,
    ForceTransfer,
    Unspecified,
    Withdraw,
}

/// The chain's number for a right.
pub open spec fn access_number(m: MarkerAccess) -> i32 {
    match m {
        MarkerAccess::Unspecified => ACCESS_UNSPECIFIED,
        MarkerAccess::Admin => ACCESS_ADMIN,
        MarkerAccess::Burn => ACCESS_BURN,
        MarkerAccess::Deposit => ACCESS_DEPOSIT,
        MarkerAccess::Delete => ACCESS_DELETE,
        MarkerAccess::Mint => ACCESS_MINT,
        MarkerAccess::Transfer => ACCESS_TRANSFER,
        MarkerAccess::ForceTransfer => ACCESS_FORCE_TRANSFER,
        MarkerAccess::Withdraw => ACCESS_WITHDRAW,
    }
}

/// Whether a number names a right.
pub open spec fn is_access_number(a: i32) -> bool {
    0 <= a <= 8
}

/// The right that a number names.
pub open spec fn access_of_number(a: i32) -> MarkerAccess {
    if a == ACCESS_ADMIN {
        MarkerAccess::Admin
    } else if a == ACCESS_BURN {
        MarkerAccess::Burn
    } else if a == ACCESS_DEPOSIT {
        MarkerAccess::Deposit
    } else if a == ACCESS_DELETE {
        MarkerAccess::Delete
    } else if a == ACCESS_MINT {
        MarkerAccess::Mint
    } else if a == ACCESS_TRANSFER {
        MarkerAccess::Transfer
    } else if a == ACCESS_WITHDRAW {
        MarkerAccess::Withdraw
    } else if a == ACCESS_FORCE_TRANSFER {
        MarkerAccess::ForceTransfer
    } else {
        MarkerAccess::Unspecified
    }
}

impl MarkerAccess {
    /// The chain's number for this right.
    pub fn to_access(self) -> (a: i32)
        ensures
            a == access_number(self),
            is_access_number(a),
    {
        match self {
            MarkerAccess::Unspecified => ACCESS_UNSPECIFIED,
            MarkerAccess::Admin => ACCESS_ADMIN,
            MarkerAccess::Burn => ACCESS_BURN,
            MarkerAccess::Deposit => ACCESS_DEPOSIT,
            MarkerAccess::Delete => ACCESS_DELETE,
            MarkerAccess::Mint => ACCESS_MINT,
            MarkerAccess::Transfer => ACCESS_TRANSFER,
            MarkerAccess::ForceTransfer => ACCESS_FORCE_TRANSFER,
            MarkerAccess::Withdraw => ACCESS_WITHDRAW,
        }
    }

    /// The right that a chain number names.
    pub fn from_access(a: i32) -> (m: MarkerAccess)
        requires
            is_access_number(a),
        ensures
            m == access_of_number(a),
    {
        if a == ACCESS_ADMIN {
            MarkerAccess::Admin
        } else if a == ACCESS_BURN {
            MarkerAccess::Burn
        } else if a == ACCESS_DEPOSIT {
            MarkerAccess::Deposit
        } else if a == ACCESS_DELETE {
            MarkerAccess::Delete
        } else if a == ACCESS_MINT {
            MarkerAccess::Mint
        } else if a == ACCESS_TRANSFER {
            MarkerAccess::Transfer
        } else if a == ACCESS_WITHDRAW {
            MarkerAccess::Withdraw
        } else if a == ACCESS_FORCE_TRANSFER {
            MarkerAccess::ForceTransfer
        } else {
            MarkerAccess::Unspecified
        }
    }
}

/// Turning a right into its number and back gives the right.
pub proof fn lemma_access_round_trip(m: MarkerAccess)
    ensures
        is_access_number(access_number(m)),
        access_of_number(access_number(m)) == m,
{
}

/// Turning a number into its right and back gives the number.
pub proof fn lemma_access_number_round_trip(a: i32)
    requires
        is_access_number(a),
    ensures
        access_number(access_of_number(a)) == a,
{
}

/// A grant of rights as it is stored.
#[derive(Debug, PartialEq, Eq)]
pub struct AccessGrantSerializable {
    pub address: String,
    pub permissions: Vec<MarkerAccess>,
}

pub struct AccessGrantSerializableModel {
    pub address: Seq<char>,
    pub permissions: Seq<MarkerAccess>,
}

impl View for AccessGrantSerializable {
    type V = AccessGrantSerializableModel;

    open spec fn view(&self) -> AccessGrantSerializableModel {
        AccessGrantSerializableModel { address: self.address@, permissions: self.permissions@ }
    }
}

impl Clone for AccessGrantSerializable {
    fn clone(&self) -> (r: Self)
        ensures
            r@ == self@,
    {
        let mut permissions: Vec<MarkerAccess> = Vec::new();
        for i in 0..self.permissions.len()
            invariant
                permissions@ == self.permissions@.take(i as int),
        {
            permissions.push(self.permissions[i]);
            assert(self.permissions@.take(i + 1) =~= self.permissions@.take(i as int).push(self.permissions@[i as int]));
        }
        assert(self.permissions@.take(self.permissions@.len() as int) =~= self.permissions@);
        AccessGrantSerializable { address: self.address.clone(), permissions }
    }
}

/// Whether every permission of a grant names a right.
pub open spec fn grant_is_valid(g: AccessGrantModel) -> bool {
    forall|i: int| 0 <= i < g.permissions.len() ==> is_access_number(#[trigger] g.permissions[i])
}

/// The stored form of a grant.
pub open spec fn serializable_of(g: AccessGrantModel) -> AccessGrantSerializableModel {
    AccessGrantSerializableModel {
        address: g.address,
        permissions: g.permissions.map_values(|p: i32| access_of_number(p)),
    }
}

/// The chain form of a stored grant.
pub open spec fn grant_of(g: AccessGrantSerializableModel) -> AccessGrantModel {
    AccessGrantModel {
        address: g.address,
        permissions: g.permissions.map_values(|m: MarkerAccess| access_number(m)),
    }
}

impl AccessGrantSerializable {
    /// The stored form of a grant.
    pub fn from_grant(grant: AccessGrant) -> (r: Self)
        requires
            grant_is_valid(grant@),
        ensures
            r@ == serializable_of(grant@),
    {
        let mut permissions: Vec<MarkerAccess> = Vec::new();
        for i in 0..grant.permissions.len()
            invariant
                grant_is_valid(grant@),
                permissions@ == grant.permissions@.take(i as int).map_values(|p: i32| access_of_number(p)),
        {
            assert(is_access_number(grant@.permissions[i as int]));
            permissions.push(MarkerAccess::from_access(grant.permissions[i]));
            assert(grant.permissions@.take(i + 1).map_values(|p: i32| access_of_number(p)) =~= grant.permissions@.take(
                i as int,
            ).map_values(|p: i32| access_of_number(p)).push(access_of_number(grant.permissions@[i as int])));
        }
        assert(grant.permissions@.take(grant.permissions@.len() as int) =~= grant.permissions@);
        AccessGrantSerializable { address: grant.address, permissions }
    }

    /// The chain form of this grant.
    pub fn to_grant(self) -> (r: AccessGrant)
        ensures
            r@ == grant_of(self@),
            grant_is_valid(r@),
    {
        let mut permissions: Vec<i32> = Vec::new();
        for i in 0..self.permissions.len()
            invariant
                permissions@ == self.permissions@.take(i as int).map_values(|m: MarkerAccess| access_number(m)),
        {
            permissions.push(self.permissions[i].to_access());
            assert(self.permissions@.take(i + 1).map_values(|m: MarkerAccess| access_number(m)) =~= self.permissions@.take(
                i as int,
            ).map_values(|m: MarkerAccess| access_number(m)).push(access_number(self.permissions@[i as int])));
        }
        assert(self.permissions@.take(self.permissions@.len() as int) =~= self.permissions@);
        AccessGrant { address: self.address, permissions }
    }
}

/// Storing a grant and reading it back gives the grant.
pub proof fn lemma_grant_round_trip(g: AccessGrantModel)
    requires
        grant_is_valid(g),
    ensures
        grant_of(serializable_of(g)) == g,
{
    assert(grant_of(serializable_of(g)).permissions =~= g.permissions);
}

/// The stored grants of a list, each as a model.
pub open spec fn serializable_grants_model(s: Seq<AccessGrantSerializable>) -> Seq<
    AccessGrantSerializableModel,
> {
    s.map_values(|g: AccessGrantSerializable| g@)
}

/// A loan pool marker held as collateral.
#[derive(Debug, PartialEq, Eq)]
pub struct LoanPoolMarkerCollateral {
    pub marker_address: String,
    pub marker_denom: String,
    pub share_count: u128,
    /// The address with admin rights that contributed the marker.
    pub original_contributor: String,
    pub removed_permissions: Vec<AccessGrantSerializable>,
}

pub struct LoanPoolMarkerCollateralModel {
    pub marker_address: Seq<char>,
    pub marker_denom: Seq<char>,
    pub share_count: u128,
    pub original_contributor: Seq<char>,
    pub removed_permissions: Seq<AccessGrantSerializableModel>,
}

impl View for LoanPoolMarkerCollateral {
    type V = LoanPoolMarkerCollateralModel;

    open spec fn view(&self) -> LoanPoolMarkerCollateralModel {
        LoanPoolMarkerCollateralModel {
            marker_address: self.marker_address@,
            marker_denom: self.marker_denom@,
            share_count: self.share_count,
            original_contributor: self.original_contributor@,
            removed_permissions: serializable_grants_model(self.removed_permissions@),
        }
    }
}

impl Clone for LoanPoolMarkerCollateral {
    fn clone(&self) -> (r: Self)
        ensures
            r@ == self@,
    {
        let mut removed: Vec<AccessGrantSerializable> = Vec::new();
        for i in 0..self.removed_permissions.len()
            invariant
                removed@.len() == i,
                forall|j: int| 0 <= j < i ==> #[trigger] removed@[j]@ == self.removed_permissions@[j]@,
        {
            removed.push(self.removed_permissions[i].clone());
        }
        let r = LoanPoolMarkerCollateral {
            marker_address: self.marker_address.clone(),
            marker_denom: self.marker_denom.clone(),
            share_count: self.share_count,
            original_contributor: self.original_contributor.clone(),
            removed_permissions: removed,
        };
        assert(serializable_grants_model(r.removed_permissions@) =~= serializable_grants_model(
            self.removed_permissions@,
        ));
        r
    }
}

impl LoanPoolMarkerCollateral {
    /// Collateral for a marker, recording the grants taken from its holders.
    pub fn new(
        marker_address: String,
        marker_denom: String,
        share_count: u128,
        original_owner: String,
        removed_permissions: Vec<AccessGrant>,
    ) -> (r: Self)
        requires
            forall|i: int| 0 <= i < removed_permissions@.len() ==> grant_is_valid(#[trigger] removed_permissions@[i]@),
        ensures
            r@.marker_address == marker_address@,
            r@.marker_denom == marker_denom@,
            r@.share_count == share_count,
            r@.original_contributor == original_owner@,
            r@.removed_permissions == grants_model(removed_permissions@).map_values(
                |g: AccessGrantModel| serializable_of(g),
            ),
    {
        let ghost given = grants_model(removed_permissions@);
        let ghost raw = removed_permissions@;
        let mut removed: Vec<AccessGrantSerializable> = Vec::new();
        let total = removed_permissions.len();
        let mut rest = removed_permissions;
        let mut i: usize = 0;
        while rest.len() > 0
            invariant
                i + rest@.len() == raw.len(),
                raw.len() == total,
                rest@ == raw.skip(i as int),
                given == grants_model(raw),
                forall|j: int| 0 <= j < raw.len() ==> grant_is_valid(#[trigger] raw[j]@),
                removed@.len() == i,
                forall|j: int| 0 <= j < i ==> #[trigger] removed@[j]@ == serializable_of(given[j]),
            decreases rest@.len(),
        {
            let g = rest.remove(0);
            proof {
                assert(g == raw[i as int]);
                assert(rest@ =~= raw.skip(i + 1));
            }
            removed.push(AccessGrantSerializable::from_grant(g));
            i = i + 1;
        }
        let r = LoanPoolMarkerCollateral {
            marker_address,
            marker_denom,
            share_count,
            original_contributor: original_owner,
            removed_permissions: removed,
        };
        assert(r@.removed_permissions =~= given.map_values(|g: AccessGrantModel| serializable_of(g)));
        r
    }
}

/// The collaterals of a list, each as a model.
pub open spec fn collaterals_model(s: Seq<LoanPoolMarkerCollateral>) -> Seq<LoanPoolMarkerCollateralModel> {
    s.map_values(|c: LoanPoolMarkerCollateral| c@)
}

/// The collaterals held by the contract.
#[derive(Debug, PartialEq, Eq)]
pub struct LoanPoolMarkers {
    pub collaterals: Vec<LoanPoolMarkerCollateral>,
}

impl LoanPoolMarkers {
    pub fn new(collaterals: Vec<LoanPoolMarkerCollateral>) -> (r: Self)
        ensures
            r.collaterals == collaterals,
    {
        LoanPoolMarkers { collaterals }
    }
}

/// A loan pool being added: its collateral and the messages that take its
/// rights.
#[derive(Debug, PartialEq, Eq)]
pub struct LoanPoolAdditionData {
    pub collateral: LoanPoolMarkerCollateral,
    pub messages: Vec<ProvMsg>,
}

/// A loan pool being removed: its collateral and the messages that give its
/// rights back.
#[derive(Debug, PartialEq, Eq)]
pub struct LoanPoolRemovalData {
    pub collateral: LoanPoolMarkerCollateral,
    pub messages: Vec<ProvMsg>,
}

} // verus!
