//! Markers as the chain would report them, for exercising the loan pool
//! messages.

use vstd::prelude::*;
use crate::common::messages::{
    ACCESS_ADMIN, ACCESS_BURN, ACCESS_DELETE, ACCESS_DEPOSIT, ACCESS_MINT, ACCESS_WITHDRAW, AccessGrant,
    AccessGrantModel, MARKER_STATUS_ACTIVE, MARKER_TYPE_COIN, grants_model,
};
use crate::common::security::{Coin, CoinModel, coins_model};
use crate::common::text::{decimal_text, u128_text};
use crate::util::provenance_utilities::{BaseAccount, MarkerAccount};
use crate::util::testing::MOCK_CONTRACT_ADDR;

verus! {

pub const DEFAULT_MARKER_ADDRESS: &'static str = "marker_address";

pub const DEFAULT_MARKER_HOLDINGS: u128 = 100;

pub const DEFAULT_MARKER_DENOM: &'static str = "markerdenom";

/// A marker with its account, holdings, grants and supply.
pub struct MockMarker {
    pub address: String,
    pub coins: Vec<Coin>,
    pub account_number: u64,
    pub sequence: u64,
    pub manager: String,
    pub permissions: Vec<AccessGrant>,
    pub status: i32,
    pub denom: String,
    pub total_supply: u128,
    pub marker_type: i32,
    pub supply_fixed: bool,
}

/// The rights an owner holds on a marker: admin, burn, delete, deposit,
/// mint and withdraw.
pub open spec fn owner_permissions() -> Seq<i32> {
    seq![ACCESS_ADMIN, ACCESS_BURN, ACCESS_DELETE, ACCESS_DEPOSIT, ACCESS_MINT, ACCESS_WITHDRAW]
}

/// The rights asked of the contract: admin and withdraw.
pub open spec fn contract_permissions() -> Seq<i32> {
    seq![ACCESS_ADMIN, ACCESS_WITHDRAW]
}

fn grant(address: String, permissions: Vec<i32>) -> (g: AccessGrant)
    ensures
        g@ == (AccessGrantModel { address: address@, permissions: permissions@ }),
{
    AccessGrant { address, permissions }
}

fn contract_grant_rights() -> (v: Vec<i32>)
    ensures
        v@ == contract_permissions(),
{
    let mut v: Vec<i32> = Vec::new();
    v.push(ACCESS_ADMIN);
    v.push(ACCESS_WITHDRAW);
    assert(v@ =~= contract_permissions());
    v
}

/// Every field of a marker but its grants: the default address, 100 of
/// the denomination held and in supply, account number 50, sequence 0, no
/// manager, an active coin marker with a fixed supply or not.
pub open spec fn standard_marker(m: MockMarker, denom: Seq<char>, supply_fixed: bool) -> bool {
    &&& m.address@ == DEFAULT_MARKER_ADDRESS@
    &&& coins_model(m.coins@) == seq![CoinModel { denom: denom, amount: DEFAULT_MARKER_HOLDINGS }]
    &&& m.account_number == 50
    &&& m.sequence == 0
    &&& m.manager@.len() == 0
    &&& m.status == MARKER_STATUS_ACTIVE
    &&& m.denom@ == denom
    &&& m.total_supply == DEFAULT_MARKER_HOLDINGS
    &&& m.marker_type == MARKER_TYPE_COIN
    &&& m.supply_fixed == supply_fixed
}

/// The denomination asked for, or the default one.
pub open spec fn denom_or_default(denom: Option<String>) -> Seq<char> {
    match denom {
        Some(d) => d@,
        None => DEFAULT_MARKER_DENOM@,
    }
}

impl Default for MockMarker {
    /// The default marker: of denomination `markerdenom`, with a fixed
    /// supply.
    fn default() -> (m: Self)
        ensures
            standard_marker(m, DEFAULT_MARKER_DENOM@, true),
            grants_model(m.permissions@) == seq![
                AccessGrantModel { address: MOCK_CONTRACT_ADDR@, permissions: owner_permissions() },
            ],
    {
        MockMarker::new(true, DEFAULT_MARKER_DENOM.to_owned())
    }
}

impl MockMarker {
    /// An active coin marker of a denomination holding 100 of it, with a
    /// fixed supply or not, on which the test contract holds the owner's
    /// rights.
    pub fn new(supply_fixed: bool, denom_str: String) -> (m: Self)
        ensures
            m.address@ == DEFAULT_MARKER_ADDRESS@,
            coins_model(m.coins@) == seq![CoinModel { denom: denom_str@, amount: DEFAULT_MARKER_HOLDINGS }],
            m.account_number == 50,
            m.sequence == 0,
            m.manager@.len() == 0,
            grants_model(m.permissions@) == seq![
                AccessGrantModel { address: MOCK_CONTRACT_ADDR@, permissions: owner_permissions() },
            ],
            m.status == MARKER_STATUS_ACTIVE,
            m.denom@ == denom_str@,
            m.total_supply == DEFAULT_MARKER_HOLDINGS,
            m.marker_type == MARKER_TYPE_COIN,
            m.supply_fixed == supply_fixed,
    {
        let mut coins: Vec<Coin> = Vec::new();
        coins.push(Coin { denom: denom_str.clone(), amount: DEFAULT_MARKER_HOLDINGS });
        assert(coins_model(coins@) =~= seq![CoinModel { denom: denom_str@, amount: DEFAULT_MARKER_HOLDINGS }]);
        let mut permissions: Vec<AccessGrant> = Vec::new();
        permissions.push(grant(MOCK_CONTRACT_ADDR.to_owned(), MockMarker::get_default_owner_permissions()));
        assert(grants_model(permissions@) =~= seq![
            AccessGrantModel { address: MOCK_CONTRACT_ADDR@, permissions: owner_permissions() },
        ]);
        MockMarker {
            address: DEFAULT_MARKER_ADDRESS.to_owned(),
            coins,
            account_number: 50,
            sequence: 0,
            manager: String::new(),
            permissions,
            status: MARKER_STATUS_ACTIVE,
            denom: denom_str,
            total_supply: DEFAULT_MARKER_HOLDINGS,
            marker_type: MARKER_TYPE_COIN,
            supply_fixed,
        }
    }

    /// A marker owned by an address, on which the test contract holds the
    /// admin and withdraw rights.
    pub fn new_owned_mock_marker(owner_address: String) -> (m: Self)
        ensures
            standard_marker(m, DEFAULT_MARKER_DENOM@, true),
            grants_model(m.permissions@) == seq![
                AccessGrantModel { address: owner_address@, permissions: owner_permissions() },
                AccessGrantModel { address: MOCK_CONTRACT_ADDR@, permissions: contract_permissions() },
            ],
    {
        MockMarker::new_owned_mock_marker_supply_variable(owner_address, None, true)
    }

    /// A marker owned by an address, of a denomination (the default one
    /// when none is given), with a fixed supply or not.
    pub fn new_owned_mock_marker_supply_variable(owner_address: String, denom: Option<String>, supply_fixed: bool) -> (m:
        Self)
        ensures
            standard_marker(m, denom_or_default(denom), supply_fixed),
            grants_model(m.permissions@) == seq![
                AccessGrantModel { address: owner_address@, permissions: owner_permissions() },
                AccessGrantModel { address: MOCK_CONTRACT_ADDR@, permissions: contract_permissions() },
            ],
    {
        let denom_str = match denom {
            Some(d) => d,
            None => DEFAULT_MARKER_DENOM.to_owned(),
        };
        let mut m = MockMarker::new(supply_fixed, denom_str);
        let mut permissions: Vec<AccessGrant> = Vec::new();
        permissions.push(grant(owner_address, MockMarker::get_default_owner_permissions()));
        permissions.push(grant(MOCK_CONTRACT_ADDR.to_owned(), contract_grant_rights()));
        m.permissions = permissions;
        assert(grants_model(m.permissions@) =~= seq![
            AccessGrantModel { address: owner_address@, permissions: owner_permissions() },
            AccessGrantModel { address: MOCK_CONTRACT_ADDR@, permissions: contract_permissions() },
        ]);
        m
    }

    /// A marker owned by an address.
    pub fn new_owned_marker(owner_address: String) -> (m: MockMarker)
        ensures
            standard_marker(m, DEFAULT_MARKER_DENOM@, true),
            grants_model(m.permissions@) == seq![
                AccessGrantModel { address: owner_address@, permissions: owner_permissions() },
                AccessGrantModel { address: MOCK_CONTRACT_ADDR@, permissions: contract_permissions() },
            ],
    {
        MockMarker::new_owned_mock_marker(owner_address)
    }

    /// A marker owned by an address, of a denomination, with a fixed supply
    /// or not.
    pub fn new_owned_marker_custom(owner_address: String, denom_str: Option<String>, supply_fixed: bool) -> (m:
        MockMarker)
        ensures
            standard_marker(m, denom_or_default(denom_str), supply_fixed),
            grants_model(m.permissions@) == seq![
                AccessGrantModel { address: owner_address@, permissions: owner_permissions() },
                AccessGrantModel { address: MOCK_CONTRACT_ADDR@, permissions: contract_permissions() },
            ],
    {
        MockMarker::new_owned_mock_marker_supply_variable(owner_address, denom_str, supply_fixed).to_marker()
    }

    /// The same marker.
    pub fn to_marker(self) -> (m: MockMarker)
        ensures
            m == self,
    {
        self
    }

    /// The marker as the chain's marker query reports it: its account at
    /// its address, its grants, status, denomination and supply in decimal.
    pub fn to_marker_account(self) -> (a: MarkerAccount)
        ensures
            a.base_account matches Some(b) && b.address@ == self.address@ && b.account_number == self.account_number
                && b.sequence == self.sequence,
            a.manager@ == self.manager@,
            grants_model(a.access_control@) == grants_model(self.permissions@),
            a.status == self.status,
            a.denom@ == self.denom@,
            a.supply@ == decimal_text(self.total_supply as nat),
            a.marker_type == self.marker_type,
            a.supply_fixed == self.supply_fixed,
            !a.allow_governance_control,
            !a.allow_forced_transfer,
            a.required_attributes@.len() == 0,
    {
        let supply = u128_text(self.total_supply);
        MarkerAccount {
            base_account: Some(
                BaseAccount { address: self.address, account_number: self.account_number, sequence: self.sequence },
            ),
            manager: self.manager,
            access_control: self.permissions,
            status: self.status,
            denom: self.denom,
            supply,
            marker_type: self.marker_type,
            supply_fixed: self.supply_fixed,
            allow_governance_control: false,
            allow_forced_transfer: false,
            required_attributes: Vec::new(),
        }
    }

    /// The rights an owner holds on a marker.
    pub fn get_default_owner_permissions() -> (v: Vec<i32>)
        ensures
            v@ == owner_permissions(),
    {
        let mut v: Vec<i32> = Vec::new();
        v.push(ACCESS_ADMIN);
        v.push(ACCESS_BURN);
        v.push(ACCESS_DELETE);
        v.push(ACCESS_DEPOSIT);
        v.push(ACCESS_MINT);
        v.push(ACCESS_WITHDRAW);
        assert(v@ =~= owner_permissions());
        v
    }
}

} // verus!
