//! The contract's persistent state, held as plain values: one table per
//! storage map of the contract, walked in ascending key order.

pub mod available_capital;
pub mod commits;
pub mod keyed_map;
pub mod loan_pool_collateral;
pub mod paid_in_capital;
pub mod remaining_securities;
pub mod securities;
pub mod state;
pub mod whitelist_contributors_store;
use vstd::prelude::*;
use crate::common::collateral::{LoanPoolMarkerCollateral, LoanPoolMarkerCollateralModel};
use crate::common::security::{
    Coin, CoinModel, Security, SecurityCommitment, SecurityCommitmentModel, SecurityModel, coins_model,
    commitments_model, strings_model,
};
use crate::execute::settlement::commitment::{Commitment, CommitmentModel};
use crate::storage::keyed_map::KeyedMap;
use crate::storage::state::{State, StateModel};

verus! {

/// The name and version recorded for the contract at instantiation.
#[derive(Debug, PartialEq, Eq)]
pub struct ContractVersion {
    pub contract: String,
    pub version: String,
}

/// A record of the table that paid-in capital and loan pool collateral
/// share: both maps of the contract are kept under one storage prefix, so a
/// key holds at most one record of either kind, and reading one kind where
/// the other is stored fails.
#[derive(Debug, PartialEq, Eq)]
pub enum CapitalRecord {
    PaidInCapital(Vec<SecurityCommitment>),
    Collateral(LoanPoolMarkerCollateral),
}

pub enum CapitalRecordModel {
    PaidInCapital(Seq<SecurityCommitmentModel>),
    Collateral(LoanPoolMarkerCollateralModel),
}

impl View for CapitalRecord {
    type V = CapitalRecordModel;

    open spec fn view(&self) -> CapitalRecordModel {
        match self {
            CapitalRecord::PaidInCapital(v) => CapitalRecordModel::PaidInCapital(commitments_model(v@)),
            CapitalRecord::Collateral(c) => CapitalRecordModel::Collateral(c@),
        }
    }
}

/// Everything the contract stores, as maps from keys to models.
#[verifier::ext_equal]
pub struct StorageModel {
    pub state: Option<StateModel>,
    pub contract_version: Option<(Seq<char>, Seq<char>)>,
    pub commits: Map<Seq<char>, CommitmentModel>,
    pub capital: Map<Seq<char>, CapitalRecordModel>,
    pub securities: Map<Seq<char>, SecurityModel>,
    pub remaining: Map<Seq<char>, u128>,
    pub available: Map<Seq<char>, Seq<CoinModel>>,
    pub whitelist: Option<Seq<Seq<char>>>,
}

/// Everything the contract stores.
pub struct ContractStorage {
    pub state: Option<State>,
    pub contract_version: Option<ContractVersion>,
    pub commits: KeyedMap<Commitment>,
    pub capital: KeyedMap<CapitalRecord>,
    pub securities: KeyedMap<Security>,
    pub remaining_securities: KeyedMap<u128>,
    pub available_capital: KeyedMap<Vec<Coin>>,
    pub whitelist: Option<Vec<String>>,
}

impl ContractStorage {
    /// Empty storage, as a contract has before instantiation.
    pub fn new() -> (s: Self)
        ensures
            s.wf(),
            s.state is None,
            s.contract_version is None,
            s.whitelist is None,
            s.commits_model() == Map::<Seq<char>, CommitmentModel>::empty(),
            s.capital_model() == Map::<Seq<char>, CapitalRecordModel>::empty(),
            s.securities_model() == Map::<Seq<char>, SecurityModel>::empty(),
            s.remaining_model() == Map::<Seq<char>, u128>::empty(),
            s.available_model() == Map::<Seq<char>, Seq<CoinModel>>::empty(),
    {
        let s = ContractStorage {
            state: None,
            contract_version: None,
            commits: KeyedMap::new(),
            capital: KeyedMap::new(),
            securities: KeyedMap::new(),
            remaining_securities: KeyedMap::new(),
            available_capital: KeyedMap::new(),
            whitelist: None,
        };
        assert(s.commits_model() =~= Map::<Seq<char>, CommitmentModel>::empty());
        assert(s.capital_model() =~= Map::<Seq<char>, CapitalRecordModel>::empty());
        assert(s.securities_model() =~= Map::<Seq<char>, SecurityModel>::empty());
        assert(s.remaining_model() =~= Map::<Seq<char>, u128>::empty());
        assert(s.available_model() =~= Map::<Seq<char>, Seq<CoinModel>>::empty());
        s
    }

    /// The stored values as models.
    pub open spec fn model(&self) -> StorageModel {
        StorageModel {
            state: match self.state {
                Some(s) => Some(s@),
                None => None,
            },
            contract_version: match self.contract_version {
                Some(v) => Some((v.contract@, v.version@)),
                None => None,
            },
            commits: self.commits_model(),
            capital: self.capital_model(),
            securities: self.securities_model(),
            remaining: self.remaining_model(),
            available: self.available_model(),
            whitelist: match self.whitelist {
                Some(v) => Some(strings_model(v@)),
                None => None,
            },
        }
    }

    /// Every table is in ascending key order, each commitment is stored
    /// under its limited partner, and each collateral under its marker's
    /// address.
    pub open spec fn wf(&self) -> bool {
        &&& self.commits.wf()
        &&& self.capital.wf()
        &&& self.securities.wf()
        &&& self.remaining_securities.wf()
        &&& self.available_capital.wf()
        &&& forall|k: Seq<char>| #[trigger] self.commits_model().contains_key(k)
            ==> self.commits_model()[k].lp == k
        &&& forall|k: Seq<char>| #[trigger] self.capital_model().contains_key(k)
            ==> (self.capital_model()[k] matches CapitalRecordModel::Collateral(c)
                ==> c.marker_address == k)
    }

    /// Commitments by limited partner.
    pub open spec fn commits_model(&self) -> Map<Seq<char>, CommitmentModel> {
        self.commits.map().map_values(|c: Commitment| c@)
    }

    /// The shared paid-in capital and collateral records by address.
    pub open spec fn capital_model(&self) -> Map<Seq<char>, CapitalRecordModel> {
        self.capital.map().map_values(|c: CapitalRecord| c@)
    }

    /// Securities by name.
    pub open spec fn securities_model(&self) -> Map<Seq<char>, SecurityModel> {
        self.securities.map().map_values(|s: Security| s@)
    }

    /// Remaining amount of each security, by name.
    pub open spec fn remaining_model(&self) -> Map<Seq<char>, u128> {
        self.remaining_securities.map()
    }

    /// Capital available from each limited partner.
    pub open spec fn available_model(&self) -> Map<Seq<char>, Seq<CoinModel>> {
        self.available_capital.map().map_values(|v: Vec<Coin>| coins_model(v@))
    }
}

} // verus!
