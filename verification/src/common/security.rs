//! Securities offered by the general partner and the commitments made on them.

use vstd::prelude::*;

verus! {

/// An amount of a denomination.
#[derive(Debug, PartialEq, Eq)]
pub struct Coin {
    pub denom: String,
    pub amount: u128,
}

/// A coin as a denomination and an amount.
pub struct CoinModel {
    pub denom: Seq<char>,
    pub amount: u128,
}

impl View for Coin {
    type V = CoinModel;

    open spec fn view(&self) -> CoinModel {
        CoinModel { denom: self.denom@, amount: self.amount }
    }
}

impl Clone for Coin {
    fn clone(&self) -> (r: Self)
        ensures
            r@ == self@,
    {
        Coin { denom: self.denom.clone(), amount: self.amount }
    }
}

impl Coin {
    /// A coin of the given amount and denomination.
    pub fn new(amount: u128, denom: &str) -> (c: Self)
        ensures
            c@ == (CoinModel { denom: denom@, amount }),
    {
        Coin { denom: denom.to_owned(), amount }
    }
}

/// The coins of a list, each as a model.
pub open spec fn coins_model(s: Seq<Coin>) -> Seq<CoinModel> {
    s.map_values(|c: Coin| c@)
}

/// Copies a list of coins.
pub fn clone_coins(v: &Vec<Coin>) -> (r: Vec<Coin>)
    ensures
        coins_model(r@) == coins_model(v@),
{
    let mut r: Vec<Coin> = Vec::new();
    for i in 0..v.len()
        invariant
            r@.len() == i,
            forall|j: int| 0 <= j < i ==> #[trigger] r@[j]@ == v@[j]@,
    {
        r.push(v[i].clone());
    }
    assert(coins_model(r@) =~= coins_model(v@));
    r
}

#[derive(Debug, PartialEq, Eq, Structural, Clone, Copy)]
pub struct FundSecurity {}

#[derive(Debug, PartialEq, Eq, Structural, Clone, Copy)]
pub struct PrimarySecurity {}

#[derive(Debug, PartialEq, Eq, Structural, Clone, Copy)]
pub struct TrancheSecurity {}

/// The kind of a security.
#[derive(Debug, PartialEq, Eq, Structural, Clone, Copy)]
pub enum SecurityType {
    Fund(FundSecurity),
    Primary(PrimarySecurity),
    Tranche(TrancheSecurity),
}

/// A security that the general partner offers.
#[derive(Debug, PartialEq, Eq)]
pub struct Security {
    pub name: String,
    pub amount: u128,
    pub security_type: SecurityType,
    pub minimum_amount: u128,
    pub price_per_unit: Coin,
}

pub struct SecurityModel {
    pub name: Seq<char>,
    pub amount: u128,
    pub security_type: SecurityType,
    pub minimum_amount: u128,
    pub price_per_unit: CoinModel,
}

impl View for Security {
    type V = SecurityModel;

    open spec fn view(&self) -> SecurityModel {
        SecurityModel {
            name: self.name@,
            amount: self.amount,
            security_type: self.security_type,
            minimum_amount: self.minimum_amount,
            price_per_unit: self.price_per_unit@,
        }
    }
}

impl Clone for Security {
    fn clone(&self) -> (r: Self)
        ensures
            r@ == self@,
    {
        Security {
            name: self.name.clone(),
            amount: self.amount,
            security_type: self.security_type,
            minimum_amount: self.minimum_amount,
            price_per_unit: self.price_per_unit.clone(),
        }
    }
}

/// Whether two securities are the same in every field.
pub fn security_equal(a: &Security, b: &Security) -> (r: bool)
    ensures
        r == (a@ == b@),
{
    a.name == b.name && a.amount == b.amount && a.security_type == b.security_type && a.minimum_amount
        == b.minimum_amount && a.price_per_unit.denom == b.price_per_unit.denom && a.price_per_unit.amount
        == b.price_per_unit.amount
}

/// The securities of a list, each as a model.
pub open spec fn securities_model(s: Seq<Security>) -> Seq<SecurityModel> {
    s.map_values(|c: Security| c@)
}

/// An amount of one security, named.
#[derive(Debug, PartialEq, Eq)]
pub struct SecurityCommitment {
    pub name: String,
    pub amount: u128,
}

pub struct SecurityCommitmentModel {
    pub name: Seq<char>,
    pub amount: u128,
}

impl View for SecurityCommitment {
    type V = SecurityCommitmentModel;

    open spec fn view(&self) -> SecurityCommitmentModel {
        SecurityCommitmentModel { name: self.name@, amount: self.amount }
    }
}

impl Clone for SecurityCommitment {
    fn clone(&self) -> (r: Self)
        ensures
            r@ == self@,
    {
        SecurityCommitment { name: self.name.clone(), amount: self.amount }
    }
}

/// The security commitments of a list, each as a model.
pub open spec fn commitments_model(s: Seq<SecurityCommitment>) -> Seq<SecurityCommitmentModel> {
    s.map_values(|c: SecurityCommitment| c@)
}

/// The names of a list of security commitments, in order.
pub open spec fn commitment_names(s: Seq<SecurityCommitmentModel>) -> Seq<Seq<char>> {
    s.map_values(|c: SecurityCommitmentModel| c.name)
}

/// Copies a list of security commitments.
pub fn clone_commitments(v: &Vec<SecurityCommitment>) -> (r: Vec<SecurityCommitment>)
    ensures
        commitments_model(r@) == commitments_model(v@),
{
    let mut r: Vec<SecurityCommitment> = Vec::new();
    for i in 0..v.len()
        invariant
            r@.len() == i,
            forall|j: int| 0 <= j < i ==> #[trigger] r@[j]@ == v@[j]@,
    {
        r.push(v[i].clone());
    }
    assert(commitments_model(r@) =~= commitments_model(v@));
    r
}

/// Compares two lists of security commitments entry by entry.
pub fn commitments_equal(a: &Vec<SecurityCommitment>, b: &Vec<SecurityCommitment>) -> (r: bool)
    ensures
        r == (commitments_model(a@) == commitments_model(b@)),
{
    if a.len() != b.len() {
        proof {
            if commitments_model(a@) == commitments_model(b@) {
                assert(commitments_model(a@).len() == a@.len());
            }
        }
        return false;
    }
    for i in 0..a.len()
        invariant
            a@.len() == b@.len(),
            forall|j: int| 0 <= j < i ==> #[trigger] a@[j]@ == b@[j]@,
    {
        if a[i].name != b[i].name || a[i].amount != b[i].amount {
            proof {
                assert(commitments_model(a@)[i as int] == a@[i as int]@);
                assert(commitments_model(b@)[i as int] == b@[i as int]@);
            }
            return false;
        }
    }
    assert(commitments_model(a@) =~= commitments_model(b@));
    true
}

/// A general partner's acceptance of a limited partner's commitment.
#[derive(Debug, PartialEq, Eq)]
pub struct AcceptedCommitment {
    pub lp: String,
    pub securities: Vec<SecurityCommitment>,
}

/// Denoms of loan pool markers being contributed.
#[derive(Debug, PartialEq, Eq)]
pub struct ContributeLoanPools {
    pub markers: Vec<String>,
}

/// Denoms of loan pool markers being withdrawn by the general partner.
#[derive(Debug, PartialEq, Eq)]
pub struct WithdrawLoanPools {
    pub markers: Vec<String>,
}

/// Addresses allowed to contribute loan pools.
#[derive(Debug, PartialEq, Eq)]
pub struct LoanPoolContributors {
    pub addresses: Vec<String>,
}

/// Addresses to take off the list of loan pool contributors.
#[derive(Debug, PartialEq, Eq)]
pub struct RemoveLoanPoolContributors {
    pub addresses: Vec<String>,
}

/// Copies a list of strings.
pub fn clone_strings(v: &Vec<String>) -> (r: Vec<String>)
    ensures
        strings_model(r@) == strings_model(v@),
{
    let mut r: Vec<String> = Vec::new();
    for i in 0..v.len()
        invariant
            r@.len() == i,
            forall|j: int| 0 <= j < i ==> #[trigger] r@[j]@ == v@[j]@,
    {
        r.push(v[i].clone());
    }
    assert(strings_model(r@) =~= strings_model(v@));
    r
}

/// The strings of a list, each as its characters.
pub open spec fn strings_model(s: Seq<String>) -> Seq<Seq<char>> {
    s.map_values(|x: String| x@)
}

impl LoanPoolContributors {
    /// The whitelisted addresses as text.
    pub fn human_whitelist(&self) -> (r: Vec<String>)
        ensures
            strings_model(r@) == strings_model(self.addresses@),
    {
        clone_strings(&self.addresses)
    }
}

} // verus!
