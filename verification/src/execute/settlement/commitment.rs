//! A limited partner's commitment to buy securities, and its life cycle.

use vstd::prelude::*;
use crate::common::security::{SecurityCommitment, SecurityCommitmentModel, clone_commitments, commitments_model};

verus! {

/// Where a commitment stands.
#[derive(Debug, PartialEq, Eq, Structural, Clone, Copy)]
pub enum CommitmentState {
    PENDING,
    ACCEPTED,
    SETTLED,
}

/// A limited partner's commitment.
#[derive(Debug, PartialEq, Eq)]
pub struct Commitment {
    pub lp: String,
    pub commitments: Vec<SecurityCommitment>,
    pub state: CommitmentState,
    pub settlment_date: Option<u64>,
}

pub struct CommitmentModel {
    pub lp: Seq<char>,
    pub commitments: Seq<SecurityCommitmentModel>,
    pub state: CommitmentState,
    pub settlment_date: Option<u64>,
}

impl View for Commitment {
    type V = CommitmentModel;

    open spec fn view(&self) -> CommitmentModel {
        CommitmentModel {
            lp: self.lp@,
            commitments: commitments_model(self.commitments@),
            state: self.state,
            settlment_date: self.settlment_date,
        }
    }
}

impl Clone for Commitment {
    fn clone(&self) -> (r: Self)
        ensures
            r@ == self@,
    {
        Commitment {
            lp: self.lp.clone(),
            commitments: clone_commitments(&self.commitments),
            state: self.state,
            settlment_date: self.settlment_date,
        }
    }
}

/// The same commitments with every amount zero.
pub open spec fn zeroed(s: Seq<SecurityCommitmentModel>) -> Seq<SecurityCommitmentModel> {
    s.map_values(|c: SecurityCommitmentModel| SecurityCommitmentModel { name: c.name, amount: 0 })
}

impl Commitment {
    /// A new pending commitment with no settlement date.
    pub fn new(lp: String, commitments: Vec<SecurityCommitment>) -> (c: Self)
        ensures
            c.lp == lp,
            c.commitments == commitments,
            c.state == CommitmentState::PENDING,
            c.settlment_date is None,
    {
        Commitment { lp, commitments, state: CommitmentState::PENDING, settlment_date: None }
    }

    /// Sets every committed amount to zero.
    pub fn clear_amounts(&mut self)
        ensures
            final(self)@ == (CommitmentModel { commitments: zeroed(old(self)@.commitments), ..old(self)@ }),
    {
        let n = self.commitments.len();
        for i in 0..n
            invariant
                n == self.commitments@.len(),
                self.lp == old(self).lp,
                self.state == old(self).state,
                self.settlment_date == old(self).settlment_date,
                self.commitments@.len() == old(self).commitments@.len(),
                forall|j: int| 0 <= j < i ==> #[trigger] self.commitments@[j]@ == (SecurityCommitmentModel {
                    name: old(self).commitments@[j]@.name,
                    amount: 0,
                }),
                forall|j: int| i <= j < n ==> #[trigger] self.commitments@[j] == old(self).commitments@[j],
        {
            let name = self.commitments[i].name.clone();
            self.commitments.set(i, SecurityCommitment { name, amount: 0 });
        }
        assert(commitments_model(self.commitments@) =~= zeroed(commitments_model(old(self).commitments@)));
    }
}

} // verus!
