//! What can go wrong when the contract handles a message.

use vstd::prelude::*;
use crate::common::response::Response;
use crate::common::text::concat;

verus! {

/// Failures of the storage and message layer.
#[derive(Debug, PartialEq, Eq)]
pub enum StdError {
    /// A failure described by a message.
    GenericErr { msg: String },
    /// No record of the given kind was stored under the key asked for.
    NotFound { kind: String },
    /// A text could not be read as a value of the target type.
    ParseErr { target_type: String, msg: String },
}

impl Clone for StdError {
    fn clone(&self) -> (r: Self)
        ensures
            r == *self,
    {
        match self {
            StdError::GenericErr { msg } => StdError::GenericErr { msg: msg.clone() },
            StdError::NotFound { kind } => StdError::NotFound { kind: kind.clone() },
            StdError::ParseErr { target_type, msg } => StdError::ParseErr {
                target_type: target_type.clone(),
                msg: msg.clone(),
            },
        }
    }
}

/// The text of a storage-layer failure.
pub open spec fn std_error_text(e: StdError) -> Seq<char> {
    match e {
        StdError::GenericErr { msg } => "Generic error: "@ + msg@,
        StdError::NotFound { kind } => kind@ + " not found"@,
        StdError::ParseErr { target_type, msg } => "Error parsing into type "@ + target_type@ + ": "@
            + msg@,
    }
}

impl StdError {
    /// The text of this failure.
    pub fn message(&self) -> (s: String)
        ensures
            s@ == std_error_text(*self),
    {
        match self {
            StdError::GenericErr { msg } => concat("Generic error: ", msg.as_str()),
            StdError::NotFound { kind } => concat(kind.as_str(), " not found"),
            StdError::ParseErr { target_type, msg } => {
                let a = concat("Error parsing into type ", target_type.as_str());
                let b = concat(a.as_str(), ": ");
                concat(b.as_str(), msg.as_str())
            },
        }
    }
}

/// Why the contract refused a message.
#[derive(Debug, PartialEq, Eq)]
pub enum ContractError {
    Std(StdError),
    Unauthorized {},
    InvalidSecurityList {},
    EmptySecurityList {},
    EmptySecurityCommitmentList {},
    InvalidSecurityCommitment {},
    InvalidSecurityCommitmentAmount {},
    EmptyAcceptedCommitmentList {},
    AcceptedAndProposalMismatch {},
    InvalidCommitmentState {},
    CommitmentNotMet {},
    SettlmentExpired {},
    AlreadySettled {},
    AlreadyAccepted {},
    MissingFunds {},
    FundMismatch {},
    UnexpectedFunds {},
    InvalidCapitalDenom {},
    InvalidSecurityPriceDenom {},
    ExcessiveDeposit {},
    EmptyDeposit {},
    CommitmentExceedsRemainingSecurityAmount {},
    CommitmentAlreadyExists {},
    CommitmentAlreadyAccepted {},
    ContractNameMismatch {},
    InvalidVersion {},
    SemVer(String),
    NotInWhitelist {},
    InvalidMarker { message: String },
    InvalidAddress { message: String },
}

/// The text of a refusal.
pub open spec fn contract_error_text(e: ContractError) -> Seq<char> {
    match e {
        ContractError::Std(e) => std_error_text(e),
        ContractError::Unauthorized {} => "Unauthorized"@,
        ContractError::InvalidSecurityList {} => "Invalid security list"@,
        ContractError::EmptySecurityList {} => "Empty security list"@,
        ContractError::EmptySecurityCommitmentList {} => "Empty security list"@,
        ContractError::InvalidSecurityCommitment {} => "Invalid security commitment"@,
        ContractError::InvalidSecurityCommitmentAmount {} => "Invalid security commitment amount"@,
        ContractError::EmptyAcceptedCommitmentList {} => "Empty accepted commitment list"@,
        ContractError::AcceptedAndProposalMismatch {} => "The accepted commitment does not match the proposed commitment"@,
        ContractError::InvalidCommitmentState {} => "One or more commitments are in an invalid state"@,
        ContractError::CommitmentNotMet {} => "Commitment has not been met"@,
        ContractError::SettlmentExpired {} => "Settlment time for this commitment has expired"@,
        ContractError::AlreadySettled {} => "This action cannot be performed on a settled commitment"@,
        ContractError::AlreadyAccepted {} => "This action cannot be performed on a accepted commitment"@,
        ContractError::MissingFunds {} => "Missing required funds"@,
        ContractError::FundMismatch {} => "Mismatch in the expected number of funds and the actual sent funds"@,
        ContractError::UnexpectedFunds {} => "Unexpected funds were added to this transaction"@,
        ContractError::InvalidCapitalDenom {} => "The capital denom is invalid"@,
        ContractError::InvalidSecurityPriceDenom {} => "All security denoms must match the capital denom"@,
        ContractError::ExcessiveDeposit {} => "The deposit exceeds the commitment amount"@,
        ContractError::EmptyDeposit {} => "The deposit is empty"@,
        ContractError::CommitmentExceedsRemainingSecurityAmount {} => "The commitment will exceed the remaining amount of a security"@,
        ContractError::CommitmentAlreadyExists {} => "A commitment by this lp already exists"@,
        ContractError::CommitmentAlreadyAccepted {} => "A commitment by this lp has already been accepted"@,
        ContractError::ContractNameMismatch {} => "Mismatch in the migrating contract name"@,
        ContractError::InvalidVersion {} => "Invalid migration version"@,
        ContractError::NotInWhitelist {} => "Loan pool contributor not in whitelist"@,
        ContractError::SemVer(m) => "Semver parsing error: "@ + m@,
        ContractError::InvalidMarker { message } => "Invalid marker: "@ + message@,
        ContractError::InvalidAddress { message } => "Invalid address: "@ + message@,
    }
}

impl ContractError {
    /// The text of this refusal.
    pub fn message(&self) -> (s: String)
        ensures
            s@ == contract_error_text(*self),
    {
        match self {
            ContractError::Std(e) => e.message(),
            ContractError::Unauthorized {} => "Unauthorized".to_owned(),
            ContractError::InvalidSecurityList {} => "Invalid security list".to_owned(),
            ContractError::EmptySecurityList {} => "Empty security list".to_owned(),
            ContractError::EmptySecurityCommitmentList {} => "Empty security list".to_owned(),
            ContractError::InvalidSecurityCommitment {} => "Invalid security commitment".to_owned(),
            ContractError::InvalidSecurityCommitmentAmount {} => "Invalid security commitment amount".to_owned(),
            ContractError::EmptyAcceptedCommitmentList {} => "Empty accepted commitment list".to_owned(),
            ContractError::AcceptedAndProposalMismatch {} => "The accepted commitment does not match the proposed commitment".to_owned(),
            ContractError::InvalidCommitmentState {} => "One or more commitments are in an invalid state".to_owned(),
            ContractError::CommitmentNotMet {} => "Commitment has not been met".to_owned(),
            ContractError::SettlmentExpired {} => "Settlment time for this commitment has expired".to_owned(),
            ContractError::AlreadySettled {} => "This action cannot be performed on a settled commitment".to_owned(),
            ContractError::AlreadyAccepted {} => "This action cannot be performed on a accepted commitment".to_owned(),
            ContractError::MissingFunds {} => "Missing required funds".to_owned(),
            ContractError::FundMismatch {} => "Mismatch in the expected number of funds and the actual sent funds".to_owned(),
            ContractError::UnexpectedFunds {} => "Unexpected funds were added to this transaction".to_owned(),
            ContractError::InvalidCapitalDenom {} => "The capital denom is invalid".to_owned(),
            ContractError::InvalidSecurityPriceDenom {} => "All security denoms must match the capital denom".to_owned(),
            ContractError::ExcessiveDeposit {} => "The deposit exceeds the commitment amount".to_owned(),
            ContractError::EmptyDeposit {} => "The deposit is empty".to_owned(),
            ContractError::CommitmentExceedsRemainingSecurityAmount {} => "The commitment will exceed the remaining amount of a security".to_owned(),
            ContractError::CommitmentAlreadyExists {} => "A commitment by this lp already exists".to_owned(),
            ContractError::CommitmentAlreadyAccepted {} => "A commitment by this lp has already been accepted".to_owned(),
            ContractError::ContractNameMismatch {} => "Mismatch in the migrating contract name".to_owned(),
            ContractError::InvalidVersion {} => "Invalid migration version".to_owned(),
            ContractError::NotInWhitelist {} => "Loan pool contributor not in whitelist".to_owned(),
            ContractError::SemVer(m) => concat("Semver parsing error: ", m.as_str()),
            ContractError::InvalidMarker { message } => concat("Invalid marker: ", message.as_str()),
            ContractError::InvalidAddress { message } => concat("Invalid address: ", message.as_str()),
        }
    }
}

/// A refusal with a generic storage-layer message.
pub fn contract_error(err: &str) -> (r: Result<Response, ContractError>)
    ensures
        r matches Err(ContractError::Std(StdError::GenericErr { msg })) && msg@ == err@,
{
    Err(ContractError::Std(StdError::GenericErr { msg: err.to_owned() }))
}

/// The error for a record of some kind that is not stored.
pub fn not_found(kind: &str) -> (e: ContractError)
    ensures
        e matches ContractError::Std(StdError::NotFound { kind: k }) && k@ == kind@,
{
    ContractError::Std(StdError::NotFound { kind: kind.to_owned() })
}

/// The error for a generic failure with a message.
pub fn generic_err(msg: String) -> (e: ContractError)
    ensures
        e == ContractError::Std(StdError::GenericErr { msg }),
{
    ContractError::Std(StdError::GenericErr { msg })
}

} // verus!
