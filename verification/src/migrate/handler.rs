//! Migrating the contract: only a contract of the same name whose recorded
//! version is not older than this one may migrate.

use vstd::prelude::*;
use crate::common::error::ContractError;
use crate::common::msg::{CONTRACT_NAME, CONTRACT_VERSION, MigrateMsg};
use crate::common::response::{Response, attrs_model, events_model};
use crate::common::messages::msgs_model;
use crate::storage::ContractStorage;

verus! {

/// `semver::Version`, carried through unread: only the wrappers below look
/// inside it.
#[verifier::external_type_specification]
#[verifier::external_body]
pub struct ExSemverVersion(semver::Version);

/// The message of the error that `semver::Version::parse` gives for a text,
/// or none where the text is a valid version.
pub uninterp spec fn semver_parse_error(text: Seq<char>) -> Option<Seq<char>>;

/// Whether the version written by the first text precedes the one written by
/// the second, as `semver::Version` orders them.
pub uninterp spec fn semver_precedes(a: Seq<char>, b: Seq<char>) -> bool;

/// A version read from its text; it can only be made by reading the text.
pub struct ParsedVersion {
    text: String,
    version: semver::Version,
}

impl ParsedVersion {
    /// The text the version was read from.
    pub closed spec fn source(&self) -> Seq<char> {
        self.text@
    }
}

/// `semver::Version::parse`: reads a version, or answers the text of the
/// parse error.
#[verifier::external_body]
fn parse_version(text: &str) -> (r: Result<ParsedVersion, String>)
    ensures
        match semver_parse_error(text@) {
            None => r matches Ok(p) && p.source() == text@,
            Some(m) => r matches Err(e) && e@ == m,
        },
{
    match semver::Version::parse(text) {
        Ok(version) => Ok(ParsedVersion { text: text.to_owned(), version }),
        Err(e) => Err(e.to_string()),
    }
}

/// The order of `semver::Version`: whether the first version precedes the
/// second.
#[verifier::external_body]
fn version_precedes(a: &ParsedVersion, b: &ParsedVersion) -> (r: bool)
    ensures
        r == semver_precedes(a.source(), b.source()),
{
    a.version < b.version
}

/// Once this contract's version reads, a recorded version reads too.
pub open spec fn recorded_version_readable(storage: ContractStorage) -> bool {
    match storage.contract_version {
        Some(v) => semver_parse_error(CONTRACT_VERSION@) is None ==> semver_parse_error(v.version@) is None,
        None => true,
    }
}

/// What checking a migration answers.
pub open spec fn migration_outcome(storage: ContractStorage, r: Result<(), ContractError>) -> bool {
    match semver_parse_error(CONTRACT_VERSION@) {
        Some(m) => r matches Err(ContractError::SemVer(e)) && e@ == m,
        None => match storage.contract_version {
            None => r matches Err(ContractError::Std(_)),
            Some(v) => if v.contract@ != CONTRACT_NAME@ {
                r == Err::<(), ContractError>(ContractError::ContractNameMismatch {})
            } else if semver_precedes(v.version@, CONTRACT_VERSION@) {
                r == Err::<(), ContractError>(ContractError::InvalidVersion {})
            } else {
                r is Ok
            },
        },
    }
}

/// Checks that the recorded contract has this contract's name, and that its
/// version does not precede this one.
pub fn validate_migration(storage: &ContractStorage) -> (r: Result<(), ContractError>)
    requires
        recorded_version_readable(*storage),
    ensures
        migration_outcome(*storage, r),
{
    let version = match parse_version(CONTRACT_VERSION) {
        Ok(v) => v,
        Err(e) => {
            return Err(ContractError::SemVer(e));
        },
    };
    let recorded = match &storage.contract_version {
        Some(v) => v,
        None => {
            return Err(crate::common::error::not_found("ContractVersion"));
        },
    };
    let storage_version = match parse_version(recorded.version.as_str()) {
        Ok(v) => v,
        Err(_) => {
            proof {
                assert(false);
            }
            return Err(ContractError::InvalidVersion {});
        },
    };
    let name = CONTRACT_NAME.to_owned();
    if recorded.contract != name {
        return Err(ContractError::ContractNameMismatch {});
    }
    if version_precedes(&storage_version, &version) {
        return Err(ContractError::InvalidVersion {});
    }
    Ok(())
}

/// Migrates the contract once the migration is checked; the answer is
/// empty.
pub fn handle(storage: &ContractStorage, msg: MigrateMsg) -> (r: Result<Response, ContractError>)
    requires
        recorded_version_readable(*storage),
    ensures
        match r {
            Ok(resp) => migration_outcome(*storage, Ok(())) && msgs_model(resp.messages@).len() == 0
                && attrs_model(resp.attributes@).len() == 0 && events_model(resp.events@).len() == 0,
            Err(e) => migration_outcome(*storage, Err(e)),
        },
{
    validate_migration(storage)?;
    Ok(Response::new())
}

/// Migrates the contract where the recorded version reads (see `handle`);
/// answers `None`, doing nothing, where it does not.
pub fn handle_when_readable(storage: &ContractStorage, msg: MigrateMsg) -> (r: Option<Result<Response, ContractError>>)
    ensures
        r is None <==> !recorded_version_readable(*storage),
        r matches Some(res) ==> match res {
            Ok(resp) => migration_outcome(*storage, Ok(())) && msgs_model(resp.messages@).len() == 0
                && attrs_model(resp.attributes@).len() == 0 && events_model(resp.events@).len() == 0,
            Err(e) => migration_outcome(*storage, Err(e)),
        },
{
    let readable = match &storage.contract_version {
        None => true,
        Some(v) => match parse_version(CONTRACT_VERSION) {
            Err(_) => true,
            Ok(_) => parse_version(v.version.as_str()).is_ok(),
        },
    };
    if !readable {
        return None;
    }
    Some(handle(storage, msg))
}

} // verus!
