//! The error taxonomy of the installer: missing prerequisites, artifact
//! verification failure, state-consistency violations, and decode failures.
//! External-tool failures are reported by the binary that runs the tools.

use vstd::prelude::*;

verus! {

#[derive(Debug)]
pub enum Error {
    /// Required executables are absent from the system; the payload lists
    /// exactly the missing ones.
    MissingPrerequisites(Vec<String>),
    /// The published digest file does not contain the locally computed hash
    /// of the downloaded archive.
    DigestMismatch,
    /// A step that needs the download directory found none recorded: the
    /// steps ran out of order or the persisted state was lost.
    MissingDownloadDir,
    /// A step that needs the certificate directory found none recorded.
    MissingCertDir,
    /// The persisted install state could not be decoded.
    StateDecode,
    /// A placeholder token survived substitution in a rendered file.
    UnresolvedToken,
    /// A version string had a part that is not an unsigned number.
    InvalidVersion,
}

impl Error {
    /// A human-readable description, for the operator.
    pub fn message(&self) -> (r: String)
        ensures
            match self {
                Error::MissingPrerequisites(_) => r@ == "some required executables were not found"@,
                Error::DigestMismatch => r@
                    == "hash check failed: expected hash not found in digest file"@,
                Error::MissingDownloadDir => r@ == "invalid state: no download_dir"@,
                Error::MissingCertDir => r@ == "invalid state: no cert_dir"@,
                Error::StateDecode => r@ == "failed to deserialize install state"@,
                Error::UnresolvedToken => r@ == "a placeholder token was left unsubstituted"@,
                Error::InvalidVersion => r@ == "invalid number part in version"@,
            },
    {
        match self {
            Error::MissingPrerequisites(_) => "some required executables were not found".to_owned(),
            Error::DigestMismatch => "hash check failed: expected hash not found in digest file"
                .to_owned(),
            Error::MissingDownloadDir => "invalid state: no download_dir".to_owned(),
            Error::MissingCertDir => "invalid state: no cert_dir".to_owned(),
            Error::StateDecode => "failed to deserialize install state".to_owned(),
            Error::UnresolvedToken => "a placeholder token was left unsubstituted".to_owned(),
            Error::InvalidVersion => "invalid number part in version".to_owned(),
        }
    }

    /// Whether this is the state-consistency kind of failure: a step found a
    /// field absent that an earlier step should have recorded.
    pub fn is_state_consistency(&self) -> (r: bool)
        ensures
            r == (self is MissingDownloadDir || self is MissingCertDir),
    {
        match self {
            Error::MissingDownloadDir => true,
            Error::MissingCertDir => true,
            _ => false,
        }
    }
}

} // verus!
