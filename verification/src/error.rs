//! What can go wrong, and how it is reported.

use crate::quota::Rejection;
use vstd::prelude::*;

verus! {

/// The errors of the service.
#[derive(Clone, Copy, Debug, PartialEq, Eq, Structural)]
pub enum Error {
    /// The upload is refused, for the reason given.
    AdmissionRejected(Rejection),
    /// No free alias was found within the attempts. The upload as a whole
    /// may be tried again.
    AliasGenerationExhausted,
    /// No live file answers to the alias or id. A file that is dead and one
    /// that never existed are reported alike.
    RecordNotFound,
    /// The admin token does not open any live file under the alias.
    Unauthorized,
    /// The metadata index could not do what was asked.
    StoreError,
    /// The blob index could not do what was asked.
    BlobStoreError,
    /// A state was seen that the rules exclude.
    InternalConsistency,
}

impl Error {
    /// The HTTP status under which the error is reported.
    pub open spec fn status(self) -> u16 {
        match self {
            Error::AdmissionRejected(Rejection::NoMatchingThreshold) => 413,
            Error::AdmissionRejected(_) => 403,
            Error::AliasGenerationExhausted => 503,
            Error::RecordNotFound => 404,
            Error::Unauthorized => 401,
            Error::StoreError => 500,
            Error::BlobStoreError => 500,
            Error::InternalConsistency => 500,
        }
    }

    /// The text under which the error is reported. Rejections name their
    /// reason; the text for a missing file and the one for a refused token
    /// say nothing about the file.
    pub open spec fn text(self) -> Seq<char> {
        match self {
            Error::AdmissionRejected(Rejection::OriginQuotaExceeded) => {
                "Upload rejected: the uploader's size quota is exceeded"@
            },
            Error::AdmissionRejected(Rejection::OriginFileCountExceeded) => {
                "Upload rejected: the uploader's file count quota is exceeded"@
            },
            Error::AdmissionRejected(Rejection::GlobalQuotaExceeded) => {
                "Upload rejected: the global size quota is exceeded"@
            },
            Error::AdmissionRejected(Rejection::NoMatchingThreshold) => {
                "Upload rejected: the file is larger than any size threshold"@
            },
            Error::AliasGenerationExhausted => "Could not generate a free alias, try again"@,
            Error::RecordNotFound => "File not found"@,
            Error::Unauthorized => "Invalid alias or admin token"@,
            Error::StoreError => "Internal error"@,
            Error::BlobStoreError => "Internal error"@,
            Error::InternalConsistency => "Internal error"@,
        }
    }

    /// The HTTP status under which the error is reported.
    pub fn status_code(&self) -> (code: u16)
        ensures
            code == self.status(),
    {
        match self {
            Error::AdmissionRejected(Rejection::NoMatchingThreshold) => 413,
            Error::AdmissionRejected(_) => 403,
            Error::AliasGenerationExhausted => 503,
            Error::RecordNotFound => 404,
            Error::Unauthorized => 401,
            Error::StoreError => 500,
            Error::BlobStoreError => 500,
            Error::InternalConsistency => 500,
        }
    }

    /// The text under which the error is reported.
    pub fn message(&self) -> (m: String)
        ensures
            m@ == self.text(),
    {
        let text: &str = match self {
            Error::AdmissionRejected(Rejection::OriginQuotaExceeded) => {
                "Upload rejected: the uploader's size quota is exceeded"
            },
            Error::AdmissionRejected(Rejection::OriginFileCountExceeded) => {
                "Upload rejected: the uploader's file count quota is exceeded"
            },
            Error::AdmissionRejected(Rejection::GlobalQuotaExceeded) => {
                "Upload rejected: the global size quota is exceeded"
            },
            Error::AdmissionRejected(Rejection::NoMatchingThreshold) => {
                "Upload rejected: the file is larger than any size threshold"
            },
            Error::AliasGenerationExhausted => "Could not generate a free alias, try again",
            Error::RecordNotFound => "File not found",
            Error::Unauthorized => "Invalid alias or admin token",
            Error::StoreError => "Internal error",
            Error::BlobStoreError => "Internal error",
            Error::InternalConsistency => "Internal error",
        };
        text.to_owned()
    }
}

} // verus!
