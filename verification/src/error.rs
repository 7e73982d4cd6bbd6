//! Error taxonomy of the sync core.
//!
//! Setup failures (missing configuration, unusable destination path) happen
//! before any network activity; remote rejections carry the status and the
//! body the service answered with; integrity violations record the exact
//! byte counts of a short write. Transport and filesystem failures are
//! passed through as messages by the code that performed the operation.

use vstd::prelude::*;

verus! {

/// `serde_json::Value` carried opaquely inside [`ErrorBody::Structured`].
#[verifier::external_type_specification]
#[verifier::external_body]
pub struct ExJsonValue(serde_json::Value);

/// Holds exactly when `s` is a well-formed JSON document, as decided by
/// `serde_json::from_str`; the outcome depends on the characters alone.
pub uninterp spec fn json_parses(s: Seq<char>) -> bool;

/// Relies on `serde_json::from_str::<Value>`: it returns `Ok` exactly on
/// well-formed JSON documents, a function of the input characters alone.
#[verifier::external_body]
pub(crate) fn parse_json_body(s: &String) -> (r: Option<serde_json::Value>)
    ensures
        r is Some <==> json_parses(s@),
{
    match serde_json::from_str::<serde_json::Value>(s.as_str()) {
        Ok(v) => Some(v),
        Err(_) => None,
    }
}

/// The body a remote rejection carried: structured data when it parsed as
/// JSON, otherwise the raw text.
#[derive(Debug)]
pub enum ErrorBody {
    Structured(serde_json::Value),
    Raw(String),
}

/// Every failure this core can report.
#[derive(Debug)]
pub enum SyncError {
    /// A required configuration field is absent; carries the field name.
    MissingConfig { field: String },
    /// The local destination is unrepresentable.
    InvalidPath { path: String },
    /// The remote service answered with a status of 400 or above.
    RemoteRejection { status: u16, body: ErrorBody },
    /// A short write during streaming: fewer bytes persisted than read.
    Integrity { read: usize, written: usize },
    /// A transport failure reported by the HTTP layer.
    Transport { message: String },
    /// A filesystem failure reported by the storage layer.
    Filesystem { message: String },
}

} // verus!
