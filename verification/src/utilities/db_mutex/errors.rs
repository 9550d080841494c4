use vstd::prelude::*;
use vstd::std_specs::convert::FromSpecImpl;

verus! {

/// The error type of the `anyhow` crate: any failure of the store or of the transport to it.
#[verifier::external_type_specification]
#[verifier::external_body]
pub struct ExAnyhowError(anyhow::Error);

/// Renders a failure of the store with its `Display` implementation, as
/// `anyhow::Error` provides it. Nothing is known of the text.
#[verifier::external_body]
fn anyhow_to_string(error: &anyhow::Error) -> (r: String) {
    format!("{}", error)
}

/// Why a document could not be locked.
#[derive(Debug)]
pub enum DBMutexError {
    /// The document does not exist.
    NotFound,
    /// The document stayed locked by someone else until the deadline.
    Timeout,
    /// The store or the transport to it failed.
    Other(anyhow::Error),
}

impl DBMutexError {
    /// The text shown for the error.
    pub fn message(&self) -> (r: String)
        ensures
            self is NotFound ==> r@ == "Document not found"@,
            self is Timeout ==> r@ == "Cannot lock document because timed out"@,
    {
        match self {
            DBMutexError::NotFound => "Document not found".to_owned(),
            DBMutexError::Timeout => "Cannot lock document because timed out".to_owned(),
            DBMutexError::Other(v) => anyhow_to_string(v),
        }
    }
}

impl From<anyhow::Error> for DBMutexError {
    fn from(e: anyhow::Error) -> (r: Self) {
        DBMutexError::Other(e)
    }
}

impl FromSpecImpl<anyhow::Error> for DBMutexError {
    open spec fn obeys_from_spec() -> bool {
        true
    }

    open spec fn from_spec(e: anyhow::Error) -> Self {
        DBMutexError::Other(e)
    }
}

} // verus!
