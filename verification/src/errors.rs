use vstd::prelude::*;

verus! {

/// The failures a submission or comment request can end in.
///
/// `MalformedStream`: the request body was truncated or violated its framing;
/// the whole request is aborted. `ValidationError`: the submission carried no
/// media attachment; it is rejected before any persistence. `StorageWriteError`:
/// a media file could not be created or written. `PersistenceError`: a row
/// insert or update failed.
#[derive(Clone, Copy, Debug, PartialEq, Eq, Structural)]
pub enum RequestError {
    MalformedStream,
    ValidationError,
    StorageWriteError,
    PersistenceError,
}

impl RequestError {
    /// A short description, suitable for a response body.
    pub fn message(&self) -> (r: &'static str)
        ensures
            self is MalformedStream ==> r@ == "Malformed request body"@,
            self is ValidationError ==> r@ == "Media file is required"@,
            self is StorageWriteError ==> r@ == "Failed to store media file"@,
            self is PersistenceError ==> r@ == "Database operation failed"@,
    {
        match self {
            RequestError::MalformedStream => "Malformed request body",
            RequestError::ValidationError => "Media file is required",
            RequestError::StorageWriteError => "Failed to store media file",
            RequestError::PersistenceError => "Database operation failed",
        }
    }
}

} // verus!
