//! Why a request could not be produced.

use crate::json::error_text;
use vstd::prelude::*;
use vstd::string::*;

verus! {

/// Why no request text could be produced.
#[derive(Debug)]
pub enum QueryError {
    /// A piece of the `kinds` list is not an integer.
    MalformedKinds,
    /// Writing JSON text failed; the cause is attached. No filter makes
    /// [`encode_request`](crate::request::encode_request) give this error.
    Encoding(serde_json::Error),
}

impl QueryError {
    /// A description of the error for the user.
    pub fn message(&self) -> (text: String)
        ensures
            self is MalformedKinds ==> text@ == "Error parsing kinds. Ensure they are integers."@,
    {
        match self {
            QueryError::MalformedKinds => String::from_str(
                "Error parsing kinds. Ensure they are integers.",
            ),
            QueryError::Encoding(cause) => error_text(cause),
        }
    }
}

} // verus!
