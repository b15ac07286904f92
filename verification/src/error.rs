//! The one way in which a request is turned down before anything is read or sent.

use vstd::prelude::*;
use vstd::string::*;

verus! {

/// A request that names a method which the operation does not accept.
/// The method is kept as the caller wrote it.
#[derive(Debug)]
pub enum RequestError {
    /// The method is none of those that can be sent.
    UnsupportedMethod { method: String },
    /// The method cannot carry a multipart form.
    MultipartUnsupported { method: String },
}

impl RequestError {
    /// The text that reports the error.
    pub open spec fn text(&self) -> Seq<char> {
        match self {
            RequestError::UnsupportedMethod { method } => "Unsupported method: "@ + method@,
            RequestError::MultipartUnsupported { method } => "Multipart not supported for method: "@
                + method@,
        }
    }

    /// The text that reports the error to the user.
    pub fn message(&self) -> (text: String)
        ensures
            text@ == self.text(),
    {
        match self {
            RequestError::UnsupportedMethod { method } => String::from_str(
                "Unsupported method: ",
            ).concat(method.as_str()),
            RequestError::MultipartUnsupported { method } => String::from_str(
                "Multipart not supported for method: ",
            ).concat(method.as_str()),
        }
    }
}

} // verus!
