//! # Error type of the SDK
//!
//! Every provider reports a failed call in its own shape; the response
//! classifiers of each provider turn it into this one.
use vstd::prelude::*;

verus! {

/// Error reported by a cloud provider's API.
#[derive(Debug)]
pub struct SdkError {
    /// Request ID
    pub request_id: String,
    /// Error code
    pub code: String,
    /// Error message
    pub message: String,
}

impl Clone for SdkError {
    fn clone(&self) -> (r: Self)
        ensures
            r == *self,
    {
        SdkError {
            request_id: self.request_id.clone(),
            code: self.code.clone(),
            message: self.message.clone(),
        }
    }
}

impl SdkError {
    /// The text shown for the error:
    /// `SdkError: request_id=<id>, code=<code>, message=<message>`.
    pub fn describe(&self) -> (r: String)
        ensures
            r@ == "SdkError: request_id="@ + self.request_id@ + ", code="@ + self.code@
                + ", message="@ + self.message@,
    {
        let mut r = String::from_str("SdkError: request_id=");
        r.append(self.request_id.as_str());
        r.append(", code=");
        r.append(self.code.as_str());
        r.append(", message=");
        r.append(self.message.as_str());
        r
    }
}

} // verus!
