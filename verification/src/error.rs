//! The request-level error of the service and the text it is reported with.

use vstd::prelude::*;

use crate::features::{feature_name, Feature};
use crate::text::{join2, join3};

verus! {

/// Why a request was refused.
#[derive(Debug)]
pub enum ApiError {
    /// The input is malformed; the text says how.
    BadRequest(String),
    /// The named resource does not exist or is hidden from the caller.
    NotFound(&'static str),
    /// The caller lacks the authority for the operation.
    Forbidden,
    /// The capability that the operation belongs to is not enabled.
    FeatureDisabled(Feature),
}

/// The text that reports an error.
pub open spec fn error_message(e: ApiError) -> Seq<char> {
    match e {
        ApiError::BadRequest(m) => "bad request: "@ + m@,
        ApiError::NotFound(r) => r@ + " not found"@,
        ApiError::Forbidden => "forbidden"@,
        ApiError::FeatureDisabled(f) => "feature `"@ + feature_name(f) + "` is disabled"@,
    }
}

/// A bad-request error whose text is `message`.
pub open spec fn is_bad_request(e: ApiError, message: Seq<char>) -> bool {
    e matches ApiError::BadRequest(m) && m@ == message
}

/// The result is the bad request carrying `message`.
pub open spec fn refused_as_bad_request<T>(r: Result<T, ApiError>, message: Seq<char>) -> bool {
    match r {
        Err(e) => is_bad_request(e, message),
        Ok(_) => false,
    }
}

/// The result is the error `e`.
pub open spec fn refused_with<T>(r: Result<T, ApiError>, e: ApiError) -> bool {
    match r {
        Err(x) => x == e,
        Ok(_) => false,
    }
}

impl ApiError {
    /// The text that reports this error.
    pub fn message(&self) -> (r: String)
        ensures
            r@ == error_message(*self),
    {
        match self {
            ApiError::BadRequest(m) => join2("bad request: ", m.as_str()),
            ApiError::NotFound(r) => join2(r, " not found"),
            ApiError::Forbidden => "forbidden".to_owned(),
            ApiError::FeatureDisabled(f) => join3("feature `", f.as_str(), "` is disabled"),
        }
    }
}

/// A bad-request error carrying `message`.
pub fn bad_request(message: &str) -> (e: ApiError)
    ensures
        is_bad_request(e, message@),
{
    ApiError::BadRequest(message.to_owned())
}

} // verus!
