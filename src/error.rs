//! The two tiers of failure: the transport's and the validator's.
use vstd::prelude::*;

verus! {

/// A response or record that does not match what the session knows or what
/// the API documents.
#[derive(Debug, Clone, PartialEq, Eq)]
pub enum ValidationError {
    /// A currency code that the reference set does not hold.
    BadCurrency(String),
    /// A product id that is not two non-empty codes joined by one `-`.
    MalformedId(String),
    /// The named amount field is not decimal text.
    BadDecimal(String),
    /// An order id that is not a UUID; carries the offending text.
    BadUuid(String),
    /// A time that is not an RFC 3339 timestamp; carries the offending text.
    BadTimestamp(String),
}

/// Failure of one HTTP GET.
#[derive(Debug, Clone, PartialEq, Eq)]
pub enum HttpGetError {
    /// Unable to parse the provided URL.
    BadUrl(String),
    /// A response outside 2xx, with the status code and the server's body.
    BadStatus(u16, String),
    /// Reading the response body failed.
    Io(String),
    /// The HTTP client failed before a response arrived.
    Internal(String),
}

pub open spec fn is_success_status(status: u16) -> bool {
    200 <= status && status < 300
}

/// Decides the outcome of a completed exchange: a 2xx status hands the body
/// over, any other status keeps it inside `BadStatus` for diagnosis.
pub fn classify_response(status: u16, body: String) -> (r: Result<String, HttpGetError>)
    ensures
        is_success_status(status) ==> r == Ok::<String, HttpGetError>(body),
        !is_success_status(status) ==> r == Err::<String, HttpGetError>(
            HttpGetError::BadStatus(status, body),
        ),
{
    if 200 <= status && status < 300 {
        Ok(body)
    } else {
        Err(HttpGetError::BadStatus(status, body))
    }
}

} // verus!
