use vstd::prelude::*;

verus! {

/// The closed set of failures a refresh cycle can meet. Every kind is
/// contained within the cycle that met it: none reaches a reader of the
/// cache, and none aborts the process.
#[derive(Clone, Debug, PartialEq, Eq, Structural)]
pub enum RefreshError {
    /// The upstream request failed in transport: connection, TLS, or timeout.
    TransportFailure,
    /// The upstream answered with a non-success HTTP status code.
    UpstreamRejected(u16),
    /// The upstream body did not match the expected shape.
    MalformedResponse,
    /// The cache's exclusion primitive was unusable for this cycle.
    LockUnavailable,
}

impl RefreshError {
    /// How an upstream HTTP status code is judged: any status outside the
    /// success range 200..300 rejects the whole refresh cycle, carrying
    /// the code; a success status is no error.
    pub fn from_http_status(code: u16) -> (r: Option<RefreshError>)
        ensures
            200 <= code < 300 ==> r is None,
            !(200 <= code < 300) ==> r == Some(RefreshError::UpstreamRejected(code)),
    {
        if 200 <= code && code < 300 {
            None
        } else {
            Some(RefreshError::UpstreamRejected(code))
        }
    }

    /// A short description for log lines; numeric detail such as the
    /// rejected status code is logged by the caller alongside it.
    pub fn describe(&self) -> (s: String)
        ensures
            s@ == match self {
                RefreshError::TransportFailure => "transport failure reaching the upstream"@,
                RefreshError::UpstreamRejected(_) => "upstream rejected the request"@,
                RefreshError::MalformedResponse => "upstream response body was malformed"@,
                RefreshError::LockUnavailable => "cache lock unavailable"@,
            },
    {
        match self {
            RefreshError::TransportFailure => "transport failure reaching the upstream".to_owned(),
            RefreshError::UpstreamRejected(_) => "upstream rejected the request".to_owned(),
            RefreshError::MalformedResponse => "upstream response body was malformed".to_owned(),
            RefreshError::LockUnavailable => "cache lock unavailable".to_owned(),
        }
    }
}

} // verus!
