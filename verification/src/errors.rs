//! The error taxonomy of the service, and the caller-facing message of each
//! error.

use vstd::prelude::*;

verus! {

/// Everything a public operation can fail with.
#[derive(Debug)]
pub enum ServiceError {
    /// The caller is the anonymous identity.
    Unauthorized,
    /// A requested profile or document does not exist; carries its message.
    NotFound(String),
    /// A required input was absent.
    MissingField,
    /// The transport failed or the proxy answered with a non-200 status;
    /// carries the full diagnostic.
    TransportError(String),
    /// The proxy's body was not valid UTF-8.
    EncodingError,
    /// The proxy's body was malformed or contractually inconsistent.
    ProtocolError(String),
    /// The proxy itself reported a failure; carries its message.
    ProxyError(String),
}

impl ServiceError {
    /// The descriptive message surfaced verbatim to the caller.
    pub open spec fn message_view(self) -> Seq<char> {
        match self {
            ServiceError::Unauthorized => "Unauthorized: Internet Identity required"@,
            ServiceError::NotFound(m) => m@,
            ServiceError::MissingField => "Document type is required"@,
            ServiceError::TransportError(m) => m@,
            ServiceError::EncodingError => "Failed to parse response body as UTF-8"@,
            ServiceError::ProtocolError(m) => m@,
            ServiceError::ProxyError(m) => m@,
        }
    }

    pub fn message(&self) -> (r: String)
        ensures
            r@ == self.message_view(),
    {
        match self {
            ServiceError::Unauthorized => "Unauthorized: Internet Identity required".to_owned(),
            ServiceError::NotFound(m) => m.clone(),
            ServiceError::MissingField => "Document type is required".to_owned(),
            ServiceError::TransportError(m) => m.clone(),
            ServiceError::EncodingError => "Failed to parse response body as UTF-8".to_owned(),
            ServiceError::ProtocolError(m) => m.clone(),
            ServiceError::ProxyError(m) => m.clone(),
        }
    }
}

/// The message a generation workflow surfaces when its proxy round-trip
/// failed, wrapping the underlying error's message.
pub fn workflow_failure_message(e: &ServiceError) -> (r: String)
    ensures
        r@ == "OpenAI proxy error: "@ + e.message_view(),
{
    let mut s = "OpenAI proxy error: ".to_owned();
    let m = e.message();
    s.append(m.as_str());
    s
}

} // verus!
