//! The proxy client: building the outbound request, and validating and
//! classifying what comes back from the proxy.
//!
//! The outbound body is written by this crate's own JSON emitter; the inbound
//! body is decoded and parsed through trusted wrappers around `String` and
//! serde_json, and everything after those calls is verified.

use crate::errors::ServiceError;
use crate::text::{dec_rep, json_escape, json_escape_str, u64_to_string};
use vstd::prelude::*;
use vstd::utf8::{decode_utf8, valid_utf8};

verus! {

/// Cap on the proxy's response body, in bytes.
pub const MAX_RESPONSE_BYTES: u64 = 8192;

/// Fixed upper resource budget for one outbound call, in the platform's
/// unit; a single tunable constant.
pub const CALL_BUDGET: u128 = 25_000_000_000;

/// What is sent to the proxy.
#[derive(Debug)]
pub struct ProxyRequest {
    pub prompt: String,
    pub max_tokens: Option<u32>,
    /// Sampling temperature in tenths, so that seven means 0.7.
    pub temperature_tenths: Option<u32>,
    pub is_legal: bool,
}

/// Deployment-time configuration: the proxy endpoint and the bearer
/// credential, supplied from outside rather than compiled in.
#[derive(Debug)]
pub struct ProxyConfig {
    pub url: String,
    pub auth_token: String,
}

/// One fully assembled outbound call, ready for the transport.
#[derive(Debug)]
pub struct ProxyCall {
    pub url: String,
    pub headers: Vec<(String, String)>,
    pub body: String,
    pub max_response_bytes: u64,
    pub budget: u128,
}

/// What the transport handed back: either its own failure diagnostic, or a
/// status code with the raw body.
#[derive(Debug)]
pub struct ProxyResponse {
    pub success: bool,
    pub result: Option<String>,
    pub error: Option<String>,
}

#[derive(Debug)]
pub enum ProxyOutcome {
    Failure(String),
    Response { status: u64, body: Vec<u8> },
}

/// An optional count as JSON: the number, or `null`.
pub open spec fn opt_u32_json(v: Option<u32>) -> Seq<char> {
    match v {
        Some(n) => dec_rep(n as nat),
        None => "null"@,
    }
}

/// An optional temperature in tenths as a JSON number with one decimal.
pub open spec fn temperature_json(v: Option<u32>) -> Seq<char> {
    match v {
        Some(t) => dec_rep((t / 10) as nat) + "."@ + dec_rep((t % 10) as nat),
        None => "null"@,
    }
}

pub open spec fn bool_json(b: bool) -> Seq<char> {
    if b {
        "true"@
    } else {
        "false"@
    }
}

/// The wire body of one proxy request.
pub open spec fn proxy_body_json(
    prompt: Seq<char>,
    max_tokens: Option<u32>,
    temperature_tenths: Option<u32>,
    is_legal: bool,
) -> Seq<char> {
    "{\"prompt\":\""@ + json_escape(prompt) + "\",\"max_tokens\":"@ + opt_u32_json(max_tokens)
        + ",\"temperature\":"@ + temperature_json(temperature_tenths) + ",\"is_legal\":"@
        + bool_json(is_legal) + "}"@
}

/// Serializes a request to the wire body.
pub fn build_proxy_body(request: &ProxyRequest) -> (r: String)
    ensures
        r@ == proxy_body_json(
            request.prompt@,
            request.max_tokens,
            request.temperature_tenths,
            request.is_legal,
        ),
{
    let mut s = "{\"prompt\":\"".to_owned();
    let esc = json_escape_str(request.prompt.as_str());
    s.append(esc.as_str());
    s.append("\",\"max_tokens\":");
    match request.max_tokens {
        Some(n) => {
            let d = u64_to_string(n as u64);
            s.append(d.as_str());
        },
        None => {
            s.append("null");
        },
    }
    s.append(",\"temperature\":");
    match request.temperature_tenths {
        Some(t) => {
            let hi = u64_to_string((t / 10) as u64);
            s.append(hi.as_str());
            s.append(".");
            let lo = u64_to_string((t % 10) as u64);
            s.append(lo.as_str());
        },
        None => {
            s.append("null");
        },
    }
    s.append(",\"is_legal\":");
    if request.is_legal {
        s.append("true");
    } else {
        s.append("false");
    }
    s.append("}");
    assert(s@ =~= proxy_body_json(
        request.prompt@,
        request.max_tokens,
        request.temperature_tenths,
        request.is_legal,
    ));
    s
}

/// Assembles the whole outbound call: endpoint, the two fixed headers, the
/// serialized body, and the fixed response-size and resource caps.
pub fn build_proxy_call(config: &ProxyConfig, request: &ProxyRequest) -> (r: ProxyCall)
    ensures
        r.url@ == config.url@,
        r.headers@.len() == 2,
        r.headers@[0].0@ == "Content-Type"@,
        r.headers@[0].1@ == "application/json"@,
        r.headers@[1].0@ == "Authorization"@,
        r.headers@[1].1@ == "Bearer "@ + config.auth_token@,
        r.body@ == proxy_body_json(
            request.prompt@,
            request.max_tokens,
            request.temperature_tenths,
            request.is_legal,
        ),
        r.max_response_bytes == MAX_RESPONSE_BYTES,
        r.budget == CALL_BUDGET,
{
    let mut headers: Vec<(String, String)> = Vec::new();
    headers.push(("Content-Type".to_owned(), "application/json".to_owned()));
    let mut auth = "Bearer ".to_owned();
    auth.append(config.auth_token.as_str());
    headers.push(("Authorization".to_owned(), auth));
    let body = build_proxy_body(request);
    ProxyCall {
        url: config.url.clone(),
        headers,
        body,
        max_response_bytes: MAX_RESPONSE_BYTES,
        budget: CALL_BUDGET,
    }
}

/// What the response sanitizer hands onward: the original status and body
/// under a minimal fixed header set.
#[derive(Debug)]
pub struct SanitizedResponse {
    pub status: u64,
    pub body: Vec<u8>,
    pub headers: Vec<(String, String)>,
}

/// Replaces an inbound response's entire header set with a fixed minimal
/// one — a same-origin content security policy and a strict referrer policy
/// — keeping status and body unchanged, so the proxy cannot plant caching
/// or tracking headers.
pub fn transform_response(status: u64, body: Vec<u8>) -> (r: SanitizedResponse)
    ensures
        r.status == status,
        r.body@ == body@,
        r.headers@.len() == 2,
        r.headers@[0].0@ == "content-security-policy"@,
        r.headers@[0].1@ == "default-src 'self'"@,
        r.headers@[1].0@ == "referrer-policy"@,
        r.headers@[1].1@ == "strict-origin"@,
{
    let mut headers: Vec<(String, String)> = Vec::new();
    headers.push(("content-security-policy".to_owned(), "default-src 'self'".to_owned()));
    headers.push(("referrer-policy".to_owned(), "strict-origin".to_owned()));
    SanitizedResponse { status, body, headers }
}

/// Whether serde_json's parser accepts the text as a JSON document.
pub uninterp spec fn json_parses(s: Seq<char>) -> bool;

#[verifier::external_type_specification]
#[verifier::external_body]
pub struct ExJsonValue(serde_json::Value);

#[verifier::external_type_specification]
#[verifier::external_body]
pub struct ExJsonError(serde_json::Error);

/// Relies on `serde_json::from_str::<Value>`: succeeds exactly on text the
/// parser accepts as JSON.
#[verifier::external_body]
fn parse_json(s: &str) -> (r: Result<serde_json::Value, serde_json::Error>)
    ensures
        r is Ok <==> json_parses(s@),
{
    serde_json::from_str(s)
}

/// Relies on serde_json's `Display for Error`: the parser's diagnostic text.
#[verifier::external_body]
fn json_error_text(e: &serde_json::Error) -> (r: String) {
    format!("{}", e)
}

/// Relies on `String::from_utf8`: succeeds exactly on valid UTF-8, yielding
/// its decoding.
#[verifier::external_body]
fn utf8_to_string(bytes: Vec<u8>) -> (r: Option<String>)
    ensures
        match r {
            Some(s) => valid_utf8(bytes@) && s@ == decode_utf8(bytes@),
            None => !valid_utf8(bytes@),
        },
{
    match String::from_utf8(bytes) {
        Ok(s) => Some(s),
        Err(_) => None,
    }
}

/// The reply structure serde_json reads out of a text: its `success`
/// boolean and its optional `result` and `error` strings (a null or missing
/// member counts as absent), or nothing when the text is not a JSON
/// document of that shape; a function of the text alone.
pub uninterp spec fn proxy_reply_of(s: Seq<char>) -> Option<
    (bool, Option<Seq<char>>, Option<Seq<char>>),
>;

/// The field views of a reply value, in the order `proxy_reply_of` uses.
pub open spec fn reply_view(p: ProxyResponse) -> (bool, Option<Seq<char>>, Option<Seq<char>>) {
    (
        p.success,
        match p.result {
            Some(t) => Some(t@),
            None => None,
        },
        match p.error {
            Some(t) => Some(t@),
            None => None,
        },
    )
}

/// Relies on serde_json — `from_str::<Value>`, `Value::get`,
/// `Value::as_bool`, `Value::as_str`, `Value::is_null`: reads the reply
/// fields out of the text. `success` must be a boolean; `result` and
/// `error` must each be a string, null, or missing; everything else,
/// including text that does not parse, yields nothing.
#[verifier::external_body]
fn read_proxy_reply(s: &str) -> (r: Option<ProxyResponse>)
    ensures
        match r {
            Some(p) => json_parses(s@) && proxy_reply_of(s@) == Some(reply_view(p)),
            None => !json_parses(s@) || proxy_reply_of(s@) is None,
        },
{
    let v: serde_json::Value = serde_json::from_str(s).ok()?;
    let success = v.get("success")?.as_bool()?;
    let result = match v.get("result") {
        None => None,
        Some(x) if x.is_null() => None,
        Some(x) => Some(x.as_str()?.to_owned()),
    };
    let error = match v.get("error") {
        None => None,
        Some(x) if x.is_null() => None,
        Some(x) => Some(x.as_str()?.to_owned()),
    };
    Some(ProxyResponse { success, result, error })
}

/// Turns a well-formed proxy reply into the advice text or the reported
/// failure: success owes a result payload, failure carries the proxy's
/// message or a generic one.
pub fn classify_response(p: ProxyResponse) -> (r: Result<String, ServiceError>)
    ensures
        match r {
            Ok(text) => p.success && match p.result {
                Some(t) => text@ == t@,
                None => false,
            },
            Err(e) => match e {
                ServiceError::ProtocolError(m) => p.success && p.result is None && m@
                    == "No result in successful response"@,
                ServiceError::ProxyError(m) => !p.success && match p.error {
                    Some(t) => m@ == t@,
                    None => m@ == "Unknown proxy error"@,
                },
                _ => false,
            },
        },
{
    if p.success {
        match p.result {
            Some(t) => Ok(t),
            None => Err(ServiceError::ProtocolError("No result in successful response".to_owned())),
        }
    } else {
        match p.error {
            Some(t) => Err(ServiceError::ProxyError(t)),
            None => Err(ServiceError::ProxyError("Unknown proxy error".to_owned())),
        }
    }
}

/// How the result of any function that consumes a transport outcome must
/// relate to that outcome: a transport failure carries its diagnostic, a
/// non-200 status its code, a body that is not UTF-8 is an encoding error,
/// text the parser rejects and a reply of the wrong shape are protocol
/// errors, and a well-shaped reply is classified by its fields — success
/// owes a result payload, and failure carries the proxy's message or the
/// generic one.
pub open spec fn outcome_classified<T>(outcome: ProxyOutcome, r: Result<T, ServiceError>) -> bool {
    match outcome {
        ProxyOutcome::Failure(d) => match r {
            Err(ServiceError::TransportError(m)) => m@ == d@,
            _ => false,
        },
        ProxyOutcome::Response { status, body } => {
            if status != 200 {
                match r {
                    Err(ServiceError::TransportError(m)) => m@ == "HTTP error: status "@ + dec_rep(
                        status as nat,
                    ),
                    _ => false,
                }
            } else if !valid_utf8(body@) {
                r matches Err(ServiceError::EncodingError)
            } else if !json_parses(decode_utf8(body@)) {
                match r {
                    Err(ServiceError::ProtocolError(m)) => (
                    "Failed to parse JSON response: "@).is_prefix_of(m@),
                    _ => false,
                }
            } else {
                match proxy_reply_of(decode_utf8(body@)) {
                    None => match r {
                        Err(ServiceError::ProtocolError(m)) => (
                        "Failed to parse JSON response: "@).is_prefix_of(m@),
                        _ => false,
                    },
                    Some(fields) => {
                        if fields.0 {
                            match fields.1 {
                                Some(_) => r is Ok,
                                None => match r {
                                    Err(ServiceError::ProtocolError(m)) => m@
                                        == "No result in successful response"@,
                                    _ => false,
                                },
                            }
                        } else {
                            match r {
                                Err(ServiceError::ProxyError(m)) => match fields.2 {
                                    Some(t) => m@ == t,
                                    None => m@ == "Unknown proxy error"@,
                                },
                                _ => false,
                            }
                        }
                    },
                }
            }
        },
    }
}

/// The text a validated outcome owes the caller: present exactly when the
/// transport succeeded with status 200 and a UTF-8 body holding a
/// well-shaped success reply that carries a result payload.
pub open spec fn outcome_success_payload(outcome: ProxyOutcome) -> Option<Seq<char>> {
    match outcome {
        ProxyOutcome::Failure(_) => None,
        ProxyOutcome::Response { status, body } => {
            if status == 200 && valid_utf8(body@) && json_parses(decode_utf8(body@)) {
                match proxy_reply_of(decode_utf8(body@)) {
                    Some(fields) => if fields.0 {
                        fields.1
                    } else {
                        None
                    },
                    None => None,
                }
            } else {
                None
            }
        },
    }
}

/// Validates one transport outcome end to end: transport failure and non-200
/// status are transport errors, a body that is not UTF-8 is an encoding
/// error, text the parser rejects or a reply of the wrong shape are protocol
/// errors, and a well-shaped reply is classified by its fields — the
/// returned text is exactly the reply's result payload.
pub fn interpret_proxy_response(outcome: ProxyOutcome) -> (r: Result<String, ServiceError>)
    ensures
        outcome_classified(outcome, r),
        r matches Ok(t) ==> Some(t@) == outcome_success_payload(outcome),
{
    match outcome {
        ProxyOutcome::Failure(d) => Err(ServiceError::TransportError(d)),
        ProxyOutcome::Response { status, body } => {
            if status != 200 {
                let mut m = "HTTP error: status ".to_owned();
                let d = u64_to_string(status);
                m.append(d.as_str());
                Err(ServiceError::TransportError(m))
            } else {
                match utf8_to_string(body) {
                    None => Err(ServiceError::EncodingError),
                    Some(text) => match read_proxy_reply(text.as_str()) {
                        Some(p) => classify_response(p),
                        None => match parse_json(text.as_str()) {
                            Err(e) => {
                                let mut m = "Failed to parse JSON response: ".to_owned();
                                let t = json_error_text(&e);
                                m.append(t.as_str());
                                assert(("Failed to parse JSON response: "@).is_prefix_of(m@)) by {
                                    assert(m@.subrange(
                                        0,
                                        "Failed to parse JSON response: "@.len() as int,
                                    ) =~= "Failed to parse JSON response: "@);
                                }
                                Err(ServiceError::ProtocolError(m))
                            },
                            Ok(_) => {
                                let mut m = "Failed to parse JSON response: ".to_owned();
                                m.append("the reply does not have the expected shape");
                                assert(("Failed to parse JSON response: "@).is_prefix_of(m@)) by {
                                    assert(m@.subrange(
                                        0,
                                        "Failed to parse JSON response: "@.len() as int,
                                    ) =~= "Failed to parse JSON response: "@);
                                }
                                Err(ServiceError::ProtocolError(m))
                            },
                        },
                    },
                }
            }
        },
    }
}

} // verus!
