//! The request orchestrator: the public operations of the service, composed
//! from the identity guard, the two stores, and the proxy client.
//!
//! The two generation workflows are split at the outbound call: a `_request`
//! function guards the caller, updates the profile and assembles the call,
//! and a `_complete` function validates the outcome and commits its effects.
//! The host performs the transport in between and owes no ordering beyond
//! calling `_complete` with the outcome of the call built by `_request`.

use crate::errors::ServiceError;
use crate::keys::{doc_key, doc_key_prefix, make_doc_key, make_owner_prefix, CallerId};
use crate::proxy::{
    build_proxy_call, interpret_proxy_response, outcome_classified, outcome_success_payload,
    proxy_body_json, ProxyCall, ProxyConfig, ProxyOutcome, ProxyRequest, CALL_BUDGET,
    MAX_RESPONSE_BYTES,
};
use crate::store::{touched, DocumentStore, ProfileStore, ProfileView, UserProfile};
use crate::text::{dec_rep, u64_to_string};
use vstd::prelude::*;

verus! {

/// What a caller sends to the generation workflows.
#[derive(Debug)]
pub struct LegalRequest {
    pub prompt: String,
    pub document_type: Option<String>,
    pub context: Option<String>,
    pub is_confidential: Option<bool>,
}

/// What the generation workflows answer.
#[derive(Debug)]
pub struct LegalResponse {
    pub response: String,
    pub document: Option<String>,
    pub status: String,
    pub request_id: Option<String>,
}

/// The whole in-memory state: the document store and the profile store.
pub struct ServiceState {
    pub documents: DocumentStore,
    pub profiles: ProfileStore,
}

impl ServiceState {
    pub open spec fn wf(&self) -> bool {
        self.documents.wf() && self.profiles.wf()
    }

    pub fn new() -> (r: Self)
        ensures
            r.wf(),
            r.documents@ =~= Map::<Seq<char>, Seq<char>>::empty(),
            r.profiles@ =~= Map::<Seq<char>, ProfileView>::empty(),
    {
        ServiceState { documents: DocumentStore::new(), profiles: ProfileStore::new() }
    }
}

/// The instruction sent for advice generation.
pub open spec fn advice_prompt(r: LegalRequest) -> Seq<char> {
    "As a legal AI advisor, provide "@ + (match r.document_type {
        Some(t) => t@,
        None => "general"@,
    }) + " advice for: "@ + r.prompt@ + ". Context: "@ + (match r.context {
        Some(c) => c@,
        None => "no additional context"@,
    }) + ". "@ + (if r.is_confidential == Some(true) {
        "This request is confidential - do not include any identifying information in the response."@
    } else {
        ""@
    })
}

/// The instruction sent for document generation, for the given required
/// document type.
pub open spec fn document_prompt(document_type: Seq<char>, r: LegalRequest) -> Seq<char> {
    "Generate a professional legal "@ + document_type + " document with these requirements: "@
        + r.prompt@ + ". Context: "@ + (match r.context {
        Some(c) => c@,
        None => "no additional context"@,
    }) + ". "@ + (if r.is_confidential == Some(true) {
        "This document must be anonymized and not contain any identifying information."@
    } else {
        ""@
    })
}

fn build_advice_prompt(r: &LegalRequest) -> (s: String)
    ensures
        s@ == advice_prompt(*r),
{
    let mut s = "As a legal AI advisor, provide ".to_owned();
    match &r.document_type {
        Some(t) => s.append(t.as_str()),
        None => s.append("general"),
    }
    s.append(" advice for: ");
    s.append(r.prompt.as_str());
    s.append(". Context: ");
    match &r.context {
        Some(c) => s.append(c.as_str()),
        None => s.append("no additional context"),
    }
    s.append(". ");
    let confidential = match r.is_confidential {
        Some(b) => b,
        None => false,
    };
    if confidential {
        s.append(
            "This request is confidential - do not include any identifying information in the response.",
        );
    } else {
        s.append("");
    }
    assert(s@ =~= advice_prompt(*r));
    s
}

fn build_document_prompt(document_type: &String, r: &LegalRequest) -> (s: String)
    ensures
        s@ == document_prompt(document_type@, *r),
{
    let mut s = "Generate a professional legal ".to_owned();
    s.append(document_type.as_str());
    s.append(" document with these requirements: ");
    s.append(r.prompt.as_str());
    s.append(". Context: ");
    match &r.context {
        Some(c) => s.append(c.as_str()),
        None => s.append("no additional context"),
    }
    s.append(". ");
    let confidential = match r.is_confidential {
        Some(b) => b,
        None => false,
    };
    if confidential {
        s.append("This document must be anonymized and not contain any identifying information.");
    } else {
        s.append("");
    }
    assert(s@ =~= document_prompt(document_type@, *r));
    s
}

/// The text `str::to_uppercase` produces for the given characters.
pub uninterp spec fn upper_of(s: Seq<char>) -> Seq<char>;

/// Relies on `str::to_uppercase`: the Unicode uppercase of the text, a
/// function of the characters alone.
#[verifier::external_body]
fn to_uppercase(s: &str) -> (r: String)
    ensures
        r@ == upper_of(s@),
{
    s.to_uppercase()
}

/// The fixed document template: uppercase type header, the content
/// verbatim, attribution, timestamp, and the review disclaimer.
pub open spec fn document_format(content: Seq<char>, document_type: Seq<char>, now: u64) -> Seq<
    char,
> {
    "LEGAL DOCUMENT: "@ + upper_of(document_type) + "\n\n"@ + content
        + "\n\n---\nGenerated by Wakili Legal AI Advisor\nTimestamp: "@ + dec_rep(now as nat)
        + "\n\nDISCLAIMER: This document was generated by AI and should be reviewed by a qualified legal professional before use."@
}

/// Formats raw content into a standalone document of the fixed template.
pub fn generate_document(content: &str, doc_type: &str, now: u64) -> (r: String)
    ensures
        r@ == document_format(content@, doc_type@, now),
{
    let mut s = "LEGAL DOCUMENT: ".to_owned();
    let upper = to_uppercase(doc_type);
    s.append(upper.as_str());
    s.append("\n\n");
    s.append(content);
    s.append("\n\n---\nGenerated by Wakili Legal AI Advisor\nTimestamp: ");
    let d = u64_to_string(now);
    s.append(d.as_str());
    s.append(
        "\n\nDISCLAIMER: This document was generated by AI and should be reviewed by a qualified legal professional before use.",
    );
    assert(s@ =~= document_format(content@, doc_type@, now));
    s
}

/// What `_request` promises of an assembled call.
pub open spec fn call_matches(
    call: ProxyCall,
    config: ProxyConfig,
    prompt: Seq<char>,
    max_tokens: u32,
    temperature_tenths: u32,
) -> bool {
    &&& call.url@ == config.url@
    &&& call.headers@.len() == 2
    &&& call.headers@[0].0@ == "Content-Type"@
    &&& call.headers@[0].1@ == "application/json"@
    &&& call.headers@[1].0@ == "Authorization"@
    &&& call.headers@[1].1@ == "Bearer "@ + config.auth_token@
    &&& call.body@ == proxy_body_json(prompt, Some(max_tokens), Some(temperature_tenths), true)
    &&& call.max_response_bytes == MAX_RESPONSE_BYTES
    &&& call.budget == CALL_BUDGET
}

/// The lazy-init touch of the caller's profile, run by every authenticated
/// interaction; the identity guard is its callers' duty.
pub fn update_user_profile(state: &mut ServiceState, caller: &CallerId, now: u64)
    requires
        old(state).wf(),
    ensures
        final(state).wf(),
        final(state).documents@ == old(state).documents@,
        final(state).profiles@ =~= touched(old(state).profiles@, caller.text@, now),
{
    state.profiles.touch(&caller.text, now);
}

/// First half of the advice workflow: guard, touch, and assemble the
/// outbound call with the fixed advice parameters.
pub fn generate_legal_advice_request(
    state: &mut ServiceState,
    config: &ProxyConfig,
    caller: &CallerId,
    request: &LegalRequest,
    now: u64,
) -> (r: Result<ProxyCall, ServiceError>)
    requires
        old(state).wf(),
    ensures
        final(state).wf(),
        final(state).documents@ == old(state).documents@,
        caller.anonymous ==> (r matches Err(ServiceError::Unauthorized)) && final(state).profiles@
            == old(state).profiles@,
        !caller.anonymous ==> final(state).profiles@ =~= touched(
            old(state).profiles@,
            caller.text@,
            now,
        ) && match r {
            Ok(call) => call_matches(call, *config, advice_prompt(*request), 1000, 7),
            Err(_) => false,
        },
{
    if caller.anonymous {
        return Err(ServiceError::Unauthorized);
    }
    update_user_profile(state, caller, now);
    let prompt = build_advice_prompt(request);
    let proxy_request = ProxyRequest {
        prompt,
        max_tokens: Some(1000),
        temperature_tenths: Some(7),
        is_legal: true,
    };
    Ok(build_proxy_call(config, &proxy_request))
}

/// Second half of the advice workflow: validate the outcome; on success,
/// format a standalone document when a type was requested, but store
/// nothing.
pub fn generate_legal_advice_complete(
    request: &LegalRequest,
    outcome: ProxyOutcome,
    now: u64,
) -> (r: Result<LegalResponse, ServiceError>)
    ensures
        outcome_classified(outcome, r),
        match r {
            Ok(resp) => {
                &&& Some(resp.response@) == outcome_success_payload(outcome)
                &&& resp.status@ == "success"@
                &&& match resp.request_id {
                    Some(id) => id@ == dec_rep(now as nat),
                    None => false,
                }
                &&& match request.document_type {
                    Some(t) => match resp.document {
                        Some(d) => d@ == document_format(resp.response@, t@, now),
                        None => false,
                    },
                    None => resp.document is None,
                }
            },
            Err(_) => true,
        },
{
    match interpret_proxy_response(outcome) {
        Ok(response) => {
            let document = match &request.document_type {
                Some(t) => Some(generate_document(response.as_str(), t.as_str(), now)),
                None => None,
            };
            Ok(
                LegalResponse {
                    response,
                    document,
                    status: "success".to_owned(),
                    request_id: Some(u64_to_string(now)),
                },
            )
        },
        Err(e) => Err(e),
    }
}

/// First half of the document workflow: guard, touch, demand the document
/// type, and assemble the outbound call with the fixed document parameters.
pub fn generate_legal_document_request(
    state: &mut ServiceState,
    config: &ProxyConfig,
    caller: &CallerId,
    request: &LegalRequest,
    now: u64,
) -> (r: Result<ProxyCall, ServiceError>)
    requires
        old(state).wf(),
    ensures
        final(state).wf(),
        final(state).documents@ == old(state).documents@,
        caller.anonymous ==> (r matches Err(ServiceError::Unauthorized)) && final(state).profiles@
            == old(state).profiles@,
        !caller.anonymous ==> final(state).profiles@ =~= touched(
            old(state).profiles@,
            caller.text@,
            now,
        ) && match request.document_type {
            Some(t) => match r {
                Ok(call) => call_matches(call, *config, document_prompt(t@, *request), 1500, 5),
                Err(_) => false,
            },
            None => r matches Err(ServiceError::MissingField),
        },
{
    if caller.anonymous {
        return Err(ServiceError::Unauthorized);
    }
    update_user_profile(state, caller, now);
    let document_type = match &request.document_type {
        Some(t) => t.clone(),
        None => {
            return Err(ServiceError::MissingField);
        },
    };
    let prompt = build_document_prompt(&document_type, request);
    let proxy_request = ProxyRequest {
        prompt,
        max_tokens: Some(1500),
        temperature_tenths: Some(5),
        is_legal: true,
    };
    Ok(build_proxy_call(config, &proxy_request))
}

/// Second half of the document workflow: on proxy success, format the
/// document, store it under `doc_<callerText>_<now>`, and count it on the
/// caller's profile; on any failure, leave both stores untouched.
pub fn generate_legal_document_complete(
    state: &mut ServiceState,
    caller: &CallerId,
    document_type: &String,
    outcome: ProxyOutcome,
    now: u64,
) -> (r: Result<LegalResponse, ServiceError>)
    requires
        old(state).wf(),
        old(state).profiles@.contains_key(caller.text@),
        old(state).profiles@[caller.text@].document_count < u32::MAX,
    ensures
        final(state).wf(),
        outcome_classified(outcome, r),
        match r {
            Ok(resp) => {
                &&& resp.response@ == "Document generated successfully"@
                &&& resp.status@ == "success"@
                &&& match resp.request_id {
                    Some(id) => id@ == doc_key(caller.text@, now),
                    None => false,
                }
                &&& match resp.document {
                    Some(d) => {
                        &&& match outcome_success_payload(outcome) {
                            Some(content) => d@ == document_format(
                                content,
                                document_type@,
                                now,
                            ),
                            None => false,
                        }
                        &&& final(state).documents@ =~= old(state).documents@.insert(
                            doc_key(caller.text@, now),
                            d@,
                        )
                    },
                    None => false,
                }
                &&& final(state).profiles@ =~= old(state).profiles@.insert(
                    caller.text@,
                    ProfileView {
                        name: old(state).profiles@[caller.text@].name,
                        document_count: (old(state).profiles@[caller.text@].document_count
                            + 1) as u32,
                        last_active: now,
                    },
                )
            },
            Err(_) => final(state).documents@ == old(state).documents@ && final(state).profiles@
                == old(state).profiles@,
        },
{
    match interpret_proxy_response(outcome) {
        Ok(content) => {
            let document = generate_document(content.as_str(), document_type.as_str(), now);
            let key = make_doc_key(caller.text.as_str(), now);
            let stored = document.clone();
            let id = key.clone();
            state.documents.put(key, stored);
            state.profiles.increment_document_count(&caller.text, now);
            Ok(
                LegalResponse {
                    response: "Document generated successfully".to_owned(),
                    document: Some(document),
                    status: "success".to_owned(),
                    request_id: Some(id),
                },
            )
        },
        Err(e) => Err(e),
    }
}

/// Returns the stored text under a key; any authenticated caller may read
/// any key.
pub fn get_document(state: &ServiceState, caller: &CallerId, doc_id: &String) -> (r: Result<
    String,
    ServiceError,
>)
    requires
        state.wf(),
    ensures
        caller.anonymous ==> r matches Err(ServiceError::Unauthorized),
        !caller.anonymous ==> match r {
            Ok(text) => state.documents@.contains_key(doc_id@) && text@
                == state.documents@[doc_id@],
            Err(ServiceError::NotFound(m)) => !state.documents@.contains_key(doc_id@) && m@
                == "Document not found"@,
            Err(_) => false,
        },
{
    if caller.anonymous {
        return Err(ServiceError::Unauthorized);
    }
    match state.documents.get(doc_id) {
        Some(text) => Ok(text),
        None => Err(ServiceError::NotFound("Document not found".to_owned())),
    }
}

/// Exactly the documents of `docs` whose key carries the owner prefix of
/// `text`: each listed pair is stored with that prefix, every stored key
/// with that prefix is listed, and no key is listed twice.
pub open spec fn owner_listing(
    docs: Map<Seq<char>, Seq<char>>,
    text: Seq<char>,
    v: Seq<(String, String)>,
) -> bool {
    &&& forall|j: int|
        0 <= j < v.len() ==> {
            &&& doc_key_prefix(text).is_prefix_of((#[trigger] v[j]).0@)
            &&& docs.contains_key(v[j].0@)
            &&& v[j].1@ == docs[v[j].0@]
        }
    &&& forall|k: Seq<char>|
        docs.contains_key(k) && doc_key_prefix(text).is_prefix_of(k) ==> exists|j: int|
            0 <= j < v.len() && (#[trigger] v[j]).0@ == k
    &&& forall|j1: int, j2: int|
        0 <= j1 < j2 < v.len() ==> (#[trigger] v[j1]).0@ != (#[trigger] v[j2]).0@
}

/// Law: a caller's listing holds every stored key generated for that caller
/// and no key generated for any other caller, for caller texts free of the
/// key separator.
pub proof fn lemma_listing_owner_exact(
    docs: Map<Seq<char>, Seq<char>>,
    t1: Seq<char>,
    v: Seq<(String, String)>,
    t2: Seq<char>,
    n: u64,
)
    requires
        owner_listing(docs, t1, v),
        crate::keys::no_separator(t1),
        crate::keys::no_separator(t2),
        docs.contains_key(doc_key(t2, n)),
    ensures
        t1 == t2 ==> exists|j: int| 0 <= j < v.len() && (#[trigger] v[j]).0@ == doc_key(t2, n),
        t1 != t2 ==> forall|j: int| 0 <= j < v.len() ==> (#[trigger] v[j]).0@ != doc_key(t2, n),
{
    crate::keys::lemma_owner_prefix_exact(t1, t2, n);
    if t1 != t2 {
        assert forall|j: int| 0 <= j < v.len() implies (#[trigger] v[j]).0@ != doc_key(t2, n) by {
            if v[j].0@ == doc_key(t2, n) {
                assert(doc_key_prefix(t1).is_prefix_of(v[j].0@));
            }
        }
    }
}

/// Lists exactly the stored documents whose key carries the caller's owner
/// prefix, in unspecified order.
pub fn get_user_documents(state: &ServiceState, caller: &CallerId) -> (r: Result<
    Vec<(String, String)>,
    ServiceError,
>)
    requires
        state.wf(),
    ensures
        caller.anonymous ==> r matches Err(ServiceError::Unauthorized),
        !caller.anonymous ==> match r {
            Ok(v) => owner_listing(state.documents@, caller.text@, v@),
            Err(_) => false,
        },
{
    if caller.anonymous {
        return Err(ServiceError::Unauthorized);
    }
    let prefix = make_owner_prefix(caller.text.as_str());
    let v = state.documents.list_with_prefix(&prefix);
    proof {
        assert forall|j: int| 0 <= j < v@.len() implies doc_key_prefix(
            caller.text@,
        ).is_prefix_of((#[trigger] v@[j]).0@) by {
            assert(prefix@.is_prefix_of(v@[j].0@));
        }
        assert forall|k: Seq<char>|
            state.documents@.contains_key(k) && doc_key_prefix(caller.text@).is_prefix_of(
                k,
            ) implies exists|j: int| 0 <= j < v@.len() && (#[trigger] v@[j]).0@ == k by {
            assert(prefix@.is_prefix_of(k));
        }
        assert(owner_listing(state.documents@, caller.text@, v@));
    }
    Ok(v)
}

/// Returns the caller's own profile.
pub fn get_user_profile(state: &ServiceState, caller: &CallerId) -> (r: Result<
    UserProfile,
    ServiceError,
>)
    requires
        state.wf(),
    ensures
        caller.anonymous ==> r matches Err(ServiceError::Unauthorized),
        !caller.anonymous ==> match r {
            Ok(p) => state.profiles@.contains_key(caller.text@) && p@
                == state.profiles@[caller.text@],
            Err(ServiceError::NotFound(m)) => !state.profiles@.contains_key(caller.text@) && m@
                == "Profile not found"@,
            Err(_) => false,
        },
{
    if caller.anonymous {
        return Err(ServiceError::Unauthorized);
    }
    match state.profiles.get(&caller.text) {
        Some(p) => Ok(p),
        None => Err(ServiceError::NotFound("Profile not found".to_owned())),
    }
}

/// Sets the caller's display name, creating the profile by the lazy-init
/// rule if absent.
pub fn update_user_name(state: &mut ServiceState, caller: &CallerId, name: String, now: u64) -> (r:
    Result<(), ServiceError>)
    requires
        old(state).wf(),
    ensures
        final(state).wf(),
        final(state).documents@ == old(state).documents@,
        caller.anonymous ==> (r matches Err(ServiceError::Unauthorized)) && final(state).profiles@
            == old(state).profiles@,
        !caller.anonymous ==> (r matches Ok(())) && final(state).profiles@ =~= old(
            state,
        ).profiles@.insert(
            caller.text@,
            ProfileView {
                name: Some(name@),
                document_count: if old(state).profiles@.contains_key(caller.text@) {
                    old(state).profiles@[caller.text@].document_count
                } else {
                    0
                },
                last_active: now,
            },
        ),
{
    if caller.anonymous {
        return Err(ServiceError::Unauthorized);
    }
    state.profiles.set_name(&caller.text, name, now);
    Ok(())
}

/// The deterministic fill behind the platform's randomness hook: byte `i`
/// is `(time + i) mod 256`.
pub fn custom_getrandom_fill(time: u64, len: usize) -> (r: Vec<u8>)
    ensures
        r@.len() == len,
        forall|i: int| 0 <= i < len ==> r@[i] == (((time as int) + i) % 256) as u8,
{
    let mut v: Vec<u8> = Vec::new();
    let mut i: usize = 0;
    while i < len
        invariant
            i <= len,
            v@.len() == i,
            forall|j: int| 0 <= j < i ==> v@[j] == (((time as int) + j) % 256) as u8,
        decreases len - i,
    {
        let b = ((time as u128 + i as u128) % 256) as u8;
        v.push(b);
        i += 1;
    }
    v
}

} // verus!
