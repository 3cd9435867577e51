use wakili_backend::errors::ServiceError;
use wakili_backend::keys::CallerId;
use wakili_backend::proxy::{ProxyConfig, ProxyOutcome};
use wakili_backend::service::{
    custom_getrandom_fill, generate_document, generate_legal_advice_complete,
    generate_legal_advice_request, generate_legal_document_complete,
    generate_legal_document_request, get_document, get_user_documents, get_user_profile,
    LegalRequest, ServiceState,
};
use wakili_backend::text::u64_to_string;

fn proxy_config() -> ProxyConfig {
    ProxyConfig {
        url: "http://localhost:3000/openai".to_string(),
        auth_token: "test-token".to_string(),
    }
}

fn authenticated(text: &str) -> CallerId {
    CallerId { anonymous: false, text: text.to_string() }
}

fn anonymous() -> CallerId {
    CallerId { anonymous: true, text: "2vxsx-fae".to_string() }
}

fn document_request() -> LegalRequest {
    LegalRequest {
        prompt: "draft a sales agreement".to_string(),
        document_type: Some("contract".to_string()),
        context: None,
        is_confidential: None,
    }
}

fn success_outcome(result: &str) -> ProxyOutcome {
    ProxyOutcome::Response {
        status: 200,
        body: format!("{{\"success\":true,\"result\":\"{}\"}}", result).into_bytes(),
    }
}

#[test]
fn anonymous_caller_cannot_read_profile() {
    let state = ServiceState::new();
    let e = get_user_profile(&state, &anonymous()).unwrap_err();
    assert!(matches!(e, ServiceError::Unauthorized));
    assert_eq!(e.message(), "Unauthorized: Internet Identity required");
}

#[test]
fn anonymous_caller_cannot_start_workflows() {
    let mut state = ServiceState::new();
    let r = generate_legal_advice_request(
        &mut state,
        &proxy_config(),
        &anonymous(),
        &document_request(),
        1,
    );
    assert!(matches!(r, Err(ServiceError::Unauthorized)));
    let r = generate_legal_document_request(
        &mut state,
        &proxy_config(),
        &anonymous(),
        &document_request(),
        1,
    );
    assert!(matches!(r, Err(ServiceError::Unauthorized)));
    let r = get_user_documents(&state, &anonymous());
    assert!(matches!(r, Err(ServiceError::Unauthorized)));
    let r = get_document(&state, &anonymous(), &"doc_a_1".to_string());
    assert!(matches!(r, Err(ServiceError::Unauthorized)));
}

#[test]
fn missing_document_type_fails_before_any_call() {
    let mut state = ServiceState::new();
    let caller = authenticated("aaaaa-aa");
    let request = LegalRequest {
        prompt: "draft something".to_string(),
        document_type: None,
        context: None,
        is_confidential: None,
    };
    let r = generate_legal_document_request(&mut state, &proxy_config(), &caller, &request, 3);
    assert!(matches!(r, Err(ServiceError::MissingField)));
    let p = get_user_profile(&state, &caller).unwrap();
    assert_eq!(p.document_count, 0);
    assert_eq!(p.last_active, 3);
}

#[test]
fn document_request_builds_the_document_call() {
    let mut state = ServiceState::new();
    let caller = authenticated("aaaaa-aa");
    let call = generate_legal_document_request(
        &mut state,
        &proxy_config(),
        &caller,
        &document_request(),
        3,
    )
    .unwrap();
    assert_eq!(
        call.body,
        "{\"prompt\":\"Generate a professional legal contract document with these requirements: draft a sales agreement. Context: no additional context. \",\"max_tokens\":1500,\"temperature\":0.5,\"is_legal\":true}"
    );
}

#[test]
fn advice_request_builds_the_advice_call() {
    let mut state = ServiceState::new();
    let caller = authenticated("aaaaa-aa");
    let request = LegalRequest {
        prompt: "can I sublet?".to_string(),
        document_type: None,
        context: Some("tenancy in Nairobi".to_string()),
        is_confidential: Some(true),
    };
    let call =
        generate_legal_advice_request(&mut state, &proxy_config(), &caller, &request, 3).unwrap();
    assert_eq!(
        call.body,
        "{\"prompt\":\"As a legal AI advisor, provide general advice for: can I sublet?. Context: tenancy in Nairobi. This request is confidential - do not include any identifying information in the response.\",\"max_tokens\":1000,\"temperature\":0.7,\"is_legal\":true}"
    );
}

#[test]
fn successful_document_generation_stores_and_counts() {
    let mut state = ServiceState::new();
    let caller = authenticated("aaaaa-aa");
    let now: u64 = 1234567890;
    generate_legal_document_request(&mut state, &proxy_config(), &caller, &document_request(), now)
        .unwrap();
    let resp = generate_legal_document_complete(
        &mut state,
        &caller,
        &"contract".to_string(),
        success_outcome("Use form X"),
        now,
    )
    .unwrap();
    assert_eq!(resp.response, "Document generated successfully");
    assert_eq!(resp.status, "success");
    let key = resp.request_id.unwrap();
    assert_eq!(key, format!("doc_aaaaa-aa_{}", now));
    let document = resp.document.unwrap();
    assert!(document.starts_with("LEGAL DOCUMENT: CONTRACT"));
    assert!(document.contains("Use form X"));
    assert!(document.contains(
        "DISCLAIMER: This document was generated by AI and should be reviewed by a qualified legal professional before use."
    ));
    let stored = get_document(&state, &caller, &key).unwrap();
    assert_eq!(stored, document);
    assert_eq!(get_user_profile(&state, &caller).unwrap().document_count, 1);
    let listed = get_user_documents(&state, &caller).unwrap();
    assert_eq!(listed, vec![(key, document)]);
}

#[test]
fn repeated_generation_counts_and_keeps_distinct_keys() {
    let mut state = ServiceState::new();
    let caller = authenticated("aaaaa-aa");
    for now in [10u64, 11u64] {
        generate_legal_document_request(
            &mut state,
            &proxy_config(),
            &caller,
            &document_request(),
            now,
        )
        .unwrap();
        generate_legal_document_complete(
            &mut state,
            &caller,
            &"contract".to_string(),
            success_outcome("text"),
            now,
        )
        .unwrap();
    }
    assert_eq!(get_user_profile(&state, &caller).unwrap().document_count, 2);
    let listed = get_user_documents(&state, &caller).unwrap();
    assert_eq!(listed.len(), 2);
    assert_ne!(listed[0].0, listed[1].0);
}

#[test]
fn failed_document_generation_stores_nothing() {
    let mut state = ServiceState::new();
    let caller = authenticated("aaaaa-aa");
    generate_legal_document_request(&mut state, &proxy_config(), &caller, &document_request(), 7)
        .unwrap();
    let outcome = ProxyOutcome::Response { status: 500, body: Vec::new() };
    let e = generate_legal_document_complete(
        &mut state,
        &caller,
        &"contract".to_string(),
        outcome,
        7,
    )
    .unwrap_err();
    assert!(matches!(e, ServiceError::TransportError(_)));
    assert_eq!(get_user_profile(&state, &caller).unwrap().document_count, 0);
    assert!(get_user_documents(&state, &caller).unwrap().is_empty());
}

#[test]
fn advice_success_formats_but_does_not_store() {
    let mut state = ServiceState::new();
    let caller = authenticated("aaaaa-aa");
    let now: u64 = 99;
    generate_legal_advice_request(&mut state, &proxy_config(), &caller, &document_request(), now)
        .unwrap();
    let resp =
        generate_legal_advice_complete(&document_request(), success_outcome("Seek counsel"), now)
            .unwrap();
    assert_eq!(resp.response, "Seek counsel");
    assert_eq!(resp.status, "success");
    assert_eq!(resp.request_id.as_deref(), Some("99"));
    let document = resp.document.unwrap();
    assert!(document.starts_with("LEGAL DOCUMENT: CONTRACT"));
    assert_eq!(get_user_profile(&state, &caller).unwrap().document_count, 0);
    assert!(get_user_documents(&state, &caller).unwrap().is_empty());
}

#[test]
fn advice_without_type_returns_no_document() {
    let request = LegalRequest {
        prompt: "quick question".to_string(),
        document_type: None,
        context: None,
        is_confidential: None,
    };
    let resp = generate_legal_advice_complete(&request, success_outcome("Answer"), 5).unwrap();
    assert_eq!(resp.response, "Answer");
    assert!(resp.document.is_none());
}

#[test]
fn formatted_document_is_the_exact_template() {
    let text = generate_document("body text", "contract", 42);
    assert_eq!(
        text,
        "LEGAL DOCUMENT: CONTRACT\n\nbody text\n\n---\nGenerated by Wakili Legal AI Advisor\nTimestamp: 42\n\nDISCLAIMER: This document was generated by AI and should be reviewed by a qualified legal professional before use."
    );
}

#[test]
fn decimal_rendering_is_exact() {
    assert_eq!(u64_to_string(0), "0");
    assert_eq!(u64_to_string(7), "7");
    assert_eq!(u64_to_string(1234567890), "1234567890");
    assert_eq!(u64_to_string(u64::MAX), "18446744073709551615");
}

#[test]
fn random_fill_follows_the_time() {
    let bytes = custom_getrandom_fill(1000, 4);
    assert_eq!(bytes, vec![232, 233, 234, 235]);
    assert_eq!(custom_getrandom_fill(5, 0), Vec::<u8>::new());
    let wrapped = custom_getrandom_fill(u64::MAX, 2);
    assert_eq!(wrapped, vec![255, 0]);
}
