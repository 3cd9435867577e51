use wakili_backend::errors::{workflow_failure_message, ServiceError};
use wakili_backend::proxy::{
    build_proxy_call, interpret_proxy_response, transform_response, ProxyConfig, ProxyOutcome,
    ProxyRequest,
};

fn config() -> ProxyConfig {
    ProxyConfig {
        url: "http://localhost:3000/openai".to_string(),
        auth_token: "test-token".to_string(),
    }
}

fn response(status: u64, body: &str) -> ProxyOutcome {
    ProxyOutcome::Response { status, body: body.as_bytes().to_vec() }
}

#[test]
fn built_call_has_endpoint_headers_and_caps() {
    let request = ProxyRequest {
        prompt: "hello".to_string(),
        max_tokens: Some(1000),
        temperature_tenths: Some(7),
        is_legal: true,
    };
    let call = build_proxy_call(&config(), &request);
    assert_eq!(call.url, "http://localhost:3000/openai");
    assert_eq!(call.headers.len(), 2);
    assert_eq!(call.headers[0].0, "Content-Type");
    assert_eq!(call.headers[0].1, "application/json");
    assert_eq!(call.headers[1].0, "Authorization");
    assert_eq!(call.headers[1].1, "Bearer test-token");
    assert_eq!(call.max_response_bytes, 8192);
    assert_eq!(call.budget, 25_000_000_000);
}

#[test]
fn body_is_the_exact_wire_json() {
    let request = ProxyRequest {
        prompt: "hello".to_string(),
        max_tokens: Some(1000),
        temperature_tenths: Some(7),
        is_legal: true,
    };
    let call = build_proxy_call(&config(), &request);
    assert_eq!(
        call.body,
        "{\"prompt\":\"hello\",\"max_tokens\":1000,\"temperature\":0.7,\"is_legal\":true}"
    );
}

#[test]
fn body_escapes_prompt_content() {
    let request = ProxyRequest {
        prompt: "say \"hi\"\\\nplease\t\u{1}".to_string(),
        max_tokens: Some(1500),
        temperature_tenths: Some(5),
        is_legal: true,
    };
    let call = build_proxy_call(&config(), &request);
    assert_eq!(
        call.body,
        "{\"prompt\":\"say \\\"hi\\\"\\\\\\nplease\\t\\u0001\",\"max_tokens\":1500,\"temperature\":0.5,\"is_legal\":true}"
    );
    let parsed: serde_json::Value = serde_json::from_str(&call.body).unwrap();
    assert_eq!(
        parsed.get("prompt").unwrap().as_str().unwrap(),
        "say \"hi\"\\\nplease\t\u{1}"
    );
}

#[test]
fn transport_failure_is_a_transport_error() {
    let e = interpret_proxy_response(ProxyOutcome::Failure(
        "HTTP request failed: SysTransient - timed out".to_string(),
    ))
    .unwrap_err();
    match e {
        ServiceError::TransportError(m) => {
            assert_eq!(m, "HTTP request failed: SysTransient - timed out")
        }
        other => panic!("expected a transport error, got {:?}", other),
    }
}

#[test]
fn non_200_status_is_a_transport_error() {
    let e = interpret_proxy_response(response(500, "{\"success\":true}")).unwrap_err();
    match e {
        ServiceError::TransportError(m) => assert_eq!(m, "HTTP error: status 500"),
        other => panic!("expected a transport error, got {:?}", other),
    }
}

#[test]
fn invalid_utf8_is_an_encoding_error() {
    let outcome = ProxyOutcome::Response { status: 200, body: vec![0xff, 0xfe, b'{'] };
    let e = interpret_proxy_response(outcome).unwrap_err();
    assert!(matches!(e, ServiceError::EncodingError));
    assert_eq!(e.message(), "Failed to parse response body as UTF-8");
}

#[test]
fn unparsable_text_is_a_protocol_error() {
    let e = interpret_proxy_response(response(200, "not json at all")).unwrap_err();
    match e {
        ServiceError::ProtocolError(m) => {
            assert!(m.starts_with("Failed to parse JSON response: "))
        }
        other => panic!("expected a protocol error, got {:?}", other),
    }
}

#[test]
fn wrong_shape_is_a_protocol_error() {
    let e = interpret_proxy_response(response(200, "{\"success\":\"yes\"}")).unwrap_err();
    assert!(matches!(e, ServiceError::ProtocolError(_)));
}

#[test]
fn success_returns_the_result_payload() {
    let r = interpret_proxy_response(response(
        200,
        "{\"success\":true,\"result\":\"Use form X\"}",
    ));
    assert_eq!(r.unwrap(), "Use form X");
}

#[test]
fn success_without_result_is_a_protocol_error() {
    let e = interpret_proxy_response(response(200, "{\"success\":true}")).unwrap_err();
    match e {
        ServiceError::ProtocolError(m) => assert_eq!(m, "No result in successful response"),
        other => panic!("expected a protocol error, got {:?}", other),
    }
}

#[test]
fn reported_failure_carries_the_proxy_message() {
    let e = interpret_proxy_response(response(
        200,
        "{\"success\":false,\"error\":\"quota exceeded\"}",
    ))
    .unwrap_err();
    match &e {
        ServiceError::ProxyError(m) => assert_eq!(m, "quota exceeded"),
        other => panic!("expected a proxy error, got {:?}", other),
    }
    assert!(workflow_failure_message(&e).contains("quota exceeded"));
    assert_eq!(workflow_failure_message(&e), "OpenAI proxy error: quota exceeded");
}

#[test]
fn reported_failure_without_message_is_generic() {
    let e = interpret_proxy_response(response(200, "{\"success\":false}")).unwrap_err();
    match e {
        ServiceError::ProxyError(m) => assert_eq!(m, "Unknown proxy error"),
        other => panic!("expected a proxy error, got {:?}", other),
    }
}

#[test]
fn null_fields_count_as_absent() {
    let e = interpret_proxy_response(response(
        200,
        "{\"success\":false,\"error\":null}",
    ))
    .unwrap_err();
    assert!(matches!(e, ServiceError::ProxyError(m) if m == "Unknown proxy error"));
}

#[test]
fn sanitizer_keeps_status_and_body_and_fixes_headers() {
    let r = transform_response(503, vec![1, 2, 3]);
    assert_eq!(r.status, 503);
    assert_eq!(r.body, vec![1, 2, 3]);
    assert_eq!(
        r.headers,
        vec![
            ("content-security-policy".to_string(), "default-src 'self'".to_string()),
            ("referrer-policy".to_string(), "strict-origin".to_string()),
        ]
    );
}
