use axum_harness::counter_http::{
    parse_counter_response, request_failed, CounterError, CounterHttpClient, CounterId, CounterOp,
    CounterReply, Method,
};

fn headers(v: &[(&str, &str)]) -> Vec<(String, String)> {
    v.iter().map(|(a, b)| (a.to_string(), b.to_string())).collect()
}

#[test]
fn increment_sends_idempotency_key_header() {
    let client = CounterHttpClient::new("http://127.0.0.1:1234/", "token");
    let req = client.request(CounterOp::Increment, &CounterId::new("tenant-a"), Some("idem-123"));
    assert_eq!(req.method, Method::Post);
    assert_eq!(req.url, "http://127.0.0.1:1234/api/counter/increment");
    assert_eq!(
        req.headers,
        headers(&[("Authorization", "Bearer token"), ("X-Tenant-Id", "tenant-a"), ("Idempotency-Key", "idem-123")])
    );
    let reply = CounterReply { status: 200, error_message: None, value: Ok(1) };
    assert_eq!(parse_counter_response(&reply).ok(), Some(1));
}

#[test]
fn reading_the_value_is_a_plain_get() {
    let client = CounterHttpClient::new("http://bff//", "t");
    assert_eq!(client.base_url, "http://bff");
    assert_eq!(client.url("/x"), "http://bff/x");
    assert_eq!(client.auth_header_value(), "Bearer t");
    let req = client.request(CounterOp::GetValue, &CounterId::new("t1"), Some("ignored"));
    assert_eq!(req.method, Method::Get);
    assert_eq!(req.url, "http://bff/api/counter/value");
    assert_eq!(req.headers, headers(&[("Authorization", "Bearer t"), ("X-Tenant-Id", "t1")]));
    let reset = client.request(CounterOp::Reset, &CounterId::new("t1"), None);
    assert_eq!(reset.url, "http://bff/api/counter/reset");
    assert_eq!(reset.headers.len(), 2);
}

#[test]
fn error_replies_become_counter_errors() {
    let not_found = CounterReply { status: 404, error_message: None, value: Err("x".into()) };
    match parse_counter_response(&not_found) {
        Err(CounterError::NotFound(m)) => assert_eq!(m, "Counter not found"),
        other => panic!("unexpected {:?}", other),
    }
    let named = CounterReply { status: 404, error_message: Some("no tenant".into()), value: Err("x".into()) };
    match parse_counter_response(&named) {
        Err(CounterError::NotFound(m)) => assert_eq!(m, "no tenant"),
        other => panic!("unexpected {:?}", other),
    }
    let server = CounterReply { status: 503, error_message: None, value: Err("x".into()) };
    match parse_counter_response(&server) {
        Err(CounterError::Database(m)) => assert_eq!(m, "HTTP 503: Unknown error"),
        other => panic!("unexpected {:?}", other),
    }
    let garbled = CounterReply { status: 200, error_message: None, value: Err("expected value".into()) };
    match parse_counter_response(&garbled) {
        Err(CounterError::Database(m)) => assert_eq!(m, "Failed to parse response: expected value"),
        other => panic!("unexpected {:?}", other),
    }
    match request_failed("connection refused") {
        CounterError::Database(m) => assert_eq!(m, "HTTP request failed: connection refused"),
        other => panic!("unexpected {:?}", other),
    }
}
