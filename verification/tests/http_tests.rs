use requestlab::http::{build_response, format_size_kib, prepare_request};
use requestlab::models::{ApiError, ApiRequest, AuthPayload, KeyValue, ResponseBody};

fn no_auth() -> AuthPayload {
    AuthPayload {
        auth_type: "none".to_string(),
        token: None,
        api_key: None,
        api_value: None,
        api_location: None,
        username: None,
        password: None,
    }
}

fn base_request() -> ApiRequest {
    ApiRequest {
        method: "get".to_string(),
        url: "https://api.example.com/users".to_string(),
        params: vec![],
        headers: vec![],
        body: None,
        auth: no_auth(),
    }
}

#[test]
fn rejects_malformed_urls() {
    let mut req = base_request();
    req.url = "not a url".to_string();
    assert_eq!(prepare_request(&req).err(), Some(ApiError::InvalidUrl));
}

#[test]
fn rejects_malformed_methods() {
    let mut req = base_request();
    req.method = "GE T".to_string();
    assert_eq!(prepare_request(&req).err(), Some(ApiError::InvalidMethod));
    req.method = "".to_string();
    assert_eq!(prepare_request(&req).err(), Some(ApiError::InvalidMethod));
}

#[test]
fn uppercases_methods_and_keeps_extension_tokens() {
    let mut req = base_request();
    req.method = "patch".to_string();
    let p = prepare_request(&req).unwrap();
    assert_eq!(p.method, "PATCH");

    req.method = "custom-verb".to_string();
    let p2 = prepare_request(&req).unwrap();
    assert_eq!(p2.method, "CUSTOM-VERB");
}

#[test]
fn get_and_delete_bodies_are_dropped() {
    let mut req = base_request();
    req.body = Some("{\"a\":1}".to_string());
    let p = prepare_request(&req).unwrap();
    assert!(p.body.is_none());

    req.method = "delete".to_string();
    let p2 = prepare_request(&req).unwrap();
    assert!(p2.body.is_none());

    req.method = "post".to_string();
    let p3 = prepare_request(&req).unwrap();
    assert_eq!(p3.body.as_deref(), Some("{\"a\":1}"));

    req.body = Some("   ".to_string());
    let p4 = prepare_request(&req).unwrap();
    assert!(p4.body.is_none());
}

#[test]
fn normalizes_headers_dropping_malformed_entries() {
    let mut req = base_request();
    req.headers = vec![
        KeyValue { enabled: true, key: "Accept".to_string(), value: "a/b".to_string() },
        KeyValue { enabled: false, key: "Skip".to_string(), value: "x".to_string() },
        KeyValue { enabled: true, key: "  ".to_string(), value: "x".to_string() },
        KeyValue { enabled: true, key: "Bad Name".to_string(), value: "x".to_string() },
        KeyValue { enabled: true, key: "Bad-Value".to_string(), value: "a\nb".to_string() },
        KeyValue { enabled: true, key: "ACCEPT".to_string(), value: "c/d".to_string() },
    ];
    let p = prepare_request(&req).unwrap();
    assert_eq!(p.headers.len(), 1);
    let (name, value) = p.headers.entry_at(0);
    assert_eq!(name, "Accept");
    assert_eq!(value, "c/d");
}

#[test]
fn applies_params_then_auth_to_url() {
    let mut req = base_request();
    req.url = "https://api.example.com/search".to_string();
    req.params = vec![KeyValue {
        enabled: true,
        key: "q".to_string(),
        value: "test query".to_string(),
    }];
    req.auth = AuthPayload {
        auth_type: "apikey".to_string(),
        token: None,
        api_key: Some("k".to_string()),
        api_value: Some("v".to_string()),
        api_location: Some("query".to_string()),
        username: None,
        password: None,
    };
    let p = prepare_request(&req).unwrap();
    assert_eq!(p.url, "https://api.example.com/search?q=test%20query&k=v");
    assert_eq!(p.headers.len(), 0);
}

#[test]
fn user_headers_are_applied_before_auth() {
    let mut req = base_request();
    req.headers = vec![KeyValue {
        enabled: true,
        key: "Authorization".to_string(),
        value: "Foo".to_string(),
    }];
    req.auth = AuthPayload {
        auth_type: "bearer".to_string(),
        token: Some("secret-token".to_string()),
        api_key: None,
        api_value: None,
        api_location: None,
        username: None,
        password: None,
    };
    let p = prepare_request(&req).unwrap();
    assert_eq!(p.headers.len(), 1);
    let (name, value) = p.headers.entry_at(0);
    assert_eq!(name, "Authorization");
    assert_eq!(value, "Foo");
}

#[test]
fn bearer_auth_populates_header_set() {
    let mut req = base_request();
    req.auth = AuthPayload {
        auth_type: "bearer".to_string(),
        token: Some("secret-token".to_string()),
        api_key: None,
        api_value: None,
        api_location: None,
        username: None,
        password: None,
    };
    let p = prepare_request(&req).unwrap();
    assert_eq!(p.headers.len(), 1);
    let (name, value) = p.headers.entry_at(0);
    assert_eq!(name, "Authorization");
    assert_eq!(value, "Bearer secret-token");
}

#[test]
fn auth_encoding_failure_is_fatal() {
    let mut req = base_request();
    req.auth = AuthPayload {
        auth_type: "bearer".to_string(),
        token: Some("bad\ntoken".to_string()),
        api_key: None,
        api_value: None,
        api_location: None,
        username: None,
        password: None,
    };
    assert_eq!(prepare_request(&req).err(), Some(ApiError::InvalidAuthEncoding));
}

#[test]
fn size_is_kib_with_two_decimals_ties_to_even() {
    assert_eq!(format_size_kib(0), "0.00");
    assert_eq!(format_size_kib(1024), "1.00");
    assert_eq!(format_size_kib(1536), "1.50");
    assert_eq!(format_size_kib(10), "0.01");
    assert_eq!(format_size_kib(128), "0.12");
    assert_eq!(format_size_kib(384), "0.38");
    assert_eq!(format_size_kib(1024 * 1024), "1024.00");
}

#[test]
fn response_body_is_json_when_it_parses() {
    let r = build_response(200, "OK".to_string(), 12, vec![], b"{\"a\": 1}".to_vec());
    match &r.body {
        ResponseBody::Json(text) => assert_eq!(text, "{\"a\": 1}"),
        ResponseBody::Text(_) => panic!("expected parsed JSON"),
    }
    assert_eq!(r.status, 200);
    assert_eq!(r.status_text, "OK");
    assert_eq!(r.time, 12);
    assert_eq!(r.size, "0.01");
}

#[test]
fn response_body_falls_back_to_text() {
    let r = build_response(200, "OK".to_string(), 1, vec![], b"not json".to_vec());
    match &r.body {
        ResponseBody::Text(text) => assert_eq!(text, "not json"),
        ResponseBody::Json(_) => panic!("expected plain text"),
    }
}

#[test]
fn response_body_decodes_invalid_utf8_lossily() {
    let r = build_response(200, "OK".to_string(), 1, vec![], vec![0xff, b'h', b'i']);
    match &r.body {
        ResponseBody::Text(text) => assert_eq!(text, "\u{fffd}hi"),
        ResponseBody::Json(_) => panic!("expected plain text"),
    }
}

#[test]
fn response_headers_keep_last_value_per_name() {
    let pairs = vec![
        ("content-type".to_string(), "a".to_string()),
        ("x-one".to_string(), "1".to_string()),
        ("content-type".to_string(), "b".to_string()),
    ];
    let r = build_response(204, "No Content".to_string(), 3, pairs, vec![]);
    assert_eq!(
        r.headers,
        vec![
            ("content-type".to_string(), "b".to_string()),
            ("x-one".to_string(), "1".to_string()),
        ]
    );
}
