use requestlab::curl::{escape_single_quotes, to_curl};
use requestlab::models::{ApiRequest, AuthPayload, KeyValue};

fn no_auth() -> AuthPayload {
    AuthPayload {
        auth_type: "none".to_string(),
        token: None,
        api_key: None,
        api_value: None,
        api_location: None,
        username: None,
        password: None,
    }
}

#[test]
fn test_simple_get() {
    let req = ApiRequest {
        method: "GET".to_string(),
        url: "https://api.example.com/users".to_string(),
        params: vec![],
        headers: vec![],
        body: None,
        auth: no_auth(),
    };

    let curl = to_curl(&req);
    assert!(curl.contains("curl"));
    assert!(curl.contains("https://api.example.com/users"));
}

#[test]
fn test_post_with_json() {
    let req = ApiRequest {
        method: "POST".to_string(),
        url: "https://api.example.com/users".to_string(),
        params: vec![],
        headers: vec![],
        body: Some(r#"{"name":"John"}"#.to_string()),
        auth: no_auth(),
    };

    let curl = to_curl(&req);
    assert!(curl.contains("-X POST"));
    assert!(curl.contains("Content-Type: application/json"));
    assert!(curl.contains(r#"{"name":"John"}"#));
}

#[test]
fn test_bearer_auth() {
    let req = ApiRequest {
        method: "GET".to_string(),
        url: "https://api.example.com/protected".to_string(),
        params: vec![],
        headers: vec![],
        body: None,
        auth: AuthPayload {
            auth_type: "bearer".to_string(),
            token: Some("secret-token".to_string()),
            api_key: None,
            api_value: None,
            api_location: None,
            username: None,
            password: None,
        },
    };

    let curl = to_curl(&req);
    assert!(curl.contains("Authorization: Bearer secret-token"));
}

#[test]
fn test_query_params() {
    let req = ApiRequest {
        method: "GET".to_string(),
        url: "https://api.example.com/search".to_string(),
        params: vec![KeyValue {
            enabled: true,
            key: "q".to_string(),
            value: "test query".to_string(),
        }],
        headers: vec![],
        body: None,
        auth: no_auth(),
    };

    let curl = to_curl(&req);
    assert!(curl.contains("q=test%20query"));
}

#[test]
fn simple_get_has_no_method_flag_and_one_line() {
    let req = ApiRequest {
        method: "get".to_string(),
        url: "https://api.example.com/users".to_string(),
        params: vec![],
        headers: vec![],
        body: None,
        auth: no_auth(),
    };
    let curl = to_curl(&req);
    assert_eq!(curl, "curl 'https://api.example.com/users'");
    assert!(!curl.contains("-X"));
}

#[test]
fn rendering_is_deterministic() {
    let req = ApiRequest {
        method: "POST".to_string(),
        url: "https://api.example.com/a b".to_string(),
        params: vec![KeyValue { enabled: true, key: "x".to_string(), value: "1&2".to_string() }],
        headers: vec![KeyValue {
            enabled: true,
            key: "X-One".to_string(),
            value: "don't".to_string(),
        }],
        body: Some("{\"k\":1}".to_string()),
        auth: AuthPayload {
            auth_type: "basic".to_string(),
            token: None,
            api_key: None,
            api_value: None,
            api_location: None,
            username: Some("u".to_string()),
            password: Some("p".to_string()),
        },
    };
    let a = to_curl(&req);
    let b = to_curl(&req);
    assert_eq!(a.as_bytes(), b.as_bytes());
}

#[test]
fn long_commands_use_line_continuations() {
    let req = ApiRequest {
        method: "POST".to_string(),
        url: "https://api.example.com/users".to_string(),
        params: vec![],
        headers: vec![KeyValue {
            enabled: true,
            key: "X-Token".to_string(),
            value: "abc".to_string(),
        }],
        body: Some("{}".to_string()),
        auth: no_auth(),
    };
    let curl = to_curl(&req);
    assert!(curl.contains(" \\\n  "));
    assert_eq!(
        curl,
        "curl \\\n  -X POST \\\n  'https://api.example.com/users' \\\n  -H 'X-Token: abc' \\\n  -H 'Content-Type: application/json' \\\n  -d '{}'"
    );
}

#[test]
fn short_commands_stay_on_one_line() {
    let req = ApiRequest {
        method: "POST".to_string(),
        url: "https://api.example.com/users".to_string(),
        params: vec![],
        headers: vec![],
        body: None,
        auth: no_auth(),
    };
    assert_eq!(to_curl(&req), "curl -X POST 'https://api.example.com/users'");
}

#[test]
fn escapes_single_quotes_posix_style() {
    assert_eq!(escape_single_quotes("don't"), "don'\\''t");
    assert_eq!(escape_single_quotes("plain"), "plain");
    let req = ApiRequest {
        method: "GET".to_string(),
        url: "https://x/o'clock".to_string(),
        params: vec![],
        headers: vec![],
        body: None,
        auth: no_auth(),
    };
    assert!(to_curl(&req).contains("o'\\''clock"));
}

#[test]
fn apikey_query_location_augments_url_not_headers() {
    let req = ApiRequest {
        method: "GET".to_string(),
        url: "https://api.example.com/data".to_string(),
        params: vec![],
        headers: vec![],
        body: None,
        auth: AuthPayload {
            auth_type: "apikey".to_string(),
            token: None,
            api_key: Some("k".to_string()),
            api_value: Some("v".to_string()),
            api_location: Some("query".to_string()),
            username: None,
            password: None,
        },
    };
    let curl = to_curl(&req);
    assert!(curl.contains("https://api.example.com/data?k=v"));
    assert!(!curl.contains("-H"));
}

#[test]
fn apikey_header_location_adds_header_flag() {
    let req = ApiRequest {
        method: "GET".to_string(),
        url: "https://api.example.com/data".to_string(),
        params: vec![],
        headers: vec![],
        body: None,
        auth: AuthPayload {
            auth_type: "apikey".to_string(),
            token: None,
            api_key: Some("X-Api-Key".to_string()),
            api_value: Some("v".to_string()),
            api_location: None,
            username: None,
            password: None,
        },
    };
    let curl = to_curl(&req);
    assert!(curl.contains("-H 'X-Api-Key: v'"));
}

#[test]
fn basic_auth_uses_user_flag() {
    let req = ApiRequest {
        method: "GET".to_string(),
        url: "https://api.example.com/".to_string(),
        params: vec![],
        headers: vec![],
        body: None,
        auth: AuthPayload {
            auth_type: "basic".to_string(),
            token: None,
            api_key: None,
            api_value: None,
            api_location: None,
            username: Some("user".to_string()),
            password: Some("pass".to_string()),
        },
    };
    assert!(to_curl(&req).contains("-u 'user:pass'"));
}

#[test]
fn content_type_heuristic_respects_existing_header_and_shape() {
    let with_header = ApiRequest {
        method: "POST".to_string(),
        url: "https://x/".to_string(),
        params: vec![],
        headers: vec![KeyValue {
            enabled: true,
            key: "content-TYPE".to_string(),
            value: "text/plain".to_string(),
        }],
        body: Some("{\"a\":1}".to_string()),
        auth: no_auth(),
    };
    assert!(!to_curl(&with_header).contains("application/json"));

    let not_json = ApiRequest {
        method: "POST".to_string(),
        url: "https://x/".to_string(),
        params: vec![],
        headers: vec![],
        body: Some("plain words".to_string()),
        auth: no_auth(),
    };
    assert!(!to_curl(&not_json).contains("application/json"));

    let array_body = ApiRequest {
        method: "POST".to_string(),
        url: "https://x/".to_string(),
        params: vec![],
        headers: vec![],
        body: Some("  [1,2]  ".to_string()),
        auth: no_auth(),
    };
    assert!(to_curl(&array_body).contains("Content-Type: application/json"));
}

#[test]
fn disabled_and_blank_params_are_skipped() {
    let req = ApiRequest {
        method: "GET".to_string(),
        url: "https://x/p?a=1".to_string(),
        params: vec![
            KeyValue { enabled: false, key: "off".to_string(), value: "1".to_string() },
            KeyValue { enabled: true, key: "   ".to_string(), value: "1".to_string() },
            KeyValue { enabled: true, key: "b".to_string(), value: "2".to_string() },
        ],
        headers: vec![],
        body: None,
        auth: no_auth(),
    };
    let curl = to_curl(&req);
    assert!(curl.contains("https://x/p?a=1&b=2"));
    assert!(!curl.contains("off"));
}
