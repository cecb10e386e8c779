use requestlab::history::{uuid_simple, HistoryEntry};
use requestlab::models::{ApiRequest, ApiResponse, AuthPayload, ResponseBody};
use requestlab::workspace::{extract_endpoint, SavedRequest};

fn no_auth() -> AuthPayload {
    AuthPayload {
        auth_type: "none".to_string(),
        token: None,
        api_key: None,
        api_value: None,
        api_location: None,
        username: None,
        password: None,
    }
}

fn sample_request() -> ApiRequest {
    ApiRequest {
        method: "GET".to_string(),
        url: "https://api.example.com/users".to_string(),
        params: vec![],
        headers: vec![],
        body: None,
        auth: no_auth(),
    }
}

fn sample_response() -> ApiResponse {
    ApiResponse {
        status: 200,
        status_text: "OK".to_string(),
        time: 42,
        size: "0.00".to_string(),
        headers: vec![],
        body: ResponseBody::Text(String::new()),
    }
}

#[test]
fn test_extract_endpoint() {
    assert_eq!(extract_endpoint("https://api.example.com/users/123"), ".../users/123");
    assert_eq!(extract_endpoint("https://api.example.com/users"), "/users");
    assert_eq!(extract_endpoint("https://api.example.com"), "api.example.com");
}

#[test]
fn extract_endpoint_falls_back_on_unparseable_urls() {
    assert_eq!(extract_endpoint("not a url"), "Request");
    assert_eq!(extract_endpoint(""), "Request");
}

#[test]
fn extract_endpoint_takes_last_two_segments() {
    assert_eq!(extract_endpoint("https://h.example/a/b/c/d"), ".../c/d");
    assert_eq!(extract_endpoint("https://h.example/a/b"), ".../a/b");
    assert_eq!(extract_endpoint("https://h.example//a//b//"), ".../a/b");
}

#[test]
fn saved_request_default_name_joins_method_and_endpoint() {
    let saved = SavedRequest::from_request(sample_request());
    assert_eq!(saved.name, "GET /users");
    assert_eq!(saved.request.url, "https://api.example.com/users");
    assert_eq!(saved.request.method, "GET");
}

#[test]
fn history_entry_copies_summary_fields() {
    let entry = HistoryEntry::new(sample_request(), sample_response());
    assert_eq!(entry.method, "GET");
    assert_eq!(entry.url, "https://api.example.com/users");
    assert_eq!(entry.status, 200);
    assert_eq!(entry.time_ms, 42);
    assert_eq!(entry.request.url, "https://api.example.com/users");
    assert_eq!(entry.response.status_text, "OK");
}

#[test]
fn history_entry_id_is_timestamp_dash_hex() {
    let entry = HistoryEntry::new(sample_request(), sample_response());
    let (ts, hex) = entry.id.split_once('-').expect("id holds a dash");
    assert_eq!(ts.parse::<i64>().ok(), Some(entry.timestamp));
    assert!(!hex.is_empty());
    assert!(hex.chars().all(|c| c.is_ascii_hexdigit()));
}

#[test]
fn uuid_simple_is_short_lowercase_hex() {
    let id = uuid_simple();
    assert!(!id.is_empty());
    assert!(id.len() <= 8);
    assert!(id.chars().all(|c| c.is_ascii_digit() || ('a'..='f').contains(&c)));
}
