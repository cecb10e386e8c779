use requestlab::auth::apply_auth;
use requestlab::headers::HeaderSet;
use requestlab::models::{ApiError, AuthPayload};

fn auth(kind: &str) -> AuthPayload {
    AuthPayload {
        auth_type: kind.to_string(),
        token: None,
        api_key: None,
        api_value: None,
        api_location: None,
        username: None,
        password: None,
    }
}

fn entries(hs: &HeaderSet) -> Vec<(String, String)> {
    let mut out = Vec::new();
    let mut i = 0;
    while i < hs.len() {
        let (name, value) = hs.entry_at(i);
        out.push((name.clone(), value.clone()));
        i += 1;
    }
    out
}

#[test]
fn bearer_sets_authorization_header() {
    let mut a = auth("bearer");
    a.token = Some("secret-token".to_string());
    let mut hs = HeaderSet::new();
    let mut url = "https://x/".to_string();
    apply_auth(&a, &mut hs, &mut url).unwrap();
    assert_eq!(entries(&hs), vec![("Authorization".to_string(), "Bearer secret-token".to_string())]);
    assert_eq!(url, "https://x/");
}

#[test]
fn bearer_never_overrides_existing_authorization() {
    let mut a = auth("bearer");
    a.token = Some("anything at all".to_string());
    let mut hs = HeaderSet::new();
    hs.set_header("Authorization".to_string(), "Foo".to_string());
    let mut url = "https://x/".to_string();
    apply_auth(&a, &mut hs, &mut url).unwrap();
    assert_eq!(entries(&hs), vec![("Authorization".to_string(), "Foo".to_string())]);

    let mut hs2 = HeaderSet::new();
    hs2.set_header("aUtHoRiZaTiOn".to_string(), "Foo".to_string());
    apply_auth(&a, &mut hs2, &mut url).unwrap();
    assert_eq!(entries(&hs2), vec![("aUtHoRiZaTiOn".to_string(), "Foo".to_string())]);
}

#[test]
fn bearer_blank_token_is_a_no_op() {
    let mut a = auth("bearer");
    a.token = Some("   ".to_string());
    let mut hs = HeaderSet::new();
    let mut url = "https://x/".to_string();
    apply_auth(&a, &mut hs, &mut url).unwrap();
    assert_eq!(hs.len(), 0);
}

#[test]
fn bearer_unencodable_token_fails() {
    let mut a = auth("bearer");
    a.token = Some("bad\ntoken".to_string());
    let mut hs = HeaderSet::new();
    let mut url = "https://x/".to_string();
    let r = apply_auth(&a, &mut hs, &mut url);
    assert_eq!(r, Err(ApiError::InvalidAuthEncoding));
    assert_eq!(hs.len(), 0);
}

#[test]
fn apikey_query_location_appends_pair_and_no_header() {
    let mut a = auth("apikey");
    a.api_key = Some("k".to_string());
    a.api_value = Some("v".to_string());
    a.api_location = Some("query".to_string());

    let mut hs = HeaderSet::new();
    let mut url = "https://x/p".to_string();
    apply_auth(&a, &mut hs, &mut url).unwrap();
    assert_eq!(url, "https://x/p?k=v");
    assert_eq!(hs.len(), 0);

    let mut url2 = "https://x/p?a=1".to_string();
    apply_auth(&a, &mut hs, &mut url2).unwrap();
    assert_eq!(url2, "https://x/p?a=1&k=v");
    assert_eq!(hs.len(), 0);
}

#[test]
fn apikey_header_location_respects_presence_and_validity() {
    let mut a = auth("apikey");
    a.api_key = Some("X-Key".to_string());
    a.api_value = Some("v".to_string());

    let mut hs = HeaderSet::new();
    let mut url = "https://x/".to_string();
    apply_auth(&a, &mut hs, &mut url).unwrap();
    assert_eq!(entries(&hs), vec![("X-Key".to_string(), "v".to_string())]);

    let mut hs2 = HeaderSet::new();
    hs2.set_header("x-key".to_string(), "mine".to_string());
    apply_auth(&a, &mut hs2, &mut url).unwrap();
    assert_eq!(entries(&hs2), vec![("x-key".to_string(), "mine".to_string())]);

    let mut bad = auth("apikey");
    bad.api_key = Some("bad key".to_string());
    bad.api_value = Some("v".to_string());
    let mut hs3 = HeaderSet::new();
    apply_auth(&bad, &mut hs3, &mut url).unwrap();
    assert_eq!(hs3.len(), 0);
}

#[test]
fn basic_sets_padded_standard_base64() {
    let mut a = auth("basic");
    a.username = Some("user".to_string());
    a.password = Some("pass".to_string());
    let mut hs = HeaderSet::new();
    let mut url = "https://x/".to_string();
    apply_auth(&a, &mut hs, &mut url).unwrap();
    assert_eq!(entries(&hs), vec![("Authorization".to_string(), "Basic dXNlcjpwYXNz".to_string())]);

    let mut b = auth("basic");
    b.username = Some("ab".to_string());
    b.password = Some("c".to_string());
    let mut hs2 = HeaderSet::new();
    apply_auth(&b, &mut hs2, &mut url).unwrap();
    assert_eq!(entries(&hs2), vec![("Authorization".to_string(), "Basic YWI6Yw==".to_string())]);
}

#[test]
fn basic_requires_both_credentials_and_defers_to_user_header() {
    let mut a = auth("basic");
    a.username = Some("user".to_string());
    a.password = Some("  ".to_string());
    let mut hs = HeaderSet::new();
    let mut url = "https://x/".to_string();
    apply_auth(&a, &mut hs, &mut url).unwrap();
    assert_eq!(hs.len(), 0);

    let mut b = auth("basic");
    b.username = Some("user".to_string());
    b.password = Some("pass".to_string());
    let mut hs2 = HeaderSet::new();
    hs2.set_header("Authorization".to_string(), "Foo".to_string());
    apply_auth(&b, &mut hs2, &mut url).unwrap();
    assert_eq!(entries(&hs2), vec![("Authorization".to_string(), "Foo".to_string())]);
}

#[test]
fn none_and_unknown_kinds_are_no_ops() {
    for kind in ["none", "unknown", ""] {
        let a = auth(kind);
        let mut hs = HeaderSet::new();
        let mut url = "https://x/".to_string();
        assert!(apply_auth(&a, &mut hs, &mut url).is_ok());
        assert_eq!(hs.len(), 0);
        assert_eq!(url, "https://x/");
    }
}
