use requestlab::models::{ApiRequest, AuthPayload, EnvVar, KeyValue};
use requestlab::resolver::{env_vars_to_map, resolve_request_variables, resolve_variables};

#[test]
fn test_simple_replacement() {
    let vars = env_vars_to_map(&vec![EnvVar {
        key: "API_URL".to_string(),
        value: "https://api.example.com".to_string(),
        enabled: true,
    }]);

    let result = resolve_variables("{{API_URL}}/users", &vars);
    assert_eq!(result, "https://api.example.com/users");
}

#[test]
fn test_multiple_variables() {
    let vars = env_vars_to_map(&vec![
        EnvVar { key: "HOST".to_string(), value: "example.com".to_string(), enabled: true },
        EnvVar { key: "PORT".to_string(), value: "8080".to_string(), enabled: true },
    ]);

    let result = resolve_variables("http://{{HOST}}:{{PORT}}/api", &vars);
    assert_eq!(result, "http://example.com:8080/api");
}

#[test]
fn test_unresolved_variable() {
    let vars = env_vars_to_map(&Vec::new());

    let result = resolve_variables("{{UNKNOWN}}/path", &vars);
    assert_eq!(result, "{{UNKNOWN}}/path");
}

#[test]
fn test_no_variables() {
    let vars = env_vars_to_map(&Vec::new());

    let result = resolve_variables("https://api.example.com", &vars);
    assert_eq!(result, "https://api.example.com");
}

#[test]
fn test_case_sensitive() {
    let vars = env_vars_to_map(&vec![EnvVar {
        key: "token".to_string(),
        value: "lowercase".to_string(),
        enabled: true,
    }]);

    let result = resolve_variables("{{TOKEN}}", &vars);
    assert_eq!(result, "{{TOKEN}}");

    let result2 = resolve_variables("{{token}}", &vars);
    assert_eq!(result2, "lowercase");
}

#[test]
fn test_partial_braces() {
    let vars = env_vars_to_map(&Vec::new());

    let result = resolve_variables("{single}", &vars);
    assert_eq!(result, "{single}");
}

#[test]
fn no_placeholder_round_trip() {
    let vars = env_vars_to_map(&vec![EnvVar {
        key: "X".to_string(),
        value: "y".to_string(),
        enabled: true,
    }]);
    let inputs = ["", "plain text", "{single}", "a } b { c", "tail}}", "{ {x} }"];
    for s in inputs {
        assert_eq!(resolve_variables(s, &vars), s);
    }
}

#[test]
fn empty_mapping_identity() {
    let vars = env_vars_to_map(&Vec::new());
    let inputs = ["", "https://x/{{A}}/y", "{{A}}{{B}}", "a{{name}}b", "{single}"];
    for s in inputs {
        assert_eq!(resolve_variables(s, &vars), s);
    }
}

#[test]
fn unterminated_placeholder_emits_captured_text() {
    let vars = env_vars_to_map(&Vec::new());
    assert_eq!(resolve_variables("{{abc", &vars), "abc");
    assert_eq!(resolve_variables("x{{a}b", &vars), "xa}b");
}

#[test]
fn substituted_value_not_rescanned() {
    let vars = env_vars_to_map(&vec![
        EnvVar { key: "A".to_string(), value: "{{B}}".to_string(), enabled: true },
        EnvVar { key: "B".to_string(), value: "boom".to_string(), enabled: true },
    ]);
    assert_eq!(resolve_variables("{{A}}", &vars), "{{B}}");
}

#[test]
fn disabled_variables_are_ignored() {
    let vars = env_vars_to_map(&vec![
        EnvVar { key: "A".to_string(), value: "on".to_string(), enabled: true },
        EnvVar { key: "B".to_string(), value: "off".to_string(), enabled: false },
    ]);
    assert_eq!(resolve_variables("{{A}}-{{B}}", &vars), "on-{{B}}");
}

#[test]
fn request_resolution_covers_all_string_fields() {
    let vars = env_vars_to_map(&vec![EnvVar {
        key: "V".to_string(),
        value: "w".to_string(),
        enabled: true,
    }]);
    let req = ApiRequest {
        method: "{{V}}".to_string(),
        url: "https://{{V}}/x".to_string(),
        params: vec![KeyValue {
            enabled: true,
            key: "{{V}}k".to_string(),
            value: "{{V}}v".to_string(),
        }],
        headers: vec![KeyValue {
            enabled: false,
            key: "h{{V}}".to_string(),
            value: "{{V}}".to_string(),
        }],
        body: Some("b={{V}}".to_string()),
        auth: AuthPayload {
            auth_type: "bearer".to_string(),
            token: Some("t-{{V}}".to_string()),
            api_key: Some("{{V}}".to_string()),
            api_value: Some("{{V}}".to_string()),
            api_location: Some("{{V}}".to_string()),
            username: Some("u{{V}}".to_string()),
            password: Some("p{{V}}".to_string()),
        },
    };
    let r = resolve_request_variables(&req, &vars);
    assert_eq!(r.method, "{{V}}");
    assert_eq!(r.url, "https://w/x");
    assert_eq!(r.params[0].key, "wk");
    assert_eq!(r.params[0].value, "wv");
    assert!(!r.headers[0].enabled);
    assert_eq!(r.headers[0].key, "hw");
    assert_eq!(r.headers[0].value, "w");
    assert_eq!(r.body.as_deref(), Some("b=w"));
    assert_eq!(r.auth.token.as_deref(), Some("t-w"));
    assert_eq!(r.auth.api_key.as_deref(), Some("w"));
    assert_eq!(r.auth.api_value.as_deref(), Some("w"));
    assert_eq!(r.auth.api_location.as_deref(), Some("{{V}}"));
    assert_eq!(r.auth.username.as_deref(), Some("uw"));
    assert_eq!(r.auth.password.as_deref(), Some("pw"));
    assert_eq!(req.url, "https://{{V}}/x");
}
