//! The value types that flow through the request pipeline: key/value entries,
//! the authentication descriptor, the request and response descriptors, the
//! environment-variable record, and the error kinds a call can surface.
use vstd::prelude::*;

verus! {

/// A single header or query parameter entry. Disabled entries are inert and
/// excluded from every rendering.
pub struct KeyValue {
    pub enabled: bool,
    pub key: String,
    pub value: String,
}

#[verifier::ext_equal]
pub ghost struct KeyValueView {
    pub enabled: bool,
    pub key: Seq<char>,
    pub value: Seq<char>,
}

impl View for KeyValue {
    type V = KeyValueView;

    open spec fn view(&self) -> KeyValueView {
        KeyValueView { enabled: self.enabled, key: self.key@, value: self.value@ }
    }
}

impl Clone for KeyValue {
    fn clone(&self) -> (r: Self)
        ensures
            r@ == self@,
    {
        KeyValue {
            enabled: self.enabled,
            key: self.key.clone(),
            value: self.value.clone(),
        }
    }
}

/// The authentication descriptor: a scheme selector plus the fields the
/// scheme consults. Fields irrelevant to the selected scheme are ignored.
pub struct AuthPayload {
    pub auth_type: String,
    pub token: Option<String>,
    pub api_key: Option<String>,
    pub api_value: Option<String>,
    pub api_location: Option<String>,
    pub username: Option<String>,
    pub password: Option<String>,
}

#[verifier::ext_equal]
pub ghost struct AuthPayloadView {
    pub auth_type: Seq<char>,
    pub token: Option<Seq<char>>,
    pub api_key: Option<Seq<char>>,
    pub api_value: Option<Seq<char>>,
    pub api_location: Option<Seq<char>>,
    pub username: Option<Seq<char>>,
    pub password: Option<Seq<char>>,
}

pub open spec fn opt_view(o: Option<String>) -> Option<Seq<char>> {
    match o {
        Option::Some(s) => Option::Some(s@),
        Option::None => Option::None,
    }
}

impl View for AuthPayload {
    type V = AuthPayloadView;

    open spec fn view(&self) -> AuthPayloadView {
        AuthPayloadView {
            auth_type: self.auth_type@,
            token: opt_view(self.token),
            api_key: opt_view(self.api_key),
            api_value: opt_view(self.api_value),
            api_location: opt_view(self.api_location),
            username: opt_view(self.username),
            password: opt_view(self.password),
        }
    }
}

pub fn clone_opt_string(o: &Option<String>) -> (r: Option<String>)
    ensures
        opt_view(r) == opt_view(*o),
{
    match o {
        Option::Some(s) => Option::Some(s.clone()),
        Option::None => Option::None,
    }
}

impl Clone for AuthPayload {
    fn clone(&self) -> (r: Self)
        ensures
            r@ == self@,
    {
        AuthPayload {
            auth_type: self.auth_type.clone(),
            token: clone_opt_string(&self.token),
            api_key: clone_opt_string(&self.api_key),
            api_value: clone_opt_string(&self.api_value),
            api_location: clone_opt_string(&self.api_location),
            username: clone_opt_string(&self.username),
            password: clone_opt_string(&self.password),
        }
    }
}

/// The closed set of authentication schemes. An unrecognized selector string
/// behaves as no authentication.
pub enum AuthKind {
    NoAuth,
    Bearer,
    ApiKey,
    Basic,
}

/// The scheme that an `auth_type` selector string names.
pub open spec fn auth_kind_of(t: Seq<char>) -> AuthKind {
    if t == "bearer"@ {
        AuthKind::Bearer
    } else if t == "apikey"@ {
        AuthKind::ApiKey
    } else if t == "basic"@ {
        AuthKind::Basic
    } else {
        AuthKind::NoAuth
    }
}

/// A declarative request description, owned by the caller. The pipeline never
/// mutates it: every transformation produces a derived copy.
pub struct ApiRequest {
    pub method: String,
    pub url: String,
    pub params: Vec<KeyValue>,
    pub headers: Vec<KeyValue>,
    pub body: Option<String>,
    pub auth: AuthPayload,
}

#[verifier::ext_equal]
pub ghost struct ApiRequestView {
    pub method: Seq<char>,
    pub url: Seq<char>,
    pub params: Seq<KeyValueView>,
    pub headers: Seq<KeyValueView>,
    pub body: Option<Seq<char>>,
    pub auth: AuthPayloadView,
}

impl View for ApiRequest {
    type V = ApiRequestView;

    open spec fn view(&self) -> ApiRequestView {
        ApiRequestView {
            method: self.method@,
            url: self.url@,
            params: self.params.deep_view(),
            headers: self.headers.deep_view(),
            body: opt_view(self.body),
            auth: self.auth@,
        }
    }
}

impl DeepView for KeyValue {
    type V = KeyValueView;

    open spec fn deep_view(&self) -> KeyValueView {
        self@
    }
}

pub fn clone_kv_list(list: &Vec<KeyValue>) -> (r: Vec<KeyValue>)
    ensures
        r.deep_view() == list.deep_view(),
{
    let mut out: Vec<KeyValue> = Vec::new();
    let n = list.len();
    for i in 0..n
        invariant
            n == list@.len(),
            out@.len() == i,
            forall|j: int| 0 <= j < i ==> #[trigger] out.deep_view()[j] == list.deep_view()[j],
    {
        let ghost prev = out.deep_view();
        out.push(list[i].clone());
        proof {
            assert forall|j: int| 0 <= j < i + 1 implies #[trigger] out.deep_view()[j]
                == list.deep_view()[j] by {
                assert(out.deep_view()[j] == out@[j].deep_view());
                if j < i {
                    assert(out@[j].deep_view() == prev[j]);
                }
            }
        }
    }
    proof {
        assert(out.deep_view() =~= list.deep_view());
    }
    out
}

impl Clone for ApiRequest {
    fn clone(&self) -> (r: Self)
        ensures
            r@ == self@,
    {
        ApiRequest {
            method: self.method.clone(),
            url: self.url.clone(),
            params: clone_kv_list(&self.params),
            headers: clone_kv_list(&self.headers),
            body: clone_opt_string(&self.body),
            auth: self.auth.clone(),
        }
    }
}

/// The response body is always representable as a JSON value: either the raw
/// text parsed as strict JSON, or the (lossily decoded) text taken as a plain
/// JSON string.
pub enum ResponseBody {
    Json(String),
    Text(String),
}

pub ghost struct ResponseBodyView {
    pub is_json: bool,
    pub text: Seq<char>,
}

impl View for ResponseBody {
    type V = ResponseBodyView;

    open spec fn view(&self) -> ResponseBodyView {
        match self {
            ResponseBody::Json(s) => ResponseBodyView { is_json: true, text: s@ },
            ResponseBody::Text(s) => ResponseBodyView { is_json: false, text: s@ },
        }
    }
}

/// A normalized response: status line data, elapsed wall-clock time, body
/// size in KiB formatted to two decimals, headers with last value winning on
/// duplicate names, and the body as a JSON-representable value.
pub struct ApiResponse {
    pub status: u16,
    pub status_text: String,
    pub time: u128,
    pub size: String,
    pub headers: Vec<(String, String)>,
    pub body: ResponseBody,
}

pub ghost struct ApiResponseView {
    pub status: u16,
    pub status_text: Seq<char>,
    pub time: u128,
    pub size: Seq<char>,
    pub headers: Seq<(Seq<char>, Seq<char>)>,
    pub body: ResponseBodyView,
}

impl View for ApiResponse {
    type V = ApiResponseView;

    open spec fn view(&self) -> ApiResponseView {
        ApiResponseView {
            status: self.status,
            status_text: self.status_text@,
            time: self.time,
            size: self.size@,
            headers: Seq::new(
                self.headers@.len(),
                |i: int| (self.headers@[i].0@, self.headers@[i].1@),
            ),
            body: self.body@,
        }
    }
}

/// One persisted environment variable. Only enabled variables feed the
/// resolver.
pub struct EnvVar {
    pub key: String,
    pub value: String,
    pub enabled: bool,
}

pub ghost struct EnvVarView {
    pub key: Seq<char>,
    pub value: Seq<char>,
    pub enabled: bool,
}

impl View for EnvVar {
    type V = EnvVarView;

    open spec fn view(&self) -> EnvVarView {
        EnvVarView { key: self.key@, value: self.value@, enabled: self.enabled }
    }
}

impl DeepView for EnvVar {
    type V = EnvVarView;

    open spec fn deep_view(&self) -> EnvVarView {
        self@
    }
}

/// The default for an environment variable's `enabled` flag when a stored
/// record does not carry one.
pub fn default_enabled() -> (r: bool)
    ensures
        r == true,
{
    true
}

/// The error kinds a pipeline call can surface. Malformed individual header
/// or query entries never produce one of these: they are dropped silently.
#[derive(PartialEq, Eq, Structural, Clone, Copy, Debug)]
pub enum ApiError {
    InvalidUrl,
    InvalidMethod,
    InvalidAuthEncoding,
    NetworkFailure,
    Timeout,
    BodyReadFailure,
    SerializationFailure,
}

} // verus!
