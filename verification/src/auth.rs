//! Authentication application: per-scheme mutation of the header set and
//! target URL. Injection is additive and defers to explicit user headers: a
//! pre-populated `Authorization` header is never overwritten.
use vstd::prelude::*;
use vstd::utf8::encode_utf8;

use crate::encoding::base64_encode_bytes;
use crate::headers::{
    header_name_ok, header_name_ok_exec, header_value_ok, header_value_ok_exec, hs_contains,
    hs_set, HeaderSet,
};
use crate::models::{ApiError, AuthKind, auth_kind_of, AuthPayload, AuthPayloadView};
use crate::text::{is_blank, is_blank_exec, str_eq};
use crate::urlbuild::{append_pair_spec, append_query_pair};

verus! {

/// The `Authorization` value a bearer token yields.
pub open spec fn bearer_value(token: Seq<char>) -> Seq<char> {
    "Bearer "@ + token
}

/// The `Authorization` value basic credentials yield: base64 of
/// `username:password` in UTF-8, standard alphabet, padded.
pub open spec fn basic_value(username: Seq<char>, password: Seq<char>) -> Seq<char> {
    "Basic "@ + base64_encode_bytes(encode_utf8(username + seq![':'] + password))
}

/// Whether the descriptor selects the query location for an API key.
pub open spec fn api_location_is_query(auth: AuthPayloadView) -> bool {
    match auth.api_location {
        Option::Some(l) => l == "query"@,
        Option::None => false,
    }
}

/// What applying an authentication descriptor leaves behind.
pub ghost struct AuthOutcome {
    pub headers: Seq<(Seq<char>, Seq<char>)>,
    pub url: Seq<char>,
    pub ok: bool,
}

pub open spec fn unchanged_ok(hs: Seq<(Seq<char>, Seq<char>)>, url: Seq<char>) -> AuthOutcome {
    AuthOutcome { headers: hs, url: url, ok: true }
}

/// The meaning of authentication application.
///
/// - bearer: a non-blank token sets `Authorization: Bearer <token>`, but an
///   already present `Authorization` header (any name case) always wins; a
///   token that is no valid header value is an encoding error.
/// - apikey: a non-blank key either appends `key=value` to the URL query (query
///   location) or sets a header named by the key (default location), the
///   latter only when the name is absent and both sides are valid; an invalid
///   or conflicting entry is skipped silently.
/// - basic: non-blank credentials set `Authorization: Basic <base64>`, again
///   never overwriting; a value outside the header character set is an
///   encoding error.
/// - none or an unrecognized selector: never changes anything and never fails.
pub open spec fn apply_auth_spec(
    auth: AuthPayloadView,
    hs: Seq<(Seq<char>, Seq<char>)>,
    url: Seq<char>,
) -> AuthOutcome {
    match auth_kind_of(auth.auth_type) {
        AuthKind::Bearer => match auth.token {
            Option::Some(tok) => {
                if is_blank(tok) {
                    unchanged_ok(hs, url)
                } else if !header_value_ok(bearer_value(tok)) {
                    AuthOutcome { headers: hs, url: url, ok: false }
                } else if hs_contains(hs, "Authorization"@) {
                    unchanged_ok(hs, url)
                } else {
                    AuthOutcome {
                        headers: hs_set(hs, "Authorization"@, bearer_value(tok)),
                        url: url,
                        ok: true,
                    }
                }
            },
            Option::None => unchanged_ok(hs, url),
        },
        AuthKind::ApiKey => match (auth.api_key, auth.api_value) {
            (Option::Some(key), Option::Some(value)) => {
                if is_blank(key) {
                    unchanged_ok(hs, url)
                } else if api_location_is_query(auth) {
                    AuthOutcome { headers: hs, url: append_pair_spec(url, key, value), ok: true }
                } else if header_name_ok(key) && header_value_ok(value) && !hs_contains(hs, key) {
                    AuthOutcome { headers: hs_set(hs, key, value), url: url, ok: true }
                } else {
                    unchanged_ok(hs, url)
                }
            },
            _ => unchanged_ok(hs, url),
        },
        AuthKind::Basic => match (auth.username, auth.password) {
            (Option::Some(user), Option::Some(pass)) => {
                if is_blank(user) || is_blank(pass) {
                    unchanged_ok(hs, url)
                } else if !header_value_ok(basic_value(user, pass)) {
                    AuthOutcome { headers: hs, url: url, ok: false }
                } else if hs_contains(hs, "Authorization"@) {
                    unchanged_ok(hs, url)
                } else {
                    AuthOutcome {
                        headers: hs_set(hs, "Authorization"@, basic_value(user, pass)),
                        url: url,
                        ok: true,
                    }
                }
            },
            _ => unchanged_ok(hs, url),
        },
        AuthKind::NoAuth => unchanged_ok(hs, url),
    }
}

/// Applies the authentication descriptor to the header set and URL. Fails
/// only when an `Authorization` value to be injected cannot be encoded as a
/// header value; every other malformed datum is skipped silently.
pub fn apply_auth(auth: &AuthPayload, headers: &mut HeaderSet, url: &mut String) -> (r: Result<
    (),
    ApiError,
>)
    ensures
        ({
            let o = apply_auth_spec(auth@, old(headers)@, old(url)@);
            &&& final(headers)@ == o.headers
            &&& final(url)@ == o.url
            &&& r is Ok == o.ok
            &&& (r is Err ==> r == Result::<(), ApiError>::Err(ApiError::InvalidAuthEncoding))
        }),
{
    if str_eq(auth.auth_type.as_str(), "bearer") {
        match &auth.token {
            Option::Some(tok) => {
                if is_blank_exec(tok.as_str()) {
                    return Result::Ok(());
                }
                let mut value = String::new();
                value.append("Bearer ");
                value.append(tok.as_str());
                if !header_value_ok_exec(value.as_str()) {
                    return Result::Err(ApiError::InvalidAuthEncoding);
                }
                if !headers.contains_name("Authorization") {
                    let mut name = String::new();
                    name.append("Authorization");
                    headers.set_header(name, value);
                }
                Result::Ok(())
            },
            Option::None => Result::Ok(()),
        }
    } else if str_eq(auth.auth_type.as_str(), "apikey") {
        match (&auth.api_key, &auth.api_value) {
            (Option::Some(key), Option::Some(value)) => {
                if is_blank_exec(key.as_str()) {
                    return Result::Ok(());
                }
                let loc_query = match &auth.api_location {
                    Option::Some(l) => str_eq(l.as_str(), "query"),
                    Option::None => false,
                };
                if loc_query {
                    append_query_pair(url, key.as_str(), value.as_str());
                } else {
                    if header_name_ok_exec(key.as_str()) && header_value_ok_exec(value.as_str())
                        && !headers.contains_name(key.as_str()) {
                        headers.set_header(key.clone(), value.clone());
                    }
                }
                Result::Ok(())
            },
            _ => Result::Ok(()),
        }
    } else if str_eq(auth.auth_type.as_str(), "basic") {
        match (&auth.username, &auth.password) {
            (Option::Some(user), Option::Some(pass)) => {
                if is_blank_exec(user.as_str()) || is_blank_exec(pass.as_str()) {
                    return Result::Ok(());
                }
                let mut creds = String::new();
                creds.append(user.as_str());
                creds.push(':');
                creds.append(pass.as_str());
                proof {
                    assert(creds@ =~= user@ + seq![':'] + pass@);
                }
                let encoded = crate::encoding::base64_encode(creds.as_str());
                let mut value = String::new();
                value.append("Basic ");
                value.append(encoded.as_str());
                if !header_value_ok_exec(value.as_str()) {
                    return Result::Err(ApiError::InvalidAuthEncoding);
                }
                if !headers.contains_name("Authorization") {
                    let mut name = String::new();
                    name.append("Authorization");
                    headers.set_header(name, value);
                }
                Result::Ok(())
            },
            _ => Result::Ok(()),
        }
    } else {
        Result::Ok(())
    }
}

proof fn lemma_base64_char_ok(i: int)
    requires
        0 <= i < 64,
    ensures
        crate::headers::is_value_char(crate::encoding::base64_char(i)),
{
}

proof fn lemma_base64_output_ok(bs: Seq<u8>)
    ensures
        forall|k: int|
            0 <= k < base64_encode_bytes(bs).len() ==> crate::headers::is_value_char(
                #[trigger] base64_encode_bytes(bs)[k],
            ),
    decreases bs.len(),
{
    let out = base64_encode_bytes(bs);
    if bs.len() == 0 {
    } else if bs.len() == 1 {
        let b0 = bs[0] as int;
        lemma_base64_char_ok(b0 / 4);
        lemma_base64_char_ok((b0 % 4) * 16);
    } else if bs.len() == 2 {
        let b0 = bs[0] as int;
        let b1 = bs[1] as int;
        lemma_base64_char_ok(b0 / 4);
        lemma_base64_char_ok((b0 % 4) * 16 + b1 / 16);
        lemma_base64_char_ok((b1 % 16) * 4);
    } else {
        let b0 = bs[0] as int;
        let b1 = bs[1] as int;
        let b2 = bs[2] as int;
        lemma_base64_char_ok(b0 / 4);
        lemma_base64_char_ok((b0 % 4) * 16 + b1 / 16);
        lemma_base64_char_ok((b1 % 16) * 4 + b2 / 64);
        lemma_base64_char_ok(b2 % 64);
        lemma_base64_output_ok(bs.skip(3));
        assert forall|k: int| 0 <= k < out.len() implies crate::headers::is_value_char(
            #[trigger] out[k],
        ) by {
            if k >= 4 {
                assert(out[k] == base64_encode_bytes(bs.skip(3))[k - 4]);
            }
        }
    }
}

/// A `Basic` credential value always encodes as a header value: the base64
/// alphabet, the padding character and the scheme prefix all lie in the
/// header character set, so basic authentication never fails.
pub proof fn lemma_basic_value_always_ok(username: Seq<char>, password: Seq<char>)
    ensures
        header_value_ok(basic_value(username, password)),
{
    let v = basic_value(username, password);
    let prefix = "Basic "@;
    reveal_strlit("Basic ");
    lemma_base64_output_ok(encode_utf8(username + seq![':'] + password));
    assert forall|k: int| 0 <= k < v.len() implies crate::headers::is_value_char(
        #[trigger] v[k],
    ) by {
        if k < 6 {
            assert(v[k] == prefix[k]);
            assert(crate::headers::is_value_char(prefix[0]));
            assert(crate::headers::is_value_char(prefix[1]));
            assert(crate::headers::is_value_char(prefix[2]));
            assert(crate::headers::is_value_char(prefix[3]));
            assert(crate::headers::is_value_char(prefix[4]));
            assert(crate::headers::is_value_char(prefix[5]));
        } else {
            assert(v[k] == base64_encode_bytes(encode_utf8(username + seq![':'] + password))[k
                - 6]);
        }
    }
}

/// Basic authentication with both credentials present and non-blank never
/// fails: it either defers to a present `Authorization` header or injects
/// one.
pub proof fn lemma_basic_never_fails(
    auth: AuthPayloadView,
    hs: Seq<(Seq<char>, Seq<char>)>,
    url: Seq<char>,
)
    requires
        auth_kind_of(auth.auth_type) is Basic,
        auth.username matches Option::Some(u) && !is_blank(u),
        auth.password matches Option::Some(p) && !is_blank(p),
    ensures
        apply_auth_spec(auth, hs, url).ok,
{
    lemma_basic_value_always_ok(auth.username->0, auth.password->0);
}

/// Bearer injection never overrides: with an `Authorization` header already
/// present (matched case-insensitively), applying bearer authentication with
/// any token leaves the header set and URL exactly as they were.
pub proof fn lemma_bearer_never_overrides(
    auth: AuthPayloadView,
    hs: Seq<(Seq<char>, Seq<char>)>,
    url: Seq<char>,
)
    requires
        auth_kind_of(auth.auth_type) is Bearer,
        hs_contains(hs, "Authorization"@),
    ensures
        apply_auth_spec(auth, hs, url).headers == hs,
        apply_auth_spec(auth, hs, url).url == url,
{
}

/// An API key sent in the query never touches the header set: it only
/// appends `key=value` to the URL, after `&` when a query string is already
/// there and after `?` otherwise.
pub proof fn lemma_apikey_query_splits(
    auth: AuthPayloadView,
    hs: Seq<(Seq<char>, Seq<char>)>,
    url: Seq<char>,
)
    requires
        auth_kind_of(auth.auth_type) is ApiKey,
        api_location_is_query(auth),
        auth.api_key matches Option::Some(k) && !is_blank(k),
        auth.api_value is Some,
    ensures
        apply_auth_spec(auth, hs, url).headers == hs,
        apply_auth_spec(auth, hs, url).url == append_pair_spec(
            url,
            auth.api_key->0,
            auth.api_value->0,
        ),
        apply_auth_spec(auth, hs, url).ok,
{
}

} // verus!
