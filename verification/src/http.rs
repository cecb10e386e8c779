//! The compute half of live execution: validating and preparing a request
//! before the network call, and normalizing the raw response afterwards. The
//! network call itself lives with the caller; everything on both sides of it
//! is specified here.
use vstd::prelude::*;

use crate::auth::{apply_auth, apply_auth_spec};
use crate::encoding::{dec_digit, dec_nat, u128_to_dec};
use crate::headers::{hs_set, is_token_char, is_token_char_exec, normalize_headers, HeaderSet};
use crate::models::{ApiError, ApiRequest, ApiResponse, ResponseBody, ResponseBodyView};
use crate::text::{is_blank, is_blank_exec, str_eq, to_upper, upper_seq};
use crate::urlbuild::{build_url_spec, build_url_with_params};
use vstd::string::StrSliceExecFns;

verus! {

/// What `url::Url::parse` makes of a text: nothing when it is no absolute
/// URL, else the host (when the URL has one) and the normalized path.
pub uninterp spec fn url_parse_result(s: Seq<char>) -> Option<(Option<Seq<char>>, Seq<char>)>;

/// Relies on `url::Url::parse` (the WHATWG URL parser), `Url::host_str` and
/// `Url::path`: parses the text as an absolute URL and hands back the host
/// and the path; the outcome depends on the text alone.
#[verifier::external_body]
pub fn parse_url_parts(s: &str) -> (r: Option<(Option<String>, String)>)
    ensures
        r is Some == url_parse_result(s@) is Some,
        r matches Option::Some(p) ==> url_parse_result(s@) matches Option::Some(q)
            && crate::models::opt_view(p.0) == q.0 && p.1@ == q.1,
{
    match url::Url::parse(s) {
        Ok(u) => Some((u.host_str().map(|h| h.to_string()), u.path().to_string())),
        Err(_) => None,
    }
}

/// What strict JSON parsing makes of a byte string: whether it is a single
/// well-formed JSON document.
pub uninterp spec fn json_wellformed(bytes: Seq<u8>) -> bool;

/// Relies on `serde_json::from_slice::<Value>`: succeeds exactly on a strict
/// JSON document; the outcome depends on the bytes alone.
#[verifier::external_body]
fn is_strict_json(bytes: &Vec<u8>) -> (r: bool)
    ensures
        r == json_wellformed(bytes@),
{
    serde_json::from_slice::<serde_json::Value>(bytes.as_slice()).is_ok()
}

/// The text that lossy UTF-8 decoding makes of a byte string.
pub uninterp spec fn utf8_lossy(bytes: Seq<u8>) -> Seq<char>;

/// Relies on `String::from_utf8_lossy`: decodes the bytes as UTF-8, putting
/// the replacement character for invalid sequences; depends on the bytes
/// alone.
#[verifier::external_body]
fn decode_utf8_lossy(bytes: &Vec<u8>) -> (r: String)
    ensures
        r@ == utf8_lossy(bytes@),
{
    String::from_utf8_lossy(bytes.as_slice()).into_owned()
}

/// A valid HTTP method token: non-empty, token characters only. Extension
/// methods are allowed; an unparseable token is rejected.
pub open spec fn valid_method(s: Seq<char>) -> bool {
    s.len() > 0 && forall|i: int| 0 <= i < s.len() ==> is_token_char(#[trigger] s[i])
}

pub fn valid_method_exec(s: &str) -> (r: bool)
    ensures
        r == valid_method(s@),
{
    let n = s.unicode_len();
    if n == 0 {
        return false;
    }
    for i in 0..n
        invariant
            n == s@.len(),
            forall|j: int| 0 <= j < i ==> is_token_char(#[trigger] s@[j]),
    {
        if !is_token_char_exec(s.get_char(i)) {
            return false;
        }
    }
    true
}

/// A request readied for dispatch: uppercased method, final URL, final header
/// set, and the body that will actually be sent.
pub struct PreparedRequest {
    pub method: String,
    pub url: String,
    pub headers: HeaderSet,
    pub body: Option<String>,
}

pub ghost struct PreparedRequestView {
    pub method: Seq<char>,
    pub url: Seq<char>,
    pub headers: Seq<(Seq<char>, Seq<char>)>,
    pub body: Option<Seq<char>>,
}

impl View for PreparedRequest {
    type V = PreparedRequestView;

    open spec fn view(&self) -> PreparedRequestView {
        PreparedRequestView {
            method: self.method@,
            url: self.url@,
            headers: self.headers@,
            body: crate::models::opt_view(self.body),
        }
    }
}

/// Whether the (uppercased) method carries a body: GET and DELETE bodies are
/// dropped by design, even when supplied.
pub open spec fn method_carries_body(m: Seq<char>) -> bool {
    m != "GET"@ && m != "DELETE"@
}

/// The meaning of request preparation. In order: the base URL must parse
/// (else `InvalidUrl`); the uppercased method must be a valid token (else
/// `InvalidMethod`); parameters and headers are normalized; authentication is
/// applied and may fail with `InvalidAuthEncoding`; a non-blank body is kept
/// only for a method that carries one.
pub open spec fn prepare_spec(rq: crate::models::ApiRequestView) -> Result<
    PreparedRequestView,
    ApiError,
> {
    if url_parse_result(rq.url) is None {
        Result::Err(ApiError::InvalidUrl)
    } else {
        let m = upper_seq(rq.method);
        if !valid_method(m) {
            Result::Err(ApiError::InvalidMethod)
        } else {
            let url = build_url_spec(rq.url, rq.params);
            let hs = normalize_headers(rq.headers);
            let o = apply_auth_spec(rq.auth, hs, url);
            if !o.ok {
                Result::Err(ApiError::InvalidAuthEncoding)
            } else {
                let body = if !method_carries_body(m) {
                    Option::<Seq<char>>::None
                } else {
                    match rq.body {
                        Option::Some(b) => if is_blank(b) {
                            Option::<Seq<char>>::None
                        } else {
                            Option::Some(b)
                        },
                        Option::None => Option::<Seq<char>>::None,
                    }
                };
                Result::Ok(
                    PreparedRequestView { method: m, url: o.url, headers: o.headers, body: body },
                )
            }
        }
    }
}

/// Validates and prepares a request for dispatch: URL and method validation,
/// query and header normalization, authentication, and the body-carrying
/// rule. Succeeds exactly when the URL parses, the uppercased method is a
/// token, and authentication encodes.
pub fn prepare_request(req: &ApiRequest) -> (r: Result<PreparedRequest, ApiError>)
    ensures
        ({
            match r {
                Result::Ok(p) => prepare_spec(req@) == Result::<
                    PreparedRequestView,
                    ApiError,
                >::Ok(p@),
                Result::Err(e) => prepare_spec(req@) == Result::<
                    PreparedRequestView,
                    ApiError,
                >::Err(e),
            }
        }),
{
    if parse_url_parts(req.url.as_str()).is_none() {
        return Result::Err(ApiError::InvalidUrl);
    }
    let method = to_upper(req.method.as_str());
    if !valid_method_exec(method.as_str()) {
        return Result::Err(ApiError::InvalidMethod);
    }
    let mut url = build_url_with_params(req);
    let mut headers = HeaderSet::from_list(&req.headers);
    match apply_auth(&req.auth, &mut headers, &mut url) {
        Result::Ok(()) => {},
        Result::Err(e) => {
            return Result::Err(e);
        },
    }
    let carries = !(str_eq(method.as_str(), "GET") || str_eq(method.as_str(), "DELETE"));
    let body: Option<String> = if carries {
        match &req.body {
            Option::Some(b) => {
                if is_blank_exec(b.as_str()) {
                    Option::None
                } else {
                    Option::Some(b.clone())
                }
            },
            Option::None => Option::None,
        }
    } else {
        Option::None
    };
    Result::Ok(PreparedRequest { method, url, headers, body })
}

/// The body size in hundredths of a KiB, rounded to nearest with ties to
/// even — exactly the two-decimal rendering of `bytes / 1024`.
pub open spec fn size_hundredths(bytes: nat) -> nat {
    let t = bytes * 25;
    let q = t / 256;
    let r = t % 256;
    if r > 128 || (r == 128 && q % 2 == 1) {
        (q + 1) as nat
    } else {
        q
    }
}

/// The KiB size string: whole part, a dot, and exactly two decimal digits.
pub open spec fn size_kib_spec(bytes: nat) -> Seq<char> {
    let h = size_hundredths(bytes);
    dec_nat(h / 100) + seq!['.', dec_digit(((h / 10) % 10) as int), dec_digit((h % 10) as int)]
}

/// Formats a byte count as KiB with exactly two decimal digits, rounding to
/// nearest with ties to even.
pub fn format_size_kib(bytes: usize) -> (r: String)
    ensures
        r@ == size_kib_spec(bytes as nat),
{
    let t: u128 = (bytes as u128) * 25;
    let q: u128 = t / 256;
    let rem: u128 = t % 256;
    let h: u128 = if rem > 128 || (rem == 128 && q % 2 == 1) {
        q + 1
    } else {
        q
    };
    proof {
        assert(h == size_hundredths(bytes as nat));
    }
    let mut out = u128_to_dec(h / 100);
    out.push('.');
    out.push((48 + ((h / 10) % 10) as u8) as char);
    out.push((48 + (h % 10) as u8) as char);
    proof {
        assert(out@ =~= size_kib_spec(bytes as nat));
    }
    out
}

/// The normalized body a raw response byte string denotes: parsed JSON text
/// when the bytes are a strict JSON document, else the lossily decoded text
/// taken as a plain string.
pub open spec fn decode_body_spec(bytes: Seq<u8>) -> ResponseBodyView {
    ResponseBodyView { is_json: json_wellformed(bytes), text: utf8_lossy(bytes) }
}

/// Decodes a response body: strict JSON when it parses, else the lossily
/// decoded text.
pub fn decode_body(bytes: &Vec<u8>) -> (r: ResponseBody)
    ensures
        r@ == decode_body_spec(bytes@),
{
    let text = decode_utf8_lossy(bytes);
    if is_strict_json(bytes) {
        ResponseBody::Json(text)
    } else {
        ResponseBody::Text(text)
    }
}

/// Raw response header pairs collapsed into a header set, in order, the last
/// value winning on a repeated name.
pub open spec fn collapse_pairs(ps: Seq<(Seq<char>, Seq<char>)>) -> Seq<(Seq<char>, Seq<char>)>
    decreases ps.len(),
{
    if ps.len() == 0 {
        Seq::<(Seq<char>, Seq<char>)>::empty()
    } else {
        hs_set(collapse_pairs(ps.drop_last()), ps.last().0, ps.last().1)
    }
}

/// Assembles the normalized response: status line data as given, elapsed
/// time as measured, the size string from the raw byte length, headers with
/// last value winning, and the decoded body.
pub fn build_response(
    status: u16,
    status_text: String,
    elapsed_ms: u128,
    header_pairs: Vec<(String, String)>,
    body_bytes: Vec<u8>,
) -> (r: ApiResponse)
    ensures
        r@.status == status,
        r@.status_text == status_text@,
        r@.time == elapsed_ms,
        r@.size == size_kib_spec(body_bytes@.len() as nat),
        r@.headers == collapse_pairs(
            Seq::new(header_pairs@.len(), |i: int| (header_pairs@[i].0@, header_pairs@[i].1@)),
        ),
        r@.body == decode_body_spec(body_bytes@),
{
    let ghost pairs = Seq::new(
        header_pairs@.len(),
        |i: int| (header_pairs@[i].0@, header_pairs@[i].1@),
    );
    let mut hs = HeaderSet::new();
    let n = header_pairs.len();
    proof {
        assert(pairs.take(0) =~= Seq::<(Seq<char>, Seq<char>)>::empty());
    }
    for i in 0..n
        invariant
            n == header_pairs@.len(),
            pairs == Seq::new(
                header_pairs@.len(),
                |i: int| (header_pairs@[i].0@, header_pairs@[i].1@),
            ),
            hs@ == collapse_pairs(pairs.take(i as int)),
    {
        let name = header_pairs[i].0.clone();
        let value = header_pairs[i].1.clone();
        hs.set_header(name, value);
        proof {
            assert(pairs.take(i + 1).drop_last() =~= pairs.take(i as int));
            assert(pairs.take(i + 1).last() == pairs[i as int]);
        }
    }
    proof {
        assert(pairs.take(n as int) =~= pairs);
    }
    let size = format_size_kib(body_bytes.len());
    let body = decode_body(&body_bytes);
    let r = ApiResponse {
        status,
        status_text,
        time: elapsed_ms,
        size,
        headers: hs.entries,
        body,
    };
    proof {
        assert(r@.headers =~= collapse_pairs(pairs));
    }
    r
}

} // verus!
