//! The textual renderer: an equivalent, shell-escaped command line for a
//! resolved request. Pure and total — it performs no I/O and never fails.
//!
//! It shares query and header normalization with the live execution path, and
//! applies the same per-scheme authentication rules with one documented
//! divergence: the "never overwrite a present `Authorization` header" rule is
//! not applied here, because the textual output is not subject to live header
//! pre-population.
use vstd::prelude::*;
use vstd::string::StrSliceExecFns;

use crate::auth::{api_location_is_query, basic_value, bearer_value};
use crate::headers::{
    header_name_ok, header_name_ok_exec, header_value_ok, header_value_ok_exec, names_match,
    normalize_headers, HeaderSet,
};
use crate::models::{ApiRequest, AuthKind, auth_kind_of, AuthPayloadView, KeyValueView};
use crate::text::{is_blank, is_blank_exec, lower_seq, str_eq, to_chars, to_upper, trim_exec,
    trim_spec, upper_seq};
use crate::urlbuild::{append_pair_spec, append_query_pair, build_url_spec, build_url_with_params};

verus! {

/// POSIX single-quote escaping of one character: `'` becomes `'\''`.
pub open spec fn esc_char(c: char) -> Seq<char> {
    if c == '\'' {
        seq!['\'', '\\', '\'', '\'']
    } else {
        seq![c]
    }
}

pub open spec fn escape_sq_spec(s: Seq<char>) -> Seq<char>
    decreases s.len(),
{
    if s.len() == 0 {
        Seq::<char>::empty()
    } else {
        escape_sq_spec(s.drop_last()) + esc_char(s.last())
    }
}

/// Escapes a string for inclusion inside POSIX single quotes.
pub fn escape_single_quotes(s: &str) -> (r: String)
    ensures
        r@ == escape_sq_spec(s@),
{
    let chars = to_chars(s);
    let n = chars.len();
    let mut out: Vec<char> = Vec::new();
    proof {
        assert(s@.take(0) =~= Seq::<char>::empty());
    }
    for i in 0..n
        invariant
            n == chars@.len(),
            chars@ == s@,
            out@ == escape_sq_spec(s@.take(i as int)),
    {
        let c = chars[i];
        if c == '\'' {
            out.push('\'');
            out.push('\\');
            out.push('\'');
            out.push('\'');
        } else {
            out.push(c);
        }
        proof {
            assert(s@.take(i + 1).drop_last() =~= s@.take(i as int));
            assert(s@.take(i + 1).last() == s@[i as int]);
            assert(out@ =~= escape_sq_spec(s@.take(i as int)) + esc_char(s@[i as int]));
        }
    }
    proof {
        assert(s@.take(n as int) =~= s@);
    }
    crate::text::chars_to_string(&out)
}

/// Whether an enabled declared header names `Content-Type`, matched without
/// regard to ASCII case.
pub open spec fn has_content_type(headers: Seq<KeyValueView>) -> bool {
    exists|i: int|
        0 <= i < headers.len() && (#[trigger] headers[i]).enabled && lower_seq(headers[i].key)
            == lower_seq("content-type"@)
}

/// Whether any enabled header of the request is a `Content-Type` header.
pub fn has_content_type_header(req: &ApiRequest) -> (r: bool)
    ensures
        r == has_content_type(req@.headers),
{
    let n = req.headers.len();
    for i in 0..n
        invariant
            n == req@.headers.len(),
            forall|j: int|
                0 <= j < i ==> !((#[trigger] req@.headers[j]).enabled && lower_seq(
                    req@.headers[j].key,
                ) == lower_seq("content-type"@)),
    {
        let h = &req.headers[i];
        if h.enabled && names_match(h.key.as_str(), "content-type") {
            proof {
                assert(req@.headers[i as int] == req.headers@[i as int]@);
            }
            return true;
        }
        proof {
            assert(req@.headers[i as int] == req.headers@[i as int]@);
        }
    }
    false
}

/// The JSON-shape heuristic: after trimming, the body starts and ends with a
/// matching `{...}` or `[...]` bracket pair. A heuristic only — no parse.
pub open spec fn looks_like_json(body: Seq<char>) -> bool {
    let t = trim_spec(body);
    t.len() > 0 && ((t[0] == '{' && t.last() == '}') || (t[0] == '[' && t.last() == ']'))
}

/// Whether the body looks like JSON by its outermost bracket pair.
pub fn is_json_body(body: &str) -> (r: bool)
    ensures
        r == looks_like_json(body@),
{
    let t = trim_exec(body);
    let n = t.unicode_len();
    if n == 0 {
        return false;
    }
    let first = t.get_char(0);
    let last = t.get_char(n - 1);
    (first == '{' && last == '}') || (first == '[' && last == ']')
}

/// One `-H` flag for a header, escaped for POSIX single quotes.
pub open spec fn header_flag(name: Seq<char>, value: Seq<char>) -> Seq<char> {
    "-H '"@ + escape_sq_spec(name) + ": "@ + escape_sq_spec(value) + seq!['\'']
}

fn header_flag_exec(name: &str, value: &str) -> (r: String)
    ensures
        r@ == header_flag(name@, value@),
{
    let mut out = String::new();
    out.append("-H '");
    let en = escape_single_quotes(name);
    out.append(en.as_str());
    out.append(": ");
    let ev = escape_single_quotes(value);
    out.append(ev.as_str());
    out.push('\'');
    proof {
        assert(out@ =~= header_flag(name@, value@));
    }
    out
}

/// The flags that the authentication descriptor contributes to the command:
/// the same per-scheme rules as live application, except that a header
/// already present never suppresses the flag here. An API key sent in the
/// query contributes to the URL instead and yields no flag.
pub open spec fn curl_auth_parts(auth: AuthPayloadView) -> Seq<Seq<char>> {
    match auth_kind_of(auth.auth_type) {
        AuthKind::Bearer => match auth.token {
            Option::Some(tok) => {
                if is_blank(tok) || !header_value_ok(bearer_value(tok)) {
                    Seq::<Seq<char>>::empty()
                } else {
                    seq![header_flag("Authorization"@, bearer_value(tok))]
                }
            },
            Option::None => Seq::<Seq<char>>::empty(),
        },
        AuthKind::ApiKey => match (auth.api_key, auth.api_value) {
            (Option::Some(key), Option::Some(value)) => {
                if is_blank(key) || api_location_is_query(auth) || !(header_name_ok(key)
                    && header_value_ok(value)) {
                    Seq::<Seq<char>>::empty()
                } else {
                    seq![header_flag(key, value)]
                }
            },
            _ => Seq::<Seq<char>>::empty(),
        },
        AuthKind::Basic => match (auth.username, auth.password) {
            (Option::Some(user), Option::Some(pass)) => {
                if is_blank(user) || is_blank(pass) {
                    Seq::<Seq<char>>::empty()
                } else {
                    seq![
                        "-u '"@ + escape_sq_spec(user) + seq![':'] + escape_sq_spec(pass)
                            + seq!['\''],
                    ]
                }
            },
            _ => Seq::<Seq<char>>::empty(),
        },
        AuthKind::NoAuth => Seq::<Seq<char>>::empty(),
    }
}

/// Appends the authentication flags to a command under construction.
pub fn add_auth_to_curl(parts: &mut Vec<String>, req: &ApiRequest)
    ensures
        final(parts).deep_view() == old(parts).deep_view() + curl_auth_parts(req@.auth),
{
    let ghost before = parts.deep_view();
    if str_eq(req.auth.auth_type.as_str(), "bearer") {
        match &req.auth.token {
            Option::Some(tok) => {
                let mut value = String::new();
                value.append("Bearer ");
                value.append(tok.as_str());
                if !is_blank_exec(tok.as_str()) && header_value_ok_exec(value.as_str()) {
                    parts.push(header_flag_exec("Authorization", value.as_str()));
                }
            },
            Option::None => {},
        }
    } else if str_eq(req.auth.auth_type.as_str(), "apikey") {
        let loc_query = match &req.auth.api_location {
            Option::Some(l) => str_eq(l.as_str(), "query"),
            Option::None => false,
        };
        match (&req.auth.api_key, &req.auth.api_value) {
            (Option::Some(key), Option::Some(value)) => {
                if !is_blank_exec(key.as_str()) && !loc_query && header_name_ok_exec(key.as_str())
                    && header_value_ok_exec(value.as_str()) {
                    parts.push(header_flag_exec(key.as_str(), value.as_str()));
                }
            },
            _ => {},
        }
    } else if str_eq(req.auth.auth_type.as_str(), "basic") {
        match (&req.auth.username, &req.auth.password) {
            (Option::Some(user), Option::Some(pass)) => {
                if !is_blank_exec(user.as_str()) && !is_blank_exec(pass.as_str()) {
                    let mut flag = String::new();
                    flag.append("-u '");
                    let eu = escape_single_quotes(user.as_str());
                    flag.append(eu.as_str());
                    flag.push(':');
                    let ep = escape_single_quotes(pass.as_str());
                    flag.append(ep.as_str());
                    flag.push('\'');
                    proof {
                        assert(flag@ =~= "-u '"@ + escape_sq_spec(user@) + seq![':']
                            + escape_sq_spec(pass@) + seq!['\'']);
                    }
                    parts.push(flag);
                }
            },
            _ => {},
        }
    }
    proof {
        assert(parts.deep_view() =~= before + curl_auth_parts(req@.auth));
    }
}

/// Segments joined by a separator, in order.
pub open spec fn join_parts(parts: Seq<Seq<char>>, sep: Seq<char>) -> Seq<char>
    decreases parts.len(),
{
    if parts.len() == 0 {
        Seq::<char>::empty()
    } else if parts.len() == 1 {
        parts[0]
    } else {
        join_parts(parts.drop_last(), sep) + sep + parts.last()
    }
}

/// The presentation rule: at most three segments stand on one line joined by
/// single spaces; a longer command joins with a line continuation and a
/// two-space indent.
pub open spec fn format_curl_spec(parts: Seq<Seq<char>>) -> Seq<char> {
    if parts.len() <= 3 {
        join_parts(parts, " "@)
    } else {
        join_parts(parts, " \\\n  "@)
    }
}

/// Joins the command segments under the presentation rule.
pub fn format_curl_command(parts: &Vec<String>) -> (r: String)
    ensures
        r@ == format_curl_spec(parts.deep_view()),
{
    let n = parts.len();
    if n == 0 {
        return String::new();
    }
    let short = n <= 3;
    let mut out = parts[0].clone();
    proof {
        assert(parts.deep_view().take(1).drop_last() =~= Seq::<Seq<char>>::empty());
        assert(out@ == parts.deep_view().take(1)[0]);
        assert(out@ =~= join_parts(parts.deep_view().take(1), " "@));
        assert(out@ =~= join_parts(parts.deep_view().take(1), " \\\n  "@));
    }
    let mut i: usize = 1;
    while i < n
        invariant
            1 <= i <= n,
            n == parts@.len(),
            short == (n <= 3),
            short ==> out@ == join_parts(parts.deep_view().take(i as int), " "@),
            !short ==> out@ == join_parts(parts.deep_view().take(i as int), " \\\n  "@),
        decreases n - i,
    {
        if short {
            out.append(" ");
        } else {
            out.append(" \\\n  ");
        }
        out.append(parts[i].as_str());
        proof {
            let dv = parts.deep_view();
            assert(dv.take(i + 1).drop_last() =~= dv.take(i as int));
            assert(dv.take(i + 1).last() == dv[i as int]);
            assert(dv[i as int] == parts@[i as int]@);
            if short {
                assert(out@ =~= join_parts(dv.take(i as int), " "@) + " "@ + dv[i as int]);
            } else {
                assert(out@ =~= join_parts(dv.take(i as int), " \\\n  "@) + " \\\n  "@ + dv[i
                    as int]);
            }
        }
        i = i + 1;
    }
    proof {
        assert(parts.deep_view().take(n as int) =~= parts.deep_view());
    }
    out
}

/// The URL the command carries: the canonical parameter-augmented URL, plus
/// the API-key query pair when the descriptor sends the key in the query.
pub open spec fn curl_url(rq: crate::models::ApiRequestView) -> Seq<char> {
    let base = build_url_spec(rq.url, rq.params);
    if auth_kind_of(rq.auth.auth_type) is ApiKey && (rq.auth.api_key matches Option::Some(k)
        && !is_blank(k)) && rq.auth.api_value is Some && api_location_is_query(rq.auth) {
        append_pair_spec(base, rq.auth.api_key->0, rq.auth.api_value->0)
    } else {
        base
    }
}

/// Every segment of the command, in order: the program name, the method flag
/// when the method is not GET, the quoted URL, one flag per canonical header,
/// the authentication flags, the JSON content-type heuristic, and the body.
pub open spec fn curl_parts(rq: crate::models::ApiRequestView) -> Seq<Seq<char>> {
    let m = upper_seq(rq.method);
    let p0 = seq!["curl"@];
    let p1 = if m == "GET"@ {
        p0
    } else {
        p0.push("-X "@ + m)
    };
    let p2 = p1.push(seq!['\''] + escape_sq_spec(curl_url(rq)) + seq!['\'']);
    let hs = normalize_headers(rq.headers);
    let p3 = p2 + hs.map_values(|h: (Seq<char>, Seq<char>)| header_flag(h.0, h.1));
    let p4 = p3 + curl_auth_parts(rq.auth);
    match rq.body {
        Option::Some(b) => {
            if is_blank(b) {
                p4
            } else {
                let p5 = if !has_content_type(rq.headers) && looks_like_json(b) {
                    p4.push("-H 'Content-Type: application/json'"@)
                } else {
                    p4
                };
                p5.push("-d '"@ + escape_sq_spec(b) + seq!['\''])
            }
        },
        Option::None => p4,
    }
}

/// The full command string a request renders to.
pub open spec fn curl_spec(rq: crate::models::ApiRequestView) -> Seq<char> {
    format_curl_spec(curl_parts(rq))
}

/// Renders a resolved request as an equivalent shell command. Pure: no I/O,
/// never fails, and byte-identical output for equal inputs.
pub fn to_curl(req: &ApiRequest) -> (r: String)
    ensures
        r@ == curl_spec(req@),
{
    let mut parts: Vec<String> = Vec::new();
    let mut first = String::new();
    first.append("curl");
    parts.push(first);
    let m = to_upper(req.method.as_str());
    if !str_eq(m.as_str(), "GET") {
        let mut mf = String::new();
        mf.append("-X ");
        mf.append(m.as_str());
        parts.push(mf);
    }
    let ghost p1 = parts.deep_view();
    proof {
        let p0 = seq!["curl"@];
        if upper_seq(req@.method) == "GET"@ {
            assert(parts.deep_view() =~= p0);
        } else {
            assert(parts.deep_view() =~= p0.push("-X "@ + upper_seq(req@.method)));
        }
    }
    let mut url = build_url_with_params(req);
    let is_apikey = str_eq(req.auth.auth_type.as_str(), "apikey");
    let loc_query = match &req.auth.api_location {
        Option::Some(l) => str_eq(l.as_str(), "query"),
        Option::None => false,
    };
    match (&req.auth.api_key, &req.auth.api_value) {
        (Option::Some(key), Option::Some(value)) => {
            if is_apikey && loc_query && !is_blank_exec(key.as_str()) {
                append_query_pair(&mut url, key.as_str(), value.as_str());
            }
        },
        _ => {},
    }
    proof {
        if is_apikey {
            reveal_strlit("apikey");
            reveal_strlit("bearer");
            assert("apikey"@ != "bearer"@) by {
                assert("apikey"@[0] == 'a');
                assert("bearer"@[0] == 'b');
            }
        }
        assert(url@ == curl_url(req@));
    }
    let mut quoted = String::new();
    quoted.push('\'');
    let eu = escape_single_quotes(url.as_str());
    quoted.append(eu.as_str());
    quoted.push('\'');
    proof {
        assert(quoted@ =~= seq!['\''] + escape_sq_spec(curl_url(req@)) + seq!['\'']);
    }
    parts.push(quoted);
    let ghost p2 = parts.deep_view();
    proof {
        assert(p2 =~= p1.push(seq!['\''] + escape_sq_spec(curl_url(req@)) + seq!['\'']));
    }
    let hset = HeaderSet::from_list(&req.headers);
    let hn = hset.len();
    let ghost hs = normalize_headers(req@.headers);
    for i in 0..hn
        invariant
            hn == hs.len(),
            hs == hset@,
            parts.deep_view() == p2 + hs.map_values(
                |h: (Seq<char>, Seq<char>)| header_flag(h.0, h.1),
            ).take(i as int),
    {
        let (name, value) = hset.entry_at(i);
        let flag = header_flag_exec(name.as_str(), value.as_str());
        let ghost prevdv = parts.deep_view();
        let ghost flagv = flag@;
        parts.push(flag);
        proof {
            let mapped = hs.map_values(|h: (Seq<char>, Seq<char>)| header_flag(h.0, h.1));
            assert(mapped[i as int] == header_flag(hs[i as int].0, hs[i as int].1));
            assert(parts.deep_view() =~= prevdv.push(flagv));
            assert(parts.deep_view() =~= p2 + mapped.take(i + 1));
        }
    }
    proof {
        let mapped = hs.map_values(|h: (Seq<char>, Seq<char>)| header_flag(h.0, h.1));
        assert(mapped.take(hn as int) =~= mapped);
    }
    add_auth_to_curl(&mut parts, req);
    let ghost p4 = parts.deep_view();
    match &req.body {
        Option::Some(b) => {
            if !is_blank_exec(b.as_str()) {
                if !has_content_type_header(req) && is_json_body(b.as_str()) {
                    let mut ct = String::new();
                    ct.append("-H 'Content-Type: application/json'");
                    parts.push(ct);
                }
                let mut df = String::new();
                df.append("-d '");
                let eb = escape_single_quotes(b.as_str());
                df.append(eb.as_str());
                df.push('\'');
                proof {
                    assert(df@ =~= "-d '"@ + escape_sq_spec(b@) + seq!['\'']);
                }
                parts.push(df);
            }
        },
        Option::None => {},
    }
    proof {
        assert(parts.deep_view() =~= curl_parts(req@));
    }
    format_curl_command(&parts)
}

/// Rendering is deterministic: two renderings of the same resolved request
/// are byte-identical.
pub proof fn lemma_curl_deterministic(
    rq: crate::models::ApiRequestView,
    a: Seq<char>,
    b: Seq<char>,
)
    requires
        a == curl_spec(rq),
        b == curl_spec(rq),
    ensures
        a == b,
{
}

} // verus!
