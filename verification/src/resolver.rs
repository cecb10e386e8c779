//! Variable resolution: single-pass textual substitution of `{{NAME}}`
//! placeholders against a flat name-to-value mapping. Lookup is exact and
//! case-sensitive; a missed lookup leaves the placeholder text unchanged; a
//! substituted value is never re-scanned.
use vstd::prelude::*;
use vstd::hash_map::StringHashMap;

use crate::models::{ApiRequest, AuthPayload, EnvVar, KeyValue};
use crate::text::{chars_to_string, to_chars};

verus! {

/// Index of the first `}}` in `s`, or `s.len()` when there is none.
pub open spec fn close_pos(s: Seq<char>) -> nat
    decreases s.len(),
{
    if s.len() < 2 {
        s.len() as nat
    } else if s[0] == '}' && s[1] == '}' {
        0
    } else {
        (1 + close_pos(s.drop_first())) as nat
    }
}

/// Whether `s` holds a `}}` at all: `close_pos` points at one exactly when
/// two more characters follow it.
pub open spec fn has_close(s: Seq<char>) -> bool {
    close_pos(s) + 2 <= s.len()
}

/// The meaning of single-pass substitution. On `{{`, the characters up to the
/// first following `}}` form the name: on a hit the value is emitted, on a
/// miss the placeholder text is emitted unchanged. When no `}}` follows, the
/// captured text is emitted without the braces. Everything else is copied.
pub open spec fn resolve_spec(s: Seq<char>, m: Map<Seq<char>, Seq<char>>) -> Seq<char>
    decreases s.len(),
{
    if s.len() >= 2 && s[0] == '{' && s[1] == '{' {
        let rest = s.skip(2);
        let cp = close_pos(rest) as int;
        if cp + 2 <= rest.len() {
            let name = rest.take(cp);
            let tail = rest.skip(cp + 2);
            (if m.contains_key(name) {
                m[name]
            } else {
                seq!['{', '{'] + name + seq!['}', '}']
            }) + resolve_spec(tail, m)
        } else {
            rest
        }
    } else if s.len() == 0 {
        s
    } else {
        seq![s[0]] + resolve_spec(s.drop_first(), m)
    }
}

/// The name-to-value mapping that a string-keyed table of strings denotes.
pub open spec fn map_view(m: Map<Seq<char>, String>) -> Map<Seq<char>, Seq<char>> {
    Map::new(|k: Seq<char>| m.contains_key(k), |k: Seq<char>| m[k]@)
}

proof fn lemma_close_pos_step(s: Seq<char>, j: int)
    requires
        0 <= j < s.len(),
        !(s[j] == '}' && j + 1 < s.len() && s[j + 1] == '}'),
        close_pos(s) == j + close_pos(s.skip(j)),
    ensures
        close_pos(s) == j + 1 + close_pos(s.skip(j + 1)),
{
    let suf = s.skip(j);
    assert(suf.len() == s.len() - j);
    if suf.len() < 2 {
        assert(suf.len() == 1);
        assert(close_pos(suf) == 1);
        assert(s.skip(j + 1).len() == 0);
    } else {
        assert(suf[0] == s[j]);
        assert(suf[1] == s[j + 1]);
        assert(!(suf[0] == '}' && suf[1] == '}'));
        assert(close_pos(suf) == 1 + close_pos(suf.drop_first()));
        assert(suf.drop_first() =~= s.skip(j + 1));
    }
}

/// Captures a variable name: the characters of `chars` from `start` up to the
/// first `}}`. Returns the name, the index just past the consumed text, and
/// whether the closing `}}` was found; without one the capture runs to the
/// end of the input.
pub fn extract_var_name(chars: &Vec<char>, start: usize) -> (r: (String, usize, bool))
    requires
        start <= chars@.len(),
    ensures
        ({
            let rest = chars@.skip(start as int);
            let cp = close_pos(rest) as int;
            &&& r.2 == has_close(rest)
            &&& (r.2 ==> r.0@ == rest.take(cp) && r.1 == start + cp + 2)
            &&& (!r.2 ==> r.0@ == rest && r.1 == chars@.len())
        }),
{
    let n = chars.len();
    let ghost rest = chars@.skip(start as int);
    let mut j: usize = start;
    proof {
        assert(rest.skip(0) =~= rest);
    }
    while j < n && !(chars[j] == '}' && j + 1 < n && chars[j + 1] == '}')
        invariant
            start <= j <= n,
            n == chars@.len(),
            rest == chars@.skip(start as int),
            close_pos(rest) == j - start + close_pos(chars@.skip(j as int)),
        decreases n - j,
    {
        proof {
            assert(rest.skip(j - start) =~= chars@.skip(j as int));
            assert(rest[j - start] == chars@[j as int]);
            assert(j + 1 < n ==> rest[j + 1 - start] == chars@[j as int + 1]);
            lemma_close_pos_step(rest, j - start);
            assert(rest.skip(j + 1 - start) =~= chars@.skip(j + 1));
        }
        j = j + 1;
    }
    let mut name: Vec<char> = Vec::new();
    let mut k: usize = start;
    while k < j
        invariant
            start <= k <= j <= n,
            n == chars@.len(),
            name@ == chars@.subrange(start as int, k as int),
        decreases j - k,
    {
        name.push(chars[k]);
        proof {
            assert(name@ =~= chars@.subrange(start as int, k + 1));
        }
        k = k + 1;
    }
    let name_s = chars_to_string(&name);
    if j < n {
        proof {
            assert(chars@.skip(j as int)[0] == chars@[j as int]);
            assert(chars@.skip(j as int)[1] == chars@[j as int + 1]);
            assert(close_pos(chars@.skip(j as int)) == 0);
            assert(close_pos(rest) == j - start);
            assert(has_close(rest));
            assert(name@ =~= rest.take(j - start));
        }
        (name_s, j + 2, true)
    } else {
        proof {
            assert(chars@.skip(j as int).len() == 0);
            assert(close_pos(rest) == n - start);
            assert(!has_close(rest));
            assert(name@ =~= rest);
        }
        (name_s, n, false)
    }
}

/// Resolves `{{NAME}}` placeholders in `input` against `env_vars`: exact,
/// case-sensitive lookup, one left-to-right pass, no recursive re-scanning of
/// substituted values.
pub fn resolve_variables(input: &str, env_vars: &StringHashMap<String>) -> (r: String)
    ensures
        r@ == resolve_spec(input@, map_view(env_vars@)),
{
    let ghost m = map_view(env_vars@);
    let chars = to_chars(input);
    let n = chars.len();
    let mut out = String::new();
    let mut i: usize = 0;
    proof {
        assert(chars@.skip(0) =~= input@);
    }
    while i < n
        invariant
            0 <= i <= n,
            n == chars@.len(),
            chars@ == input@,
            m == map_view(env_vars@),
            resolve_spec(input@, m) == out@ + resolve_spec(chars@.skip(i as int), m),
        decreases n - i,
    {
        let ghost suf = chars@.skip(i as int);
        if chars[i] == '{' && i + 1 < n && chars[i + 1] == '{' {
            proof {
                assert(suf[0] == '{');
                assert(suf[1] == '{');
                assert(suf.skip(2) =~= chars@.skip(i + 2));
            }
            let (name, next, found) = extract_var_name(&chars, i + 2);
            let ghost rest = chars@.skip(i + 2);
            let ghost cp = close_pos(rest) as int;
            let ghost prev = out@;
            if found {
                let ghost emitted = if m.contains_key(name@) {
                    m[name@]
                } else {
                    seq!['{', '{'] + name@ + seq!['}', '}']
                };
                match env_vars.get(name.as_str()) {
                    Option::Some(v) => {
                        out.append(v.as_str());
                    },
                    Option::None => {
                        out.push('{');
                        out.push('{');
                        out.append(name.as_str());
                        out.push('}');
                        out.push('}');
                    },
                }
                proof {
                    assert(out@ =~= prev + emitted);
                    assert(resolve_spec(suf, m) == emitted + resolve_spec(rest.skip(cp + 2), m));
                    assert(rest.skip(cp + 2) =~= chars@.skip(next as int));
                    assert(prev + (emitted + resolve_spec(chars@.skip(next as int), m)) =~= (prev
                        + emitted) + resolve_spec(chars@.skip(next as int), m));
                }
                i = next;
            } else {
                out.append(name.as_str());
                proof {
                    assert(resolve_spec(suf, m) == rest);
                    assert(chars@.skip(n as int).len() == 0);
                    assert(resolve_spec(chars@.skip(n as int), m) =~= Seq::<char>::empty());
                    assert(out@ + resolve_spec(chars@.skip(n as int), m) =~= prev + rest);
                }
                i = n;
            }
        } else {
            let c = chars[i];
            let ghost prev = out@;
            out.push(c);
            proof {
                if suf.len() >= 2 && suf[0] == '{' && suf[1] == '{' {
                    assert(false);
                }
                assert(suf[0] == c);
                assert(resolve_spec(suf, m) == seq![c] + resolve_spec(suf.drop_first(), m));
                assert(suf.drop_first() =~= chars@.skip(i + 1));
                assert(prev + (seq![c] + resolve_spec(chars@.skip(i + 1), m)) =~= out@
                    + resolve_spec(chars@.skip(i + 1), m));
            }
            i = i + 1;
        }
    }
    proof {
        assert(chars@.skip(n as int).len() == 0);
        assert(resolve_spec(chars@.skip(n as int), m) =~= Seq::<char>::empty());
        assert(resolve_spec(input@, m) =~= out@);
    }
    out
}

/// A string with no `{{` anywhere holds no placeholder at all.
pub open spec fn has_no_placeholder(s: Seq<char>) -> bool {
    forall|i: int| 0 <= i && i + 1 < s.len() ==> !(#[trigger] s[i] == '{' && s[i + 1] == '{')
}

/// Resolution is the identity on any string without placeholders, whatever
/// the mapping holds.
pub proof fn lemma_resolve_no_placeholder(s: Seq<char>, m: Map<Seq<char>, Seq<char>>)
    requires
        has_no_placeholder(s),
    ensures
        resolve_spec(s, m) == s,
    decreases s.len(),
{
    if s.len() >= 2 && s[0] == '{' && s[1] == '{' {
        assert(false);
    } else if s.len() == 0 {
    } else {
        let t = s.drop_first();
        assert forall|i: int| 0 <= i && i + 1 < t.len() implies !(t[i] == '{' && #[trigger] t[i
            + 1] == '{') by {
            assert(t[i] == s[i + 1]);
            assert(t[i + 1] == s[i + 2]);
        }
        lemma_resolve_no_placeholder(t, m);
        assert(seq![s[0]] + t =~= s);
    }
}

pub open spec fn opt_has_no_placeholder(o: Option<Seq<char>>) -> bool {
    match o {
        Option::Some(s) => has_no_placeholder(s),
        Option::None => true,
    }
}

/// No string of the descriptor subject to substitution holds a placeholder.
pub open spec fn req_has_no_placeholder(rq: crate::models::ApiRequestView) -> bool {
    &&& has_no_placeholder(rq.url)
    &&& forall|i: int|
        0 <= i < rq.params.len() ==> has_no_placeholder((#[trigger] rq.params[i]).key)
            && has_no_placeholder(rq.params[i].value)
    &&& forall|i: int|
        0 <= i < rq.headers.len() ==> has_no_placeholder((#[trigger] rq.headers[i]).key)
            && has_no_placeholder(rq.headers[i].value)
    &&& opt_has_no_placeholder(rq.body)
    &&& opt_has_no_placeholder(rq.auth.token)
    &&& opt_has_no_placeholder(rq.auth.api_key)
    &&& opt_has_no_placeholder(rq.auth.api_value)
    &&& opt_has_no_placeholder(rq.auth.username)
    &&& opt_has_no_placeholder(rq.auth.password)
}

proof fn lemma_resolve_opt_no_placeholder(o: Option<Seq<char>>, m: Map<Seq<char>, Seq<char>>)
    requires
        opt_has_no_placeholder(o),
    ensures
        resolve_opt_spec(o, m) == o,
{
    match o {
        Option::Some(s) => {
            lemma_resolve_no_placeholder(s, m);
        },
        Option::None => {},
    }
}

/// Resolution is the identity on a whole request without placeholders,
/// whatever mapping is supplied.
pub proof fn lemma_resolve_request_no_placeholder(
    rq: crate::models::ApiRequestView,
    m: Map<Seq<char>, Seq<char>>,
)
    requires
        req_has_no_placeholder(rq),
    ensures
        resolve_req_spec(rq, m) == rq,
{
    lemma_resolve_no_placeholder(rq.url, m);
    lemma_resolve_opt_no_placeholder(rq.body, m);
    lemma_resolve_opt_no_placeholder(rq.auth.token, m);
    lemma_resolve_opt_no_placeholder(rq.auth.api_key, m);
    lemma_resolve_opt_no_placeholder(rq.auth.api_value, m);
    lemma_resolve_opt_no_placeholder(rq.auth.username, m);
    lemma_resolve_opt_no_placeholder(rq.auth.password, m);
    let f = |kv: crate::models::KeyValueView| resolve_kv_spec(kv, m);
    assert forall|i: int| 0 <= i < rq.params.len() implies rq.params.map_values(f)[i]
        == rq.params[i] by {
        lemma_resolve_no_placeholder(rq.params[i].key, m);
        lemma_resolve_no_placeholder(rq.params[i].value, m);
        assert(resolve_kv_spec(rq.params[i], m) =~= rq.params[i]);
    }
    assert(rq.params.map_values(f) =~= rq.params);
    assert forall|i: int| 0 <= i < rq.headers.len() implies rq.headers.map_values(f)[i]
        == rq.headers[i] by {
        lemma_resolve_no_placeholder(rq.headers[i].key, m);
        lemma_resolve_no_placeholder(rq.headers[i].value, m);
        assert(resolve_kv_spec(rq.headers[i], m) =~= rq.headers[i]);
    }
    assert(rq.headers.map_values(f) =~= rq.headers);
    assert(resolve_req_spec(rq, m) =~= rq);
}

/// Every `{{` in the string is closed by a later `}}`.
pub open spec fn placeholders_closed(s: Seq<char>) -> bool
    decreases s.len(),
{
    if s.len() >= 2 && s[0] == '{' && s[1] == '{' {
        let rest = s.skip(2);
        let cp = close_pos(rest) as int;
        if cp + 2 <= rest.len() {
            placeholders_closed(rest.skip(cp + 2))
        } else {
            false
        }
    } else if s.len() == 0 {
        true
    } else {
        placeholders_closed(s.drop_first())
    }
}

proof fn lemma_close_pos_at(s: Seq<char>)
    requires
        has_close(s),
    ensures
        s[close_pos(s) as int] == '}',
        s[close_pos(s) as int + 1] == '}',
    decreases s.len(),
{
    if s.len() < 2 {
    } else if s[0] == '}' && s[1] == '}' {
    } else {
        let t = s.drop_first();
        assert(close_pos(s) == 1 + close_pos(t));
        lemma_close_pos_at(t);
    }
}

/// Resolution under the empty mapping is the identity on every well-formed
/// string: with nothing to look up, each closed placeholder is re-emitted
/// exactly as written.
pub proof fn lemma_resolve_empty_map_identity(s: Seq<char>)
    requires
        placeholders_closed(s),
    ensures
        resolve_spec(s, Map::<Seq<char>, Seq<char>>::empty()) == s,
    decreases s.len(),
{
    let m = Map::<Seq<char>, Seq<char>>::empty();
    if s.len() >= 2 && s[0] == '{' && s[1] == '{' {
        let rest = s.skip(2);
        let cp = close_pos(rest) as int;
        let name = rest.take(cp);
        let tail = rest.skip(cp + 2);
        lemma_close_pos_at(rest);
        lemma_resolve_empty_map_identity(tail);
        assert(!m.contains_key(name));
        assert((seq!['{', '{'] + name + seq!['}', '}']) + tail =~= s);
    } else if s.len() == 0 {
    } else {
        lemma_resolve_empty_map_identity(s.drop_first());
        assert(seq![s[0]] + s.drop_first() =~= s);
    }
}

/// Optional strings resolve inside their `Some`.
pub open spec fn resolve_opt_spec(o: Option<Seq<char>>, m: Map<Seq<char>, Seq<char>>) -> Option<
    Seq<char>,
> {
    match o {
        Option::Some(s) => Option::Some(resolve_spec(s, m)),
        Option::None => Option::None,
    }
}

pub open spec fn resolve_kv_spec(
    kv: crate::models::KeyValueView,
    m: Map<Seq<char>, Seq<char>>,
) -> crate::models::KeyValueView {
    crate::models::KeyValueView {
        enabled: kv.enabled,
        key: resolve_spec(kv.key, m),
        value: resolve_spec(kv.value, m),
    }
}

/// Resolution applied uniformly over a request: URL, every param key and
/// value, every header key and value, the body, and each present auth string
/// field; never the method and never the auth location selector.
pub open spec fn resolve_req_spec(
    rq: crate::models::ApiRequestView,
    m: Map<Seq<char>, Seq<char>>,
) -> crate::models::ApiRequestView {
    crate::models::ApiRequestView {
        method: rq.method,
        url: resolve_spec(rq.url, m),
        params: rq.params.map_values(|kv: crate::models::KeyValueView| resolve_kv_spec(kv, m)),
        headers: rq.headers.map_values(|kv: crate::models::KeyValueView| resolve_kv_spec(kv, m)),
        body: resolve_opt_spec(rq.body, m),
        auth: crate::models::AuthPayloadView {
            auth_type: rq.auth.auth_type,
            token: resolve_opt_spec(rq.auth.token, m),
            api_key: resolve_opt_spec(rq.auth.api_key, m),
            api_value: resolve_opt_spec(rq.auth.api_value, m),
            api_location: rq.auth.api_location,
            username: resolve_opt_spec(rq.auth.username, m),
            password: resolve_opt_spec(rq.auth.password, m),
        },
    }
}

fn resolve_opt_string(o: &Option<String>, env_vars: &StringHashMap<String>) -> (r: Option<String>)
    ensures
        crate::models::opt_view(r) == resolve_opt_spec(
            crate::models::opt_view(*o),
            map_view(env_vars@),
        ),
{
    match o {
        Option::Some(s) => Option::Some(resolve_variables(s.as_str(), env_vars)),
        Option::None => Option::None,
    }
}

fn resolve_kv_list(list: &Vec<KeyValue>, env_vars: &StringHashMap<String>) -> (r: Vec<KeyValue>)
    ensures
        r.deep_view() == list.deep_view().map_values(
            |kv: crate::models::KeyValueView| resolve_kv_spec(kv, map_view(env_vars@)),
        ),
{
    let mut out: Vec<KeyValue> = Vec::new();
    let n = list.len();
    for i in 0..n
        invariant
            n == list@.len(),
            out@.len() == i,
            forall|j: int|
                0 <= j < i ==> #[trigger] out.deep_view()[j] == resolve_kv_spec(
                    list.deep_view()[j],
                    map_view(env_vars@),
                ),
    {
        let kv = &list[i];
        let resolved = KeyValue {
            enabled: kv.enabled,
            key: resolve_variables(kv.key.as_str(), env_vars),
            value: resolve_variables(kv.value.as_str(), env_vars),
        };
        proof {
            assert(resolved.deep_view() == resolve_kv_spec(
                list.deep_view()[i as int],
                map_view(env_vars@),
            ));
        }
        let ghost prev = out.deep_view();
        out.push(resolved);
        proof {
            assert(out@[i as int] == resolved);
            assert forall|j: int| 0 <= j < i + 1 implies #[trigger] out.deep_view()[j]
                == resolve_kv_spec(list.deep_view()[j], map_view(env_vars@)) by {
                assert(out.deep_view()[j] == out@[j].deep_view());
                if j < i {
                    assert(out@[j].deep_view() == prev[j]);
                }
            }
        }
    }
    proof {
        assert(out.deep_view() =~= list.deep_view().map_values(
            |kv: crate::models::KeyValueView| resolve_kv_spec(kv, map_view(env_vars@)),
        ));
    }
    out
}

/// Produces the derived request in which every string field subject to
/// substitution has been resolved against the mapping. The original request
/// is left untouched; the method and the auth location selector are never
/// resolved.
pub fn resolve_request_variables(req: &ApiRequest, env_vars: &StringHashMap<String>) -> (r:
    ApiRequest)
    ensures
        r@ == resolve_req_spec(req@, map_view(env_vars@)),
{
    let r = ApiRequest {
        method: req.method.clone(),
        url: resolve_variables(req.url.as_str(), env_vars),
        params: resolve_kv_list(&req.params, env_vars),
        headers: resolve_kv_list(&req.headers, env_vars),
        body: resolve_opt_string(&req.body, env_vars),
        auth: AuthPayload {
            auth_type: req.auth.auth_type.clone(),
            token: resolve_opt_string(&req.auth.token, env_vars),
            api_key: resolve_opt_string(&req.auth.api_key, env_vars),
            api_value: resolve_opt_string(&req.auth.api_value, env_vars),
            api_location: crate::models::clone_opt_string(&req.auth.api_location),
            username: resolve_opt_string(&req.auth.username, env_vars),
            password: resolve_opt_string(&req.auth.password, env_vars),
        },
    };
    r
}

/// The mapping that a stored environment denotes: the enabled variables,
/// flattened to name-to-value with a later record winning on a repeated name.
pub open spec fn env_map_spec(vs: Seq<crate::models::EnvVarView>) -> Map<Seq<char>, Seq<char>>
    decreases vs.len(),
{
    if vs.len() == 0 {
        Map::<Seq<char>, Seq<char>>::empty()
    } else {
        let m0 = env_map_spec(vs.drop_last());
        if vs.last().enabled {
            m0.insert(vs.last().key, vs.last().value)
        } else {
            m0
        }
    }
}

/// Flattens the enabled subset of the stored environment into the resolver's
/// name-to-value mapping.
pub fn env_vars_to_map(vars: &Vec<EnvVar>) -> (r: StringHashMap<String>)
    ensures
        map_view(r@) == env_map_spec(vars.deep_view()),
{
    let mut m = StringHashMap::<String>::new();
    let n = vars.len();
    proof {
        assert(map_view(m@) =~= env_map_spec(vars.deep_view().take(0)));
    }
    for i in 0..n
        invariant
            n == vars@.len(),
            map_view(m@) == env_map_spec(vars.deep_view().take(i as int)),
    {
        let ghost pre = m@;
        if vars[i].enabled {
            m.insert(vars[i].key.clone(), vars[i].value.clone());
        }
        proof {
            let dv = vars.deep_view();
            assert(dv.take(i + 1).drop_last() =~= dv.take(i as int));
            assert(dv.take(i + 1).last() == dv[i as int]);
            if vars@[i as int].enabled {
                assert(map_view(m@) =~= env_map_spec(dv.take(i as int)).insert(
                    dv[i as int].key,
                    dv[i as int].value,
                ));
            }
        }
    }
    proof {
        assert(vars.deep_view().take(n as int) =~= vars.deep_view());
    }
    m
}

} // verus!

