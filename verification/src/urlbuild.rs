//! The canonical target URL both renderers share: every enabled query
//! parameter with a non-blank key is appended as a percent-encoded pair,
//! with `?` or `&` chosen by whether a query string is already present.
use vstd::prelude::*;
use vstd::string::StrSliceExecFns;

use crate::encoding::{percent_encode, url_encode};
use crate::models::{ApiRequest, KeyValueView};
use crate::text::{is_blank, is_blank_exec};

verus! {

pub open spec fn contains_qmark(s: Seq<char>) -> bool {
    exists|i: int| 0 <= i < s.len() && s[i] == '?'
}

/// One query pair appended to a URL: separator, encoded key, `=`, encoded
/// value.
pub open spec fn append_pair_spec(url: Seq<char>, key: Seq<char>, value: Seq<char>) -> Seq<char> {
    url + seq![if contains_qmark(url) {
        '&'
    } else {
        '?'
    }] + percent_encode(key) + seq!['='] + percent_encode(value)
}

/// Whether a parameter entry takes part in query assembly.
pub open spec fn param_counts(p: KeyValueView) -> bool {
    p.enabled && !is_blank(p.key)
}

/// The URL after appending every counting parameter, in list order.
pub open spec fn build_url_spec(url: Seq<char>, params: Seq<KeyValueView>) -> Seq<char>
    decreases params.len(),
{
    if params.len() == 0 {
        url
    } else {
        let first = params[0];
        let after = if param_counts(first) {
            append_pair_spec(url, first.key, first.value)
        } else {
            url
        };
        build_url_spec(after, params.drop_first())
    }
}

pub proof fn lemma_build_url_snoc(url: Seq<char>, params: Seq<KeyValueView>, p: KeyValueView)
    ensures
        build_url_spec(url, params.push(p)) == (if param_counts(p) {
            append_pair_spec(build_url_spec(url, params), p.key, p.value)
        } else {
            build_url_spec(url, params)
        }),
    decreases params.len(),
{
    if params.len() == 0 {
        assert(params.push(p).drop_first() =~= Seq::<KeyValueView>::empty());
        assert(params.push(p)[0] == p);
        let after = if param_counts(p) {
            append_pair_spec(url, p.key, p.value)
        } else {
            url
        };
        assert(build_url_spec(after, Seq::<KeyValueView>::empty()) == after);
        assert(build_url_spec(url, params) == url);
    } else {
        let whole = params.push(p);
        assert(whole[0] == params[0]);
        assert(whole.drop_first() =~= params.drop_first().push(p));
        let after = if param_counts(params[0]) {
            append_pair_spec(url, params[0].key, params[0].value)
        } else {
            url
        };
        lemma_build_url_snoc(after, params.drop_first(), p);
    }
}

pub fn contains_qmark_exec(s: &str) -> (r: bool)
    ensures
        r == contains_qmark(s@),
{
    let n = s.unicode_len();
    for i in 0..n
        invariant
            n == s@.len(),
            forall|j: int| 0 <= j < i ==> #[trigger] s@[j] != '?',
    {
        if s.get_char(i) == '?' {
            return true;
        }
    }
    false
}

/// Appends one percent-encoded query pair to the URL, choosing `?` or `&` by
/// whether the URL already carries a query string.
pub fn append_query_pair(url: &mut String, key: &str, value: &str)
    ensures
        final(url)@ == append_pair_spec(old(url)@, key@, value@),
{
    let sep = if contains_qmark_exec(url.as_str()) {
        '&'
    } else {
        '?'
    };
    url.push(sep);
    let ek = url_encode(key);
    url.append(ek.as_str());
    url.push('=');
    let ev = url_encode(value);
    url.append(ev.as_str());
    proof {
        assert(url@ =~= append_pair_spec(old(url)@, key@, value@));
    }
}

/// The canonical target URL of a request: the base URL with every enabled,
/// non-blank-keyed parameter appended as an encoded query pair, in order.
pub fn build_url_with_params(req: &ApiRequest) -> (r: String)
    ensures
        r@ == build_url_spec(req@.url, req@.params),
{
    let mut url = req.url.clone();
    let n = req.params.len();
    proof {
        assert(req@.params.take(0) =~= Seq::<KeyValueView>::empty());
    }
    for i in 0..n
        invariant
            n == req@.params.len(),
            url@ == build_url_spec(req@.url, req@.params.take(i as int)),
    {
        let p = &req.params[i];
        let counts = p.enabled && !is_blank_exec(p.key.as_str());
        if counts {
            append_query_pair(&mut url, p.key.as_str(), p.value.as_str());
        }
        proof {
            assert(req@.params[i as int] == req.params@[i as int]@);
            lemma_build_url_snoc(req@.url, req@.params.take(i as int), req@.params[i as int]);
            assert(req@.params.take(i as int).push(req@.params[i as int]) =~= req@.params.take(i
                + 1));
        }
    }
    proof {
        assert(req@.params.take(n as int) =~= req@.params);
    }
    url
}

} // verus!
