//! Saved request templates: a named request, the name derived from the
//! method and a readable endpoint taken from the URL.
use vstd::prelude::*;
use vstd::string::StrSliceExecFns;

use crate::http::{parse_url_parts, url_parse_result};
use crate::models::{ApiRequest, ApiRequestView};
use crate::text::{chars_to_string, to_chars};

verus! {

/// Index of the first `/` in the string, or its length when there is none.
pub open spec fn first_slash(s: Seq<char>) -> nat
    decreases s.len(),
{
    if s.len() == 0 {
        0
    } else if s[0] == '/' {
        0
    } else {
        (1 + first_slash(s.drop_first())) as nat
    }
}

pub proof fn lemma_first_slash_le(s: Seq<char>)
    ensures
        first_slash(s) <= s.len(),
    decreases s.len(),
{
    if s.len() == 0 {
    } else if s[0] == '/' {
    } else {
        lemma_first_slash_le(s.drop_first());
    }
}

/// The non-empty `/`-separated segments of a path, in order.
pub open spec fn nonempty_segments(s: Seq<char>) -> Seq<Seq<char>>
    decreases s.len(),
    via nonempty_segments_decreases
{
    if s.len() == 0 {
        Seq::<Seq<char>>::empty()
    } else if s[0] == '/' {
        nonempty_segments(s.drop_first())
    } else {
        let i = first_slash(s) as int;
        seq![s.take(i)] + nonempty_segments(s.skip(i))
    }
}

#[via_fn]
proof fn nonempty_segments_decreases(s: Seq<char>) {
    lemma_first_slash_le(s);
}

proof fn lemma_first_slash_step(s: Seq<char>, j: int)
    requires
        0 <= j < s.len(),
        s[j] != '/',
        first_slash(s) == j + first_slash(s.skip(j)),
    ensures
        first_slash(s) == j + 1 + first_slash(s.skip(j + 1)),
{
    let suf = s.skip(j);
    assert(suf[0] == s[j]);
    assert(first_slash(suf) == 1 + first_slash(suf.drop_first()));
    assert(suf.drop_first() =~= s.skip(j + 1));
}

/// The non-empty `/`-separated segments of a path string.
pub fn split_nonempty_segments(s: &str) -> (r: Vec<String>)
    ensures
        r.deep_view() == nonempty_segments(s@),
{
    let chars = to_chars(s);
    let n = chars.len();
    let mut segs: Vec<String> = Vec::new();
    let mut i: usize = 0;
    proof {
        assert(chars@.skip(0) =~= s@);
        assert(segs.deep_view() =~= Seq::<Seq<char>>::empty());
    }
    while i < n
        invariant
            0 <= i <= n,
            n == chars@.len(),
            chars@ == s@,
            nonempty_segments(s@) == segs.deep_view() + nonempty_segments(chars@.skip(i as int)),
        decreases n - i,
    {
        let ghost suf = chars@.skip(i as int);
        if chars[i] == '/' {
            proof {
                assert(suf[0] == '/');
                assert(suf.drop_first() =~= chars@.skip(i + 1));
            }
            i = i + 1;
        } else {
            let start = i;
            let ghost rest = chars@.skip(start as int);
            let mut j: usize = start;
            proof {
                assert(rest.skip(0) =~= rest);
            }
            while j < n && chars[j] != '/'
                invariant
                    start <= j <= n,
                    n == chars@.len(),
                    rest == chars@.skip(start as int),
                    first_slash(rest) == j - start + first_slash(chars@.skip(j as int)),
                decreases n - j,
            {
                proof {
                    assert(rest.skip(j - start) =~= chars@.skip(j as int));
                    assert(rest[j - start] == chars@[j as int]);
                    lemma_first_slash_step(rest, j - start);
                    assert(rest.skip(j + 1 - start) =~= chars@.skip(j + 1));
                }
                j = j + 1;
            }
            proof {
                if j < n {
                    assert(chars@.skip(j as int)[0] == chars@[j as int]);
                    assert(first_slash(chars@.skip(j as int)) == 0);
                } else {
                    assert(chars@.skip(j as int).len() == 0);
                }
                assert(first_slash(rest) == j - start);
            }
            let mut seg: Vec<char> = Vec::new();
            let mut k: usize = start;
            while k < j
                invariant
                    start <= k <= j <= n,
                    n == chars@.len(),
                    seg@ == chars@.subrange(start as int, k as int),
                decreases j - k,
            {
                seg.push(chars[k]);
                proof {
                    assert(seg@ =~= chars@.subrange(start as int, k + 1));
                }
                k = k + 1;
            }
            let seg_s = chars_to_string(&seg);
            let ghost prevdv = segs.deep_view();
            segs.push(seg_s);
            proof {
                assert(seg@ =~= rest.take(j - start));
                assert(segs.deep_view() =~= prevdv.push(rest.take(j - start)));
                assert(rest[0] != '/');
                assert(nonempty_segments(rest) == seq![rest.take(j - start)] + nonempty_segments(
                    rest.skip(j - start),
                ));
                assert(rest.skip(j - start) =~= chars@.skip(j as int));
                assert(prevdv + (seq![rest.take(j - start)] + nonempty_segments(
                    chars@.skip(j as int),
                )) =~= segs.deep_view() + nonempty_segments(chars@.skip(j as int)));
            }
            i = j;
        }
    }
    proof {
        assert(chars@.skip(n as int).len() == 0);
        assert(nonempty_segments(chars@.skip(n as int)) =~= Seq::<Seq<char>>::empty());
        assert(segs.deep_view() + nonempty_segments(chars@.skip(n as int)) =~= segs.deep_view());
    }
    segs
}

/// The readable endpoint a URL is named after: the last two non-empty path
/// segments behind an ellipsis, the whole path when it has only one, the
/// host when the path is empty or the root, and a fixed fallback when the
/// URL does not parse or has no host.
pub open spec fn endpoint_spec(url: Seq<char>) -> Seq<char> {
    match url_parse_result(url) {
        Option::None => "Request"@,
        Option::Some(hp) => {
            let path = hp.1;
            if path.len() > 1 {
                let segs = nonempty_segments(path);
                if segs.len() > 1 {
                    ".../"@ + segs[segs.len() - 2] + seq!['/'] + segs[segs.len() - 1]
                } else {
                    path
                }
            } else {
                match hp.0 {
                    Option::Some(h) => h,
                    Option::None => "Request"@,
                }
            }
        },
    }
}

/// Extracts a readable endpoint from a URL for naming a saved request.
pub fn extract_endpoint(url: &str) -> (r: String)
    ensures
        r@ == endpoint_spec(url@),
{
    match parse_url_parts(url) {
        Option::Some((host, path)) => {
            if path.unicode_len() > 1 {
                let segs = split_nonempty_segments(path.as_str());
                let m = segs.len();
                if m > 1 {
                    let mut out = String::new();
                    out.append(".../");
                    out.append(segs[m - 2].as_str());
                    out.push('/');
                    out.append(segs[m - 1].as_str());
                    proof {
                        assert(segs.deep_view()[m - 2] == segs@[m - 2]@);
                        assert(segs.deep_view()[m - 1] == segs@[m - 1]@);
                        assert(out@ =~= endpoint_spec(url@));
                    }
                    out
                } else {
                    path
                }
            } else {
                match host {
                    Option::Some(h) => h,
                    Option::None => {
                        let mut out = String::new();
                        out.append("Request");
                        proof {
                            assert(out@ =~= "Request"@);
                        }
                        out
                    },
                }
            }
        },
        Option::None => {
            let mut out = String::new();
            out.append("Request");
            proof {
                assert(out@ =~= "Request"@);
            }
            out
        },
    }
}

/// A saved request template: a display name and the request itself. A loaded
/// template reproduces the identical request.
pub struct SavedRequest {
    pub name: String,
    pub request: ApiRequest,
}

pub ghost struct SavedRequestView {
    pub name: Seq<char>,
    pub request: ApiRequestView,
}

impl View for SavedRequest {
    type V = SavedRequestView;

    open spec fn view(&self) -> SavedRequestView {
        SavedRequestView { name: self.name@, request: self.request@ }
    }
}

impl SavedRequest {
    /// Wraps a request under its default name: the method, a space, and the
    /// readable endpoint of the URL.
    pub fn from_request(request: ApiRequest) -> (r: SavedRequest)
        ensures
            r@.name == request@.method + seq![' '] + endpoint_spec(request@.url),
            r@.request == request@,
    {
        let mut name = request.method.clone();
        name.push(' ');
        let endpoint = extract_endpoint(request.url.as_str());
        name.append(endpoint.as_str());
        proof {
            assert(name@ =~= request@.method + seq![' '] + endpoint_spec(request@.url));
        }
        SavedRequest { name, request }
    }
}

} // verus!
