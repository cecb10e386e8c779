//! The canonical header set both renderers share: case-preserved names,
//! case-insensitive name matching, last write wins on duplicate names, and
//! the validity rules under which a malformed entry is dropped rather than
//! failing the whole request.
use vstd::prelude::*;
use vstd::string::StrSliceExecFns;

use crate::text::{lower_char, lower_char_exec, lower_seq};

verus! {

/// Whether a character may appear in a header name or method token:
/// ASCII alphanumerics and `! # $ % & ' * + - . ^ _ ` | ~`.
pub open spec fn is_token_char(c: char) -> bool {
    let u = c as u32;
    (48 <= u <= 57) || (65 <= u <= 90) || (97 <= u <= 122) || u == 33 || u == 35 || u == 36 || u
        == 37 || u == 38 || u == 39 || u == 42 || u == 43 || u == 45 || u == 46 || u == 94 || u
        == 95 || u == 96 || u == 124 || u == 126
}

/// A valid header name: non-empty and token characters only.
pub open spec fn header_name_ok(s: Seq<char>) -> bool {
    s.len() > 0 && forall|i: int| 0 <= i < s.len() ==> is_token_char(#[trigger] s[i])
}

/// Whether a character may appear in a header value: horizontal tab, or
/// anything that is neither an other control character nor delete.
pub open spec fn is_value_char(c: char) -> bool {
    let u = c as u32;
    u == 9 || (u >= 32 && u != 127)
}

/// A valid header value: every character a value character.
pub open spec fn header_value_ok(s: Seq<char>) -> bool {
    forall|i: int| 0 <= i < s.len() ==> is_value_char(#[trigger] s[i])
}

pub fn is_token_char_exec(c: char) -> (r: bool)
    ensures
        r == is_token_char(c),
{
    let u = c as u32;
    (48 <= u && u <= 57) || (65 <= u && u <= 90) || (97 <= u && u <= 122) || u == 33 || u == 35
        || u == 36 || u == 37 || u == 38 || u == 39 || u == 42 || u == 43 || u == 45 || u == 46
        || u == 94 || u == 95 || u == 96 || u == 124 || u == 126
}

pub fn header_name_ok_exec(s: &str) -> (r: bool)
    ensures
        r == header_name_ok(s@),
{
    let n = s.unicode_len();
    if n == 0 {
        return false;
    }
    for i in 0..n
        invariant
            n == s@.len(),
            forall|j: int| 0 <= j < i ==> is_token_char(#[trigger] s@[j]),
    {
        if !is_token_char_exec(s.get_char(i)) {
            return false;
        }
    }
    true
}

pub fn header_value_ok_exec(s: &str) -> (r: bool)
    ensures
        r == header_value_ok(s@),
{
    let n = s.unicode_len();
    for i in 0..n
        invariant
            n == s@.len(),
            forall|j: int| 0 <= j < i ==> is_value_char(#[trigger] s@[j]),
    {
        let c = s.get_char(i);
        let u = c as u32;
        if !(u == 9 || (u >= 32 && u != 127)) {
            return false;
        }
    }
    true
}

/// Two header names are the same header when they agree up to ASCII case.
pub fn names_match(a: &str, b: &str) -> (r: bool)
    ensures
        r == (lower_seq(a@) == lower_seq(b@)),
{
    let na = a.unicode_len();
    let nb = b.unicode_len();
    if na != nb {
        proof {
            assert(lower_seq(a@).len() == a@.len());
            assert(lower_seq(b@).len() == b@.len());
        }
        return false;
    }
    for i in 0..na
        invariant
            na == a@.len(),
            na == b@.len(),
            forall|j: int| 0 <= j < i ==> lower_char(a@[j]) == lower_char(#[trigger] b@[j]),
    {
        if lower_char_exec(a.get_char(i)) != lower_char_exec(b.get_char(i)) {
            proof {
                assert(lower_seq(a@)[i as int] == lower_char(a@[i as int]));
                assert(lower_seq(b@)[i as int] == lower_char(b@[i as int]));
            }
            return false;
        }
    }
    proof {
        assert(lower_seq(a@) =~= lower_seq(b@));
    }
    true
}

/// Whether the set already holds a header of this name, matched
/// case-insensitively.
pub open spec fn hs_contains(hs: Seq<(Seq<char>, Seq<char>)>, name: Seq<char>) -> bool {
    exists|i: int| 0 <= i < hs.len() && lower_seq(#[trigger] hs[i].0) == lower_seq(name)
}

/// Index of the first entry whose name matches, or the length when none does.
pub open spec fn hs_find(hs: Seq<(Seq<char>, Seq<char>)>, name: Seq<char>) -> int
    decreases hs.len(),
{
    if hs.len() == 0 {
        0
    } else if lower_seq(hs[0].0) == lower_seq(name) {
        0
    } else {
        1 + hs_find(hs.drop_first(), name)
    }
}

pub proof fn lemma_hs_find(hs: Seq<(Seq<char>, Seq<char>)>, name: Seq<char>)
    ensures
        0 <= hs_find(hs, name) <= hs.len(),
        hs_find(hs, name) < hs.len() ==> lower_seq(hs[hs_find(hs, name)].0) == lower_seq(name),
        forall|j: int|
            0 <= j < hs_find(hs, name) ==> lower_seq(#[trigger] hs[j].0) != lower_seq(name),
        (hs_find(hs, name) < hs.len()) == hs_contains(hs, name),
    decreases hs.len(),
{
    if hs.len() == 0 {
        assert(!hs_contains(hs, name));
    } else if lower_seq(hs[0].0) == lower_seq(name) {
        assert(hs_contains(hs, name));
    } else {
        let t = hs.drop_first();
        lemma_hs_find(t, name);
        assert(forall|j: int| 0 <= j < t.len() ==> #[trigger] t[j] == hs[j + 1]);
        assert forall|j: int| 0 <= j < hs_find(hs, name) implies lower_seq(#[trigger] hs[j].0)
            != lower_seq(name) by {
            if j > 0 {
                assert(hs[j].0 == t[j - 1].0);
                assert(0 <= j - 1 < hs_find(t, name));
            }
        }
        if hs_find(t, name) < t.len() {
            assert(hs_contains(hs, name)) by {
                assert(hs[hs_find(t, name) + 1].0 == t[hs_find(t, name)].0);
            }
        } else {
            if hs_contains(hs, name) {
                let i = choose|i: int|
                    0 <= i < hs.len() && lower_seq(#[trigger] hs[i].0) == lower_seq(name);
                assert(i > 0);
                assert(t[i - 1].0 == hs[i].0);
                assert(hs_contains(t, name));
            }
        }
    }
}

/// Setting a header: when a name already matches, the first such entry keeps
/// its stored name and takes the new value; otherwise the pair is appended.
pub open spec fn hs_set(
    hs: Seq<(Seq<char>, Seq<char>)>,
    name: Seq<char>,
    value: Seq<char>,
) -> Seq<(Seq<char>, Seq<char>)> {
    let i = hs_find(hs, name);
    if i < hs.len() {
        hs.update(i, (hs[i].0, value))
    } else {
        hs.push((name, value))
    }
}

/// Whether a declared header entry takes part in the canonical header set:
/// enabled, non-blank key, and both sides valid. A malformed entry is dropped
/// individually rather than failing the whole request.
pub open spec fn header_counts(h: crate::models::KeyValueView) -> bool {
    h.enabled && !crate::text::is_blank(h.key) && header_name_ok(h.key) && header_value_ok(h.value)
}

/// The canonical header set a declared header list denotes: counting entries
/// applied in order, last write winning on a repeated name.
pub open spec fn normalize_headers(hs: Seq<crate::models::KeyValueView>) -> Seq<
    (Seq<char>, Seq<char>),
>
    decreases hs.len(),
{
    if hs.len() == 0 {
        Seq::<(Seq<char>, Seq<char>)>::empty()
    } else {
        let prev = normalize_headers(hs.drop_last());
        if header_counts(hs.last()) {
            hs_set(prev, hs.last().key, hs.last().value)
        } else {
            prev
        }
    }
}

/// An ordered header set. Entry order is insertion order; names keep the case
/// they were written in; matching is case-insensitive.
pub struct HeaderSet {
    pub entries: Vec<(String, String)>,
}

impl View for HeaderSet {
    type V = Seq<(Seq<char>, Seq<char>)>;

    open spec fn view(&self) -> Seq<(Seq<char>, Seq<char>)> {
        Seq::new(self.entries@.len(), |i: int| (self.entries@[i].0@, self.entries@[i].1@))
    }
}

impl HeaderSet {
    pub fn new() -> (r: HeaderSet)
        ensures
            r@ == Seq::<(Seq<char>, Seq<char>)>::empty(),
    {
        let r = HeaderSet { entries: Vec::new() };
        proof {
            assert(r@ =~= Seq::<(Seq<char>, Seq<char>)>::empty());
        }
        r
    }

    pub fn len(&self) -> (r: usize)
        ensures
            r == self@.len(),
    {
        self.entries.len()
    }

    /// The stored name and value at an index, in insertion order.
    pub fn entry_at(&self, i: usize) -> (r: (&String, &String))
        requires
            i < self@.len(),
        ensures
            r.0@ == self@[i as int].0,
            r.1@ == self@[i as int].1,
    {
        let e = &self.entries[i];
        (&e.0, &e.1)
    }

    /// Index of the first entry whose name matches, case-insensitively.
    fn find(&self, name: &str) -> (r: usize)
        ensures
            r == hs_find(self@, name@),
    {
        proof {
            lemma_hs_find(self@, name@);
        }
        let n = self.entries.len();
        for i in 0..n
            invariant
                n == self@.len(),
                n == self.entries@.len(),
                forall|j: int| 0 <= j < i ==> lower_seq(#[trigger] self@[j].0) != lower_seq(name@),
        {
            if names_match(self.entries[i].0.as_str(), name) {
                proof {
                    lemma_hs_find(self@, name@);
                    assert(self@[i as int].0 == self.entries@[i as int].0@);
                    if hs_find(self@, name@) < i {
                        assert(lower_seq(self@[hs_find(self@, name@)].0) == lower_seq(name@));
                        assert(false);
                    }
                    if hs_find(self@, name@) > i {
                        assert(false);
                    }
                }
                return i;
            }
            proof {
                assert(self@[i as int].0 == self.entries@[i as int].0@);
            }
        }
        proof {
            lemma_hs_find(self@, name@);
            if hs_find(self@, name@) < n {
                assert(lower_seq(self@[hs_find(self@, name@)].0) == lower_seq(name@));
                assert(false);
            }
        }
        n
    }

    /// Whether a header of this name is already present.
    pub fn contains_name(&self, name: &str) -> (r: bool)
        ensures
            r == hs_contains(self@, name@),
    {
        proof {
            lemma_hs_find(self@, name@);
        }
        let i = self.find(name);
        i < self.entries.len()
    }

    /// The canonical header set of a declared header list: every enabled,
    /// valid entry applied in order, last write winning.
    pub fn from_list(headers: &Vec<crate::models::KeyValue>) -> (r: HeaderSet)
        ensures
            r@ == normalize_headers(headers.deep_view()),
    {
        let mut hs = HeaderSet::new();
        let n = headers.len();
        let ghost dv = headers.deep_view();
        proof {
            assert(dv.take(0) =~= Seq::<crate::models::KeyValueView>::empty());
        }
        for i in 0..n
            invariant
                n == headers@.len(),
                dv == headers.deep_view(),
                dv.len() == n,
                hs@ == normalize_headers(dv.take(i as int)),
        {
            let h = &headers[i];
            if h.enabled && !crate::text::is_blank_exec(h.key.as_str()) && header_name_ok_exec(
                h.key.as_str(),
            ) && header_value_ok_exec(h.value.as_str()) {
                hs.set_header(h.key.clone(), h.value.clone());
            }
            proof {
                assert(dv[i as int] == headers@[i as int]@);
                assert(dv.take(i + 1).drop_last() =~= dv.take(i as int));
                assert(dv.take(i + 1).last() == dv[i as int]);
            }
        }
        proof {
            assert(dv.take(n as int) =~= dv);
        }
        hs
    }

    /// Sets a header, last write winning: a matching entry keeps its stored
    /// name and takes the new value; otherwise the pair is appended.
    pub fn set_header(&mut self, name: String, value: String)
        ensures
            final(self)@ == hs_set(old(self)@, name@, value@),
    {
        proof {
            lemma_hs_find(self@, name@);
        }
        let i = self.find(name.as_str());
        if i < self.entries.len() {
            let kept = self.entries[i].0.clone();
            self.entries[i] = (kept, value);
            proof {
                assert(self@ =~= hs_set(old(self)@, name@, value@));
            }
        } else {
            self.entries.push((name, value));
            proof {
                assert(self@ =~= hs_set(old(self)@, name@, value@));
            }
        }
    }
}

} // verus!
