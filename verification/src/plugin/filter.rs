//! Route filters and the request/response context they work on, with the
//! header-map operations they use.
use vstd::prelude::*;

use crate::text::{ascii_lower_seq, chars_of, seq_eq};
use vstd::string::StringSliceAdditionalSpecFns;
use vstd::utf8::encode_utf8;
use crate::error::SgError;
use crate::functions::http_route::header_name_ok;

pub mod header_modifier;
pub mod redirect;

verus! {

/// The type of a route filter.
#[derive(Debug, Clone, Copy, PartialEq, Eq, Structural)]
pub enum SgRouteFilterType {
    HeaderModifier,
    Redirect,
}

/// The kind of traffic a plugin filter handles.
#[derive(Debug, Clone, Copy, PartialEq, Eq, Structural)]
pub enum SgPluginFilterKind {
    Http,
    Grpc,
    Ws,
}

/// A route filter: its type, and the settings of that type.
#[derive(Debug, Clone)]
pub struct SgRouteFilter {
    pub kind: Option<SgRouteFilterType>,
    pub header_modifier: Option<header_modifier::SgFilerHeaderModifier>,
    pub redirect: Option<redirect::SgFilerRedirect>,
}

/// The request and response as route filters see them.
#[derive(Debug, Clone)]
pub struct SgRouteFilterContext {
    pub method: String,
    pub uri: String,
    pub req_headers: Vec<(String, Vec<u8>)>,
    pub resp_headers: Option<Vec<(String, Vec<u8>)>>,
    pub resp_status_code: Option<u16>,
    pub ext: Vec<(String, String)>,
    /// The body, once read.
    pub inner_body: Option<Vec<u8>>,
    /// The upper bound the request gives for its body, if it gives one.
    pub body_size_hint: Option<u64>,
}

impl SgRouteFilterContext {
    /// The size of the body: its length once read, else the request's upper
    /// bound (`u64::MAX` without one).
    pub fn body_size(&self) -> (r: u64)
        ensures
            r == match self.inner_body {
                Some(b) => b@.len() as u64,
                None => match self.body_size_hint {
                    Some(h) => h,
                    None => u64::MAX,
                },
            },
    {
        match &self.inner_body {
            Some(b) => b.len() as u64,
            None => match self.body_size_hint {
                Some(h) => h,
                None => u64::MAX,
            },
        }
    }

    /// The body, once read.
    pub fn get_body(&self) -> (r: Option<&Vec<u8>>)
        ensures
            match self.inner_body {
                Some(b) => r == Some(&b),
                None => r is None,
            },
    {
        self.inner_body.as_ref()
    }

    /// Replaces the body.
    pub fn set_body(&mut self, body: Vec<u8>)
        ensures
            final(self).inner_body == Some(body),
            final(self).req_headers == old(self).req_headers,
            final(self).method == old(self).method,
            final(self).uri == old(self).uri,
    {
        self.inner_body = Some(body);
    }
}

/* ------------------------------------------------------------------------
   Header maps
   ------------------------------------------------------------------------ */

/// The values stored under the (lower-case) name `n`, in order.
pub open spec fn values_of(hs: Seq<(String, Vec<u8>)>, n: Seq<char>) -> Seq<Seq<u8>>
    decreases hs.len(),
{
    if hs.len() == 0 {
        Seq::empty()
    } else if hs.last().0@ == n {
        values_of(hs.drop_last(), n).push(hs.last().1@)
    } else {
        values_of(hs.drop_last(), n)
    }
}

/// The entries whose name is not `n`, in order.
pub open spec fn without_name(hs: Seq<(String, Vec<u8>)>, n: Seq<char>) -> Seq<(String, Vec<u8>)>
    decreases hs.len(),
{
    if hs.len() == 0 {
        hs
    } else if hs.last().0@ == n {
        without_name(hs.drop_last(), n)
    } else {
        without_name(hs.drop_last(), n).push(hs.last())
    }
}

/// Two header maps with the same entries, in the same order.
pub open spec fn same_headers(a: Seq<(String, Vec<u8>)>, b: Seq<(String, Vec<u8>)>) -> bool {
    &&& a.len() == b.len()
    &&& forall|i: int| 0 <= i < a.len() ==> (#[trigger] a[i]).0@ == b[i].0@ && a[i].1@ == b[i].1@
}

/// Header maps with the same entries hold the same values under every name.
pub proof fn lemma_same_headers_values(a: Seq<(String, Vec<u8>)>, b: Seq<(String, Vec<u8>)>)
    requires
        same_headers(a, b),
    ensures
        forall|n: Seq<char>| #[trigger] values_of(a, n) == values_of(b, n),
    decreases a.len(),
{
    if a.len() > 0 {
        assert(same_headers(a.drop_last(), b.drop_last())) by {
            assert forall|i: int| 0 <= i < a.drop_last().len() implies (#[trigger] a.drop_last()[i]).0@ == b.drop_last()[i].0@
                && a.drop_last()[i].1@ == b.drop_last()[i].1@ by {
                assert(a[i].0@ == b[i].0@);
            }
        }
        lemma_same_headers_values(a.drop_last(), b.drop_last());
        assert(a.last().0@ == b.last().0@ && a.last().1@ == b.last().1@) by {
            assert(a[a.len() - 1].0@ == b[a.len() - 1].0@);
        }
        assert forall|n: Seq<char>| #[trigger] values_of(a, n) == values_of(b, n) by {
            assert(values_of(a.drop_last(), n) == values_of(b.drop_last(), n));
        }
    } else {
        assert forall|n: Seq<char>| #[trigger] values_of(a, n) == values_of(b, n) by {}
    }
}

/// A copy of the bytes.
pub fn copy_bytes(b: &Vec<u8>) -> (r: Vec<u8>)
    ensures
        r@ == b@,
{
    let mut out: Vec<u8> = Vec::new();
    let mut i: usize = 0;
    while i < b.len()
        invariant
            i <= b.len(),
            out@ == b@.take(i as int),
        decreases b.len() - i,
    {
        out.push(b[i]);
        assert(b@.take(i + 1) =~= b@.take(i as int).push(b@[i as int]));
        i = i + 1;
    }
    assert(b@.take(b.len() as int) =~= b@);
    out
}

/// A copy of a header map.
pub fn copy_headers(hs: &Vec<(String, Vec<u8>)>) -> (r: Vec<(String, Vec<u8>)>)
    ensures
        same_headers(r@, hs@),
{
    let mut out: Vec<(String, Vec<u8>)> = Vec::new();
    let mut i: usize = 0;
    while i < hs.len()
        invariant
            i <= hs.len(),
            out@.len() == i,
            forall|j: int| 0 <= j < i ==> (#[trigger] out@[j]).0@ == hs@[j].0@ && out@[j].1@ == hs@[j].1@,
        decreases hs.len() - i,
    {
        let name = hs[i].0.clone();
        let value = copy_bytes(&hs[i].1);
        out.push((name, value));
        i = i + 1;
    }
    out
}

/// A header name as `http::HeaderName` stores it: lower case, when the text
/// is a valid name.
pub open spec fn header_name_of(s: Seq<char>) -> Option<Seq<char>> {
    if header_name_ok(s) {
        Some(ascii_lower_seq(s))
    } else {
        None
    }
}

/// A character a header value may hold (`http::HeaderValue` takes every
/// byte from 32 up except 127, and tab; the bytes of a non-ASCII character
/// are all above 127).
pub open spec fn header_value_char_ok(c: char) -> bool {
    ((c as u32) >= 32 && (c as u32) != 127) || c == '\t'
}

/// A text a header value can be made of.
pub open spec fn header_value_ok(s: Seq<char>) -> bool {
    forall|i: int| 0 <= i < s.len() ==> header_value_char_ok(#[trigger] s[i])
}

/// A text of lower-case letters and dashes is a header name, in lower case.
pub proof fn lemma_lower_dash_name(s: Seq<char>)
    requires
        0 < s.len() <= 65535,
        forall|i: int| 0 <= i < s.len() ==> ('a' <= #[trigger] s[i] <= 'z' || s[i] == '-'),
    ensures
        header_name_of(s) == Some(s),
{
    assert(ascii_lower_seq(s) =~= s);
}

/// `http::HeaderName::try_from`: the contract claims that a name is accepted
/// exactly when it is one to 65535 token characters, and that it is stored
/// in lower case.
#[verifier::external_body]
pub(crate) fn parse_header_name(s: &str) -> (r: Option<String>)
    ensures
        match header_name_of(s@) {
            Some(n) => r matches Some(x) && x@ == n,
            None => r is None,
        },
{
    match http::header::HeaderName::try_from(s) {
        Ok(n) => Some(n.as_str().to_string()),
        Err(_) => None,
    }
}

/// `http::HeaderValue::try_from`: the contract claims that a text is
/// accepted exactly when it holds no control character but tab, and that
/// the value is the text's UTF-8 bytes.
#[verifier::external_body]
pub(crate) fn parse_header_value(s: &str) -> (r: Option<Vec<u8>>)
    ensures
        match r {
            Some(b) => header_value_ok(s@) && b@ == s.spec_bytes(),
            None => !header_value_ok(s@),
        },
{
    match http::header::HeaderValue::try_from(s) {
        Ok(v) => Some(v.as_bytes().to_vec()),
        Err(_) => None,
    }
}

/// Removes every value stored under the lower-case name `n`.
pub fn remove_named(hs: &mut Vec<(String, Vec<u8>)>, n: &str)
    ensures
        final(hs)@ == without_name(old(hs)@, n@),
        values_of(final(hs)@, n@) == Seq::<Seq<u8>>::empty(),
        forall|m: Seq<char>| m != n@ ==> #[trigger] values_of(final(hs)@, m) == values_of(old(hs)@, m),
{
    let nc = chars_of(n);
    let ghost old_hs = hs@;
    let mut j: usize = 0;
    let mut k: usize = 0;
    assert(old_hs.skip(0) =~= old_hs);
    assert(old_hs.take(0) =~= Seq::<(String, Vec<u8>)>::empty());
    let len0 = hs.len();
    assert(old_hs.len() == len0);
    while j < hs.len()
        invariant
            k <= old_hs.len(),
            old_hs.len() <= usize::MAX,
            nc@ == n@,
            j == without_name(old_hs.take(k as int), n@).len(),
            hs@ == without_name(old_hs.take(k as int), n@) + old_hs.skip(k as int),
        decreases old_hs.len() - k,
    {
        proof {
            lemma_without_len(old_hs.take(k as int), n@);
            assert(hs@.len() == j + (old_hs.len() - k));
            assert(k < old_hs.len());
            assert(hs@[j as int] == old_hs[k as int]);
            assert(old_hs.take(k + 1).drop_last() =~= old_hs.take(k as int));
            assert(old_hs.take(k + 1).last() == old_hs[k as int]);
        }
        let c = chars_of(hs[j].0.as_str());
        if seq_eq(c.as_slice(), nc.as_slice()) {
            let ghost before = hs@;
            let _ = hs.remove(j);
            proof {
                assert(hs@ =~= without_name(old_hs.take(k + 1), n@) + old_hs.skip(k + 1));
            }
        } else {
            proof {
                assert(hs@ =~= without_name(old_hs.take(k + 1), n@) + old_hs.skip(k + 1));
            }
            j = j + 1;
        }
        k = k + 1;
    }
    proof {
        lemma_without_len(old_hs.take(k as int), n@);
        assert(k == old_hs.len());
        assert(old_hs.take(k as int) =~= old_hs);
        assert(hs@ =~= without_name(old_hs, n@));
        lemma_values_without(old_hs, n@);
    }
}

/// Stores `v` as the only value under the lower-case name `n`.
pub fn insert_named(hs: &mut Vec<(String, Vec<u8>)>, n: String, v: Vec<u8>)
    ensures
        final(hs)@ == without_name(old(hs)@, n@).push((n, v)),
        values_of(final(hs)@, n@) == seq![v@],
        forall|m: Seq<char>| m != n@ ==> #[trigger] values_of(final(hs)@, m) == values_of(old(hs)@, m),
{
    let ghost n0 = n@;
    let ghost v0 = v@;
    remove_named(hs, n.as_str());
    let ghost before = hs@;
    hs.push((n, v));
    proof {
        assert(hs@.drop_last() =~= before);
        assert(values_of(hs@, n0) =~= seq![v0]);
        assert forall|m: Seq<char>| m != n0 implies #[trigger] values_of(hs@, m) == values_of(before, m) by {
            assert(hs@.drop_last() =~= before);
        }
    }
}

/// Leaving out a name leaves out its values and keeps the others.
proof fn lemma_values_without(hs: Seq<(String, Vec<u8>)>, n: Seq<char>)
    ensures
        values_of(without_name(hs, n), n) == Seq::<Seq<u8>>::empty(),
        forall|m: Seq<char>| m != n ==> #[trigger] values_of(without_name(hs, n), m) == values_of(hs, m),
    decreases hs.len(),
{
    if hs.len() > 0 {
        lemma_values_without(hs.drop_last(), n);
        let w = without_name(hs.drop_last(), n);
        assert forall|m: Seq<char>| m != n implies #[trigger] values_of(without_name(hs, n), m) == values_of(hs, m) by {
            let wh = without_name(hs, n);
            assert(values_of(w, m) == values_of(hs.drop_last(), m));
            if hs.last().0@ != n {
                assert(wh == w.push(hs.last()));
                assert(wh.drop_last() =~= w);
                assert(wh.last() == hs.last());
                assert(values_of(wh, m) == (if wh.last().0@ == m { values_of(wh.drop_last(), m).push(wh.last().1@) } else { values_of(wh.drop_last(), m) }));
            } else {
                assert(wh == w);
            }
        }
        if hs.last().0@ != n {
            assert(without_name(hs, n).drop_last() =~= w);
        }
    }
}

/// Leaving out a name never lengthens the entries.
proof fn lemma_without_len(hs: Seq<(String, Vec<u8>)>, n: Seq<char>)
    ensures
        without_name(hs, n).len() <= hs.len(),
    decreases hs.len(),
{
    if hs.len() > 0 {
        lemma_without_len(hs.drop_last(), n);
    }
}

/// The value the last of the sets that names `n` gives it, as bytes.
pub open spec fn set_value_for(sets: Seq<(String, String)>, n: Seq<char>) -> Option<Seq<u8>>
    decreases sets.len(),
{
    if sets.len() == 0 {
        None
    } else if header_name_of(sets.last().0@) == Some(n) {
        Some(encode_utf8(sets.last().1@))
    } else {
        set_value_for(sets.drop_last(), n)
    }
}

/// Every set has a valid name and value.
pub open spec fn sets_ok(sets: Seq<(String, String)>) -> bool {
    forall|i: int| 0 <= i < sets.len() ==> header_name_of((#[trigger] sets[i]).0@) is Some && header_value_ok(sets[i].1@)
}

/// Some listed name is `n` once parsed.
pub open spec fn removed_name(remove: Seq<String>, n: Seq<char>) -> bool {
    exists|i: int| 0 <= i < remove.len() && header_name_of((#[trigger] remove[i])@) == Some(n)
}

/// Every listed text is a header name.
pub open spec fn names_ok(remove: Seq<String>) -> bool {
    forall|i: int| 0 <= i < remove.len() ==> header_name_of((#[trigger] remove[i])@) is Some
}

/// Whether every listed text is a header name that `http` accepts.
pub fn check_names(remove: &Vec<String>) -> (r: bool)
    ensures
        r == names_ok(remove@),
{
    let mut i: usize = 0;
    while i < remove.len()
        invariant
            i <= remove@.len(),
            forall|j: int| 0 <= j < i ==> header_name_of((#[trigger] remove@[j])@) is Some,
        decreases remove.len() - i,
    {
        if parse_header_name(remove[i].as_str()).is_none() {
            return false;
        }
        i = i + 1;
    }
    true
}

/// The values under `n` after the sets.
pub open spec fn values_after_sets(old_hs: Seq<(String, Vec<u8>)>, sets: Seq<(String, String)>, n: Seq<char>) -> Seq<Seq<u8>> {
    match set_value_for(sets, n) {
        Some(b) => seq![b],
        None => values_of(old_hs, n),
    }
}

/// Applies the sets, in order, to a header map; a name or value that
/// `http` does not accept is a `FormatError`.
pub fn apply_sets(hs: &mut Vec<(String, Vec<u8>)>, sets: &Vec<(String, String)>) -> (r: Result<(), SgError>)
    ensures
        r is Ok <==> sets_ok(sets@),
        r is Err ==> r == Err::<(), SgError>(SgError::FormatError),
        r is Ok ==> forall|n: Seq<char>| #[trigger] values_of(final(hs)@, n) == values_after_sets(old(hs)@, sets@, n),
{
    let ghost old_hs = hs@;
    let mut i: usize = 0;
    while i < sets.len()
        invariant
            i <= sets@.len(),
            forall|j: int| 0 <= j < i ==> header_name_of((#[trigger] sets@[j]).0@) is Some && header_value_ok(sets@[j].1@),
            forall|n: Seq<char>| #[trigger] values_of(hs@, n) == values_after_sets(old_hs, sets@.take(i as int), n),
        decreases sets.len() - i,
    {
        let name = match parse_header_name(sets[i].0.as_str()) {
            Some(x) => x,
            None => {
                assert(!sets_ok(sets@));
                return Err(SgError::FormatError);
            },
        };
        let value = match parse_header_value(sets[i].1.as_str()) {
            Some(v) => v,
            None => {
                assert(!sets_ok(sets@));
                return Err(SgError::FormatError);
            },
        };
        let ghost before = hs@;
        let ghost nm = name@;
        insert_named(hs, name, value);
        proof {
            assert(sets@.take(i + 1).drop_last() =~= sets@.take(i as int));
            assert(sets@.take(i + 1).last() == sets@[i as int]);
            assert forall|n: Seq<char>| #[trigger] values_of(hs@, n) == values_after_sets(old_hs, sets@.take(i + 1), n) by {
                if n != nm {
                    assert(values_of(hs@, n) == values_of(before, n));
                }
            }
        }
        i = i + 1;
    }
    proof {
        assert(sets@.take(sets@.len() as int) =~= sets@);
    }
    Ok(())
}

/// Removes the listed names from a header map; a text that is not a header
/// name removes nothing.
pub fn apply_removes(hs: &mut Vec<(String, Vec<u8>)>, remove: &Vec<String>)
    ensures
        forall|n: Seq<char>| #[trigger] values_of(final(hs)@, n) == if removed_name(remove@, n) {
            Seq::<Seq<u8>>::empty()
        } else {
            values_of(old(hs)@, n)
        },
{
    let ghost old_hs = hs@;
    let mut i: usize = 0;
    while i < remove.len()
        invariant
            i <= remove@.len(),
            forall|n: Seq<char>| #[trigger] values_of(hs@, n) == if removed_name(remove@.take(i as int), n) {
                Seq::<Seq<u8>>::empty()
            } else {
                values_of(old_hs, n)
            },
        decreases remove.len() - i,
    {
        let ghost before = hs@;
        proof {
            assert forall|n: Seq<char>| removed_name(remove@.take(i + 1), n) == (removed_name(remove@.take(i as int), n) || header_name_of(remove@[i as int]@) == Some(n)) by {
                if removed_name(remove@.take(i + 1), n) {
                    let w = choose|w: int| 0 <= w < i + 1 && header_name_of((#[trigger] remove@.take(i + 1)[w])@) == Some(n);
                    if w < i {
                        assert(remove@.take(i as int)[w] == remove@.take(i + 1)[w]);
                    }
                }
                if removed_name(remove@.take(i as int), n) {
                    let w = choose|w: int| 0 <= w < i && header_name_of((#[trigger] remove@.take(i as int)[w])@) == Some(n);
                    assert(remove@.take(i + 1)[w] == remove@.take(i as int)[w]);
                }
                if header_name_of(remove@[i as int]@) == Some(n) {
                    assert(remove@.take(i + 1)[i as int] == remove@[i as int]);
                }
            }
        }
        match parse_header_name(remove[i].as_str()) {
            Some(name) => {
                remove_named(hs, name.as_str());
                proof {
                    assert forall|n: Seq<char>| #[trigger] values_of(hs@, n) == if removed_name(remove@.take(i + 1), n) {
                        Seq::<Seq<u8>>::empty()
                    } else {
                        values_of(old_hs, n)
                    } by {
                        assert(removed_name(remove@.take(i + 1), n) == (removed_name(remove@.take(i as int), n) || header_name_of(remove@[i as int]@) == Some(n)));
                        if n != name@ {
                            assert(values_of(hs@, n) == values_of(before, n));
                        }
                    }
                }
            },
            None => {
                proof {
                    assert forall|n: Seq<char>| #[trigger] values_of(hs@, n) == if removed_name(remove@.take(i + 1), n) {
                        Seq::<Seq<u8>>::empty()
                    } else {
                        values_of(old_hs, n)
                    } by {
                        assert(removed_name(remove@.take(i + 1), n) == (removed_name(remove@.take(i as int), n) || header_name_of(remove@[i as int]@) == Some(n)));
                    }
                }
            },
        }
        i = i + 1;
    }
    proof {
        assert(remove@.take(remove@.len() as int) =~= remove@);
    }
}

} // verus!
