//! A marker carried in a request header: a value attached under a name that
//! the marker's type gives, and read back or taken off by that name.
use vstd::prelude::*;

use crate::functions::http_route::{header_get, header_lookup, header_name_ok, header_named};
use crate::plugin::filter::{header_name_of, insert_named, remove_named, without_name};
use crate::text::{ascii_lower_seq, ascii_lower_string, first_where};

verus! {

/// The name of the header a marker is carried in.
pub trait HeaderName {
    /// The name, as text.
    spec fn spec_name() -> Seq<char>;

    /// The name.
    fn name() -> (r: &'static str)
        ensures
            r@ == Self::spec_name(),
    ;
}

/// A marker whose value is carried in the header that `H` names.
pub struct Header<H> {
    pub name: core::marker::PhantomData<H>,
    pub value: Vec<u8>,
}

impl<H: HeaderName> Header<H> {
    /// A marker with `value`.
    pub fn new(value: Vec<u8>) -> (r: Self)
        ensures
            r.value == value,
    {
        Header { name: core::marker::PhantomData, value }
    }

    /// The marker carried by the headers: the first value under the name,
    /// if there is one.
    pub fn extract(headers: &Vec<(String, Vec<u8>)>) -> (r: Option<Self>)
        ensures
            match header_lookup(headers@, H::spec_name()) {
                Some(v) => r matches Some(h) && h.value@ == v,
                None => r is None,
            },
    {
        match header_get(headers, H::name()) {
            Some(v) => {
                let mut copy: Vec<u8> = Vec::new();
                let mut i: usize = 0;
                while i < v.len()
                    invariant
                        i <= v@.len(),
                        copy@ == v@.take(i as int),
                    decreases v.len() - i,
                {
                    copy.push(v[i]);
                    assert(v@.take(i + 1) =~= v@.take(i as int).push(v@[i as int]));
                    i = i + 1;
                }
                assert(v@.take(v@.len() as int) =~= v@);
                Some(Header::new(copy))
            },
            None => None,
        }
    }

    /// Attaches the marker: its value becomes the only one under the name.
    /// The name must be a header name in lower case, as `http` takes a
    /// static name only in that form.
    pub fn attach(self, headers: &mut Vec<(String, Vec<u8>)>)
        requires
            header_name_of(H::spec_name()) == Some(H::spec_name()),
        ensures
            final(headers)@ == without_name(old(headers)@, H::spec_name()).push((final(headers)@.last().0, self.value)),
            final(headers)@.last().0@ == H::spec_name(),
    {
        let n = String::from_str(H::name());
        insert_named(headers, n, self.value);
    }

    /// Takes the marker off: the first value under the name, with every
    /// value under the name removed; nothing changes when there is none.
    pub fn detach(headers: &mut Vec<(String, Vec<u8>)>) -> (r: Option<Self>)
        ensures
            match header_lookup(old(headers)@, H::spec_name()) {
                Some(v) => r matches Some(h) && h.value@ == v
                    && final(headers)@ == without_name(old(headers)@, ascii_lower_seq(H::spec_name())),
                None => r is None && final(headers)@ == old(headers)@,
            },
    {
        let found = Self::extract(headers);
        match found {
            Some(h) => {
                let lower = ascii_lower_string(H::name());
                remove_named(headers, lower.as_str());
                Some(h)
            },
            None => None,
        }
    }
}

/// No entry left after leaving out a name carries that name.
proof fn lemma_without_name_absent(hs: Seq<(String, Vec<u8>)>, n: Seq<char>)
    ensures
        forall|i: int| 0 <= i < without_name(hs, n).len() ==> (#[trigger] without_name(hs, n)[i]).0@ != n,
    decreases hs.len(),
{
    if hs.len() > 0 {
        lemma_without_name_absent(hs.drop_last(), n);
        let w = without_name(hs.drop_last(), n);
        if hs.last().0@ != n {
            assert forall|i: int| 0 <= i < without_name(hs, n).len() implies (#[trigger] without_name(hs, n)[i]).0@ != n by {
                if i < w.len() {
                    assert(without_name(hs, n)[i] == w[i]);
                }
            }
        }
    }
}

/// The first place at or after `lo` where `p` holds is the last place
/// before `n`, when `p` holds there and nowhere before it.
proof fn lemma_first_where_last(lo: int, n: int, p: spec_fn(int) -> bool)
    requires
        lo < n,
        p(n - 1),
        forall|i: int| lo <= i < n - 1 ==> !#[trigger] p(i),
    ensures
        first_where(lo, n, p) == Some(n - 1),
    decreases n - lo,
{
    if lo < n - 1 {
        assert(!p(lo));
        lemma_first_where_last(lo + 1, n, p);
    }
}

/// A marker attached to headers is read back: after its value is made the
/// only one under a lower-case header name, the headers give that value
/// under the name.
pub proof fn lemma_attach_then_extract(hs: Seq<(String, Vec<u8>)>, n: String, v: Vec<u8>)
    requires
        header_name_of(n@) == Some(n@),
    ensures
        header_lookup(without_name(hs, n@).push((n, v)), n@) == Some(v@),
{
    let ws = without_name(hs, n@).push((n, v));
    assert(header_name_ok(n@));
    assert(ascii_lower_seq(n@) == n@);
    lemma_without_name_absent(hs, n@);
    let p = header_named(ws, n@);
    assert forall|i: int| 0 <= i < ws.len() - 1 implies !#[trigger] p(i) by {
        assert(ws[i] == without_name(hs, n@)[i]);
    }
    assert(p(ws.len() - 1));
    lemma_first_where_last(0, ws.len() as int, p);
}

} // verus!
