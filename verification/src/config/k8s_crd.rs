//! The Kubernetes custom resource that attaches filters to gateways and
//! routes.
use vstd::prelude::*;

use crate::text::{to_lowercase, unicode_lower};

verus! {

/// What a filter resource applies to: a gateway, an HTTP route or an HTTP
/// space route, by name and namespace.
#[derive(Debug, Clone)]
pub struct K8sSgFilterSpecTargetRef {
    /// `gateway`, `httproute` or `httpspaceroute`.
    pub kind: String,
    pub name: String,
    pub namespace: Option<String>,
}

/// The namespace, `default` when none is given.
pub open spec fn namespace_or_default(ns: Option<Seq<char>>) -> Seq<char> {
    match ns {
        Some(n) => n,
        None => seq!['d', 'e', 'f', 'a', 'u', 'l', 't'],
    }
}

/// The text of an optional string.
pub open spec fn opt_seq(s: Option<String>) -> Option<Seq<char>> {
    match s {
        Some(x) => Some(x@),
        None => None,
    }
}

/// Whether a target reference names the object of this kind, name and
/// namespace: kind, name and namespace (`default` when not given) are
/// compared after lower-casing.
pub open spec fn targets_spec(t: K8sSgFilterSpecTargetRef, kind: Seq<char>, name: Seq<char>, namespace: Option<Seq<char>>) -> bool {
    &&& unicode_lower(t.kind@) == unicode_lower(kind)
    &&& unicode_lower(t.name@) == unicode_lower(name)
    &&& unicode_lower(namespace_or_default(opt_seq(t.namespace))) == unicode_lower(namespace_or_default(namespace))
}

fn eq_text(a: &String, b: &String) -> (r: bool)
    ensures
        r == (a@ == b@),
{
    let x = crate::text::chars_of(a.as_str());
    let y = crate::text::chars_of(b.as_str());
    crate::text::seq_eq(x.as_slice(), y.as_slice())
}

impl K8sSgFilterSpecTargetRef {
    /// Whether the reference names the object (see [`targets_spec`]).
    pub fn targets(&self, kind: &str, name: &str, namespace: &Option<String>) -> (r: bool)
        ensures
            r == targets_spec(*self, kind@, name@, opt_seq(*namespace)),
    {
        proof {
            reveal_strlit("default");
        }
        let k1 = to_lowercase(self.kind.as_str());
        let k2 = to_lowercase(kind);
        let n1 = to_lowercase(self.name.as_str());
        let n2 = to_lowercase(name);
        let ns1 = match &self.namespace {
            Some(n) => to_lowercase(n.as_str()),
            None => to_lowercase("default"),
        };
        let ns2 = match namespace {
            Some(n) => to_lowercase(n.as_str()),
            None => to_lowercase("default"),
        };
        proof {
            assert("default"@ =~= seq!['d', 'e', 'f', 'a', 'u', 'l', 't']);
        }
        eq_text(&k1, &k2) && eq_text(&n1, &n2) && eq_text(&ns1, &ns2)
    }
}

} // verus!
