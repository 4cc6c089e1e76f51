//! URL and query-string handling done by the `url`, `urlencoding` and `http`
//! crates.
use vstd::prelude::*;

verus! {

/// What `urlencoding::decode` gives for `s`: the percent-decoded text, or
/// `None` when the decoded bytes are not UTF-8.
pub uninterp spec fn url_decode_spec(s: Seq<char>) -> Option<Seq<char>>;

/// `urlencoding::decode`. The contract claims the result is the crate's
/// decoding of `s` (a function of `s` alone) and, as its source shows, that
/// text without any `%` comes back unchanged.
#[verifier::external_body]
pub(crate) fn url_decode(s: &str) -> (r: Option<String>)
    ensures
        r matches Some(d) ==> url_decode_spec(s@) == Some(d@),
        r is None ==> url_decode_spec(s@) is None,
        !s@.contains('%') ==> (r is Some && r->0@ == s@),
{
    match urlencoding::decode(s) {
        Ok(d) => Some(d.into_owned()),
        Err(_) => None,
    }
}

/// The path of the URL that `url::Url::parse` reads from `s`, or `None`
/// when `s` is not an absolute URL.
pub uninterp spec fn url_path_spec(s: Seq<char>) -> Option<Seq<char>>;

/// The serialization of the URL read from `s` after `url::Url::set_path`
/// with `path`, or `None` when `s` is not an absolute URL.
pub uninterp spec fn url_with_path_spec(s: Seq<char>, path: Seq<char>) -> Option<Seq<char>>;

/// The text of the `http::Uri` parsed from `s` (its `Display` form), or
/// `None` when `http` rejects `s`.
pub uninterp spec fn http_uri_text_spec(s: Seq<char>) -> Option<Seq<char>>;

/// `url::Url::parse` followed by `Url::path`. The contract claims the
/// result is the crate's reading of `s`.
#[verifier::external_body]
pub(crate) fn url_path(s: &str) -> (r: Option<String>)
    ensures
        r matches Some(p) ==> url_path_spec(s@) == Some(p@),
        r is None ==> url_path_spec(s@) is None,
{
    match url::Url::parse(s) {
        Ok(u) => Some(u.path().to_string()),
        Err(_) => None,
    }
}

/// `url::Url::parse`, `Url::set_path` and `Url::as_str`. The contract claims
/// the result is the crate's serialization, and that parsing succeeds here
/// exactly when it does in [`url_path`], as both parse `s` the same way.
#[verifier::external_body]
pub(crate) fn url_with_path(s: &str, path: &str) -> (r: Option<String>)
    ensures
        r matches Some(u) ==> url_with_path_spec(s@, path@) == Some(u@),
        r is None ==> url_with_path_spec(s@, path@) is None,
        r is Some <==> url_path_spec(s@) is Some,
{
    match url::Url::parse(s) {
        Ok(mut u) => {
            u.set_path(path);
            Some(u.as_str().to_string())
        },
        Err(_) => None,
    }
}

/// Parses `s` as an `http::Uri` and writes it back out. The contract claims
/// the result is the `http` crate's reading of `s`.
#[verifier::external_body]
pub(crate) fn http_uri_text(s: &str) -> (r: Option<String>)
    ensures
        r matches Some(u) ==> http_uri_text_spec(s@) == Some(u@),
        r is None ==> http_uri_text_spec(s@) is None,
{
    match s.parse::<http::Uri>() {
        Ok(u) => Some(u.to_string()),
        Err(_) => None,
    }
}

/// The serialization of the URL read from `s` after `url::Url::set_host`
/// with `host`, or `None` when `s` is not an absolute URL or the host is
/// refused.
pub uninterp spec fn url_set_host_spec(s: Seq<char>, host: Seq<char>) -> Option<Seq<char>>;

/// The serialization of the URL read from `s` after `url::Url::set_scheme`
/// with `scheme`, or `None` when `s` is not an absolute URL or the scheme is
/// refused.
pub uninterp spec fn url_set_scheme_spec(s: Seq<char>, scheme: Seq<char>) -> Option<Seq<char>>;

/// The serialization of the URL read from `s` after `url::Url::set_port`
/// with `port`, or `None` when `s` is not an absolute URL or it can have
/// no port.
pub uninterp spec fn url_set_port_spec(s: Seq<char>, port: u16) -> Option<Seq<char>>;

/// `url::Url::parse`, `Url::set_host` and `Url::as_str`. The contract
/// claims the result is the crate's serialization of `s` with the new host.
#[verifier::external_body]
pub(crate) fn url_set_host(s: &str, host: &str) -> (r: Option<String>)
    ensures
        r matches Some(u) ==> url_set_host_spec(s@, host@) == Some(u@),
        r is None ==> url_set_host_spec(s@, host@) is None,
{
    match url::Url::parse(s) {
        Ok(mut u) => match u.set_host(Some(host)) {
            Ok(()) => Some(u.as_str().to_string()),
            Err(_) => None,
        },
        Err(_) => None,
    }
}

/// `url::Url::parse`, `Url::set_scheme` and `Url::as_str`. The contract
/// claims the result is the crate's serialization of `s` with the new
/// scheme.
#[verifier::external_body]
pub(crate) fn url_set_scheme(s: &str, scheme: &str) -> (r: Option<String>)
    ensures
        r matches Some(u) ==> url_set_scheme_spec(s@, scheme@) == Some(u@),
        r is None ==> url_set_scheme_spec(s@, scheme@) is None,
{
    match url::Url::parse(s) {
        Ok(mut u) => match u.set_scheme(scheme) {
            Ok(()) => Some(u.as_str().to_string()),
            Err(()) => None,
        },
        Err(_) => None,
    }
}

/// `url::Url::parse`, `Url::set_port` and `Url::as_str`. The contract
/// claims the result is the crate's serialization of `s` with the new port.
#[verifier::external_body]
pub(crate) fn url_set_port(s: &str, port: u16) -> (r: Option<String>)
    ensures
        r matches Some(u) ==> url_set_port_spec(s@, port) == Some(u@),
        r is None ==> url_set_port_spec(s@, port) is None,
{
    match url::Url::parse(s) {
        Ok(mut u) => match u.set_port(Some(port)) {
            Ok(()) => Some(u.as_str().to_string()),
            Err(()) => None,
        },
        Err(_) => None,
    }
}

} // verus!
