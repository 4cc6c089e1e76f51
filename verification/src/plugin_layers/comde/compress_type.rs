//! The compression algorithms a response body can be encoded with.
use vstd::prelude::*;

use crate::text::{
    bytes_eq_ignore_ascii_case, bytes_eq_ignore_ascii_case_spec, chars_of,
    eq_ignore_ascii_case, eq_ignore_ascii_case_spec,
};

verus! {

/// A compression algorithm; gzip by default.
#[derive(Debug, Clone, Copy, PartialEq, Eq, Structural)]
pub enum CompressionType {
    Gzip,
    Deflate,
    Br,
}

impl Default for CompressionType {
    fn default() -> (r: Self)
        ensures
            r == CompressionType::Gzip,
    {
        CompressionType::Gzip
    }
}

/// The name of an algorithm as it stands in `Accept-Encoding` and
/// `Content-Encoding` headers.
pub open spec fn compression_name(t: CompressionType) -> Seq<char> {
    match t {
        CompressionType::Gzip => seq!['g', 'z', 'i', 'p'],
        CompressionType::Deflate => seq!['d', 'e', 'f', 'l', 'a', 't', 'e'],
        CompressionType::Br => seq!['b', 'r'],
    }
}

/// The algorithm named `s`, up to ASCII case, trying gzip, br and deflate
/// in that order.
pub open spec fn compression_of_name(s: Seq<char>) -> Option<CompressionType> {
    if eq_ignore_ascii_case_spec(s, compression_name(CompressionType::Gzip)) {
        Some(CompressionType::Gzip)
    } else if eq_ignore_ascii_case_spec(s, compression_name(CompressionType::Br)) {
        Some(CompressionType::Br)
    } else if eq_ignore_ascii_case_spec(s, compression_name(CompressionType::Deflate)) {
        Some(CompressionType::Deflate)
    } else {
        None
    }
}

/// The name of an algorithm as ASCII bytes.
pub open spec fn compression_name_bytes(t: CompressionType) -> Seq<u8> {
    match t {
        CompressionType::Gzip => seq![103u8, 122u8, 105u8, 112u8],
        CompressionType::Deflate => seq![100u8, 101u8, 102u8, 108u8, 97u8, 116u8, 101u8],
        CompressionType::Br => seq![98u8, 114u8],
    }
}

/// The algorithm whose name the bytes spell, up to ASCII case.
pub open spec fn compression_of_bytes(b: Seq<u8>) -> Option<CompressionType> {
    if bytes_eq_ignore_ascii_case_spec(b, compression_name_bytes(CompressionType::Gzip)) {
        Some(CompressionType::Gzip)
    } else if bytes_eq_ignore_ascii_case_spec(b, compression_name_bytes(CompressionType::Br)) {
        Some(CompressionType::Br)
    } else if bytes_eq_ignore_ascii_case_spec(b, compression_name_bytes(CompressionType::Deflate)) {
        Some(CompressionType::Deflate)
    } else {
        None
    }
}

impl CompressionType {
    /// The algorithm's name as bytes.
    pub fn as_bytes(&self) -> (r: &'static [u8])
        ensures
            r@ == compression_name_bytes(*self),
    {
        let r: &'static [u8] = match self {
            CompressionType::Gzip => &[103u8, 122u8, 105u8, 112u8],
            CompressionType::Deflate => &[100u8, 101u8, 102u8, 108u8, 97u8, 116u8, 101u8],
            CompressionType::Br => &[98u8, 114u8],
        };
        assert(r@ =~= compression_name_bytes(*self));
        r
    }

    /// The algorithm's name.
    pub fn as_str(&self) -> (r: &'static str)
        ensures
            r@ == compression_name(*self),
    {
        proof {
            reveal_strlit("gzip");
            reveal_strlit("deflate");
            reveal_strlit("br");
        }
        match self {
            CompressionType::Gzip => "gzip",
            CompressionType::Deflate => "deflate",
            CompressionType::Br => "br",
        }
    }

    /// The algorithm named `s`, up to ASCII case (`FromStr`).
    pub fn from_str(s: &str) -> (r: Result<CompressionType, ()>)
        ensures
            match compression_of_name(s@) {
                Some(t) => r == Ok::<CompressionType, ()>(t),
                None => r is Err,
            },
    {
        let c = chars_of(s);
        let g = chars_of(CompressionType::Gzip.as_str());
        let b = chars_of(CompressionType::Br.as_str());
        let d = chars_of(CompressionType::Deflate.as_str());
        if eq_ignore_ascii_case(c.as_slice(), g.as_slice()) {
            Ok(CompressionType::Gzip)
        } else if eq_ignore_ascii_case(c.as_slice(), b.as_slice()) {
            Ok(CompressionType::Br)
        } else if eq_ignore_ascii_case(c.as_slice(), d.as_slice()) {
            Ok(CompressionType::Deflate)
        } else {
            Err(())
        }
    }

    /// The algorithm whose name the bytes spell, up to ASCII case
    /// (`TryFrom<&[u8]>`).
    pub fn try_from(bytes: &[u8]) -> (r: Result<CompressionType, ()>)
        ensures
            match compression_of_bytes(bytes@) {
                Some(t) => r == Ok::<CompressionType, ()>(t),
                None => r is Err,
            },
    {
        if bytes_eq_ignore_ascii_case(bytes, CompressionType::Gzip.as_bytes()) {
            Ok(CompressionType::Gzip)
        } else if bytes_eq_ignore_ascii_case(bytes, CompressionType::Br.as_bytes()) {
            Ok(CompressionType::Br)
        } else if bytes_eq_ignore_ascii_case(bytes, CompressionType::Deflate.as_bytes()) {
            Ok(CompressionType::Deflate)
        } else {
            Err(())
        }
    }
}

} // verus!
