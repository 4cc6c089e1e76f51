//! The encoding a response body carries (`Content-Encoding`).
use vstd::prelude::*;

verus! {

/// The one encoding of a body (several encodings are not supported).
pub struct ContentEncoding {
    pub kind: ContentEncodingType,
}

/// An encoding a body can carry.
#[derive(Debug, Clone, Copy, PartialEq, Eq, Structural)]
pub enum ContentEncodingType {
    Gzip,
    Deflate,
    Br,
}

/// The name of an encoding as it stands in a `Content-Encoding` header.
pub open spec fn content_encoding_name(t: ContentEncodingType) -> Seq<char> {
    match t {
        ContentEncodingType::Gzip => seq!['g', 'z', 'i', 'p'],
        ContentEncodingType::Deflate => seq!['d', 'e', 'f', 'l', 'a', 't', 'e'],
        ContentEncodingType::Br => seq!['b', 'r'],
    }
}

/// The encoding with exactly this name (case matters).
pub open spec fn content_encoding_of(s: Seq<char>) -> Option<ContentEncodingType> {
    if s == content_encoding_name(ContentEncodingType::Gzip) {
        Some(ContentEncodingType::Gzip)
    } else if s == content_encoding_name(ContentEncodingType::Deflate) {
        Some(ContentEncodingType::Deflate)
    } else if s == content_encoding_name(ContentEncodingType::Br) {
        Some(ContentEncodingType::Br)
    } else {
        None
    }
}

/// The encoding whose name the bytes spell exactly.
pub open spec fn content_encoding_of_bytes(b: Seq<u8>) -> Option<ContentEncodingType> {
    if b == seq![103u8, 122u8, 105u8, 112u8] {
        Some(ContentEncodingType::Gzip)
    } else if b == seq![100u8, 101u8, 102u8, 108u8, 97u8, 116u8, 101u8] {
        Some(ContentEncodingType::Deflate)
    } else if b == seq![98u8, 114u8] {
        Some(ContentEncodingType::Br)
    } else {
        None
    }
}

/// Whether two byte strings are equal.
fn bytes_eq(a: &[u8], b: &[u8]) -> (r: bool)
    ensures
        r == (a@ == b@),
{
    if a.len() != b.len() {
        return false;
    }
    let mut i: usize = 0;
    while i < a.len()
        invariant
            a.len() == b.len(),
            i <= a.len(),
            forall|j: int| 0 <= j < i ==> a@[j] == b@[j],
        decreases a.len() - i,
    {
        if a[i] != b[i] {
            return false;
        }
        i = i + 1;
    }
    assert(a@ =~= b@);
    true
}

impl ContentEncodingType {
    /// The encoding's name.
    pub fn as_str(&self) -> (r: &'static str)
        ensures
            r@ == content_encoding_name(*self),
    {
        proof {
            reveal_strlit("gzip");
            reveal_strlit("deflate");
            reveal_strlit("br");
        }
        match self {
            ContentEncodingType::Gzip => "gzip",
            ContentEncodingType::Deflate => "deflate",
            ContentEncodingType::Br => "br",
        }
    }

    /// The encoding a header value names exactly (`TryFrom<&HeaderValue>`,
    /// on the value's bytes); any other value is an error.
    pub fn try_from(bytes: &[u8]) -> (r: Result<ContentEncodingType, ()>)
        ensures
            match content_encoding_of_bytes(bytes@) {
                Some(t) => r == Ok::<ContentEncodingType, ()>(t),
                None => r is Err,
            },
    {
        let g: [u8; 4] = [103u8, 122u8, 105u8, 112u8];
        let d: [u8; 7] = [100u8, 101u8, 102u8, 108u8, 97u8, 116u8, 101u8];
        let b: [u8; 2] = [98u8, 114u8];
        assert(g@ =~= seq![103u8, 122u8, 105u8, 112u8]);
        assert(d@ =~= seq![100u8, 101u8, 102u8, 108u8, 97u8, 116u8, 101u8]);
        assert(b@ =~= seq![98u8, 114u8]);
        if bytes_eq(bytes, g.as_slice()) {
            Ok(ContentEncodingType::Gzip)
        } else if bytes_eq(bytes, d.as_slice()) {
            Ok(ContentEncodingType::Deflate)
        } else if bytes_eq(bytes, b.as_slice()) {
            Ok(ContentEncodingType::Br)
        } else {
            Err(())
        }
    }

    /// The encoding named exactly `s` (`FromStr`); any other name is an
    /// error.
    pub fn from_str(s: &str) -> (r: Result<ContentEncodingType, ()>)
        ensures
            match content_encoding_of(s@) {
                Some(t) => r == Ok::<ContentEncodingType, ()>(t),
                None => r is Err,
            },
    {
        let c = crate::text::chars_of(s);
        let g = crate::text::chars_of(ContentEncodingType::Gzip.as_str());
        let d = crate::text::chars_of(ContentEncodingType::Deflate.as_str());
        let b = crate::text::chars_of(ContentEncodingType::Br.as_str());
        if crate::text::seq_eq(c.as_slice(), g.as_slice()) {
            Ok(ContentEncodingType::Gzip)
        } else if crate::text::seq_eq(c.as_slice(), d.as_slice()) {
            Ok(ContentEncodingType::Deflate)
        } else if crate::text::seq_eq(c.as_slice(), b.as_slice()) {
            Ok(ContentEncodingType::Br)
        } else {
            Err(())
        }
    }
}

} // verus!
