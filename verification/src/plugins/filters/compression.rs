//! The compression filter: which encoding a client accepts.
use vstd::prelude::*;

use crate::functions::http_route::{header_text, header_value_text};
use crate::plugin_layers::comde::compress_type::{compression_of_name, CompressionType};
use crate::error::SgError;
use crate::plugin::filter::{header_name_of, header_value_ok, lemma_lower_dash_name, values_of};
use crate::plugin_layers::comde::compress_type::{compression_name, compression_name_bytes};
use crate::plugins::context::{same_but_messages, SgRoutePluginContext};
use crate::plugins::filters::{SgPluginFilterAccept, SgPluginFilterKind};
use vstd::utf8::{encode_utf8, is_ascii_chars, is_ascii_chars_encode_utf8};
use crate::text::{
    chars_of, find_spec, find_str, first_where, split, split_once_str, split_once_str_spec,
    split_spec, string_of, trim, trim_spec, lemma_first_where_bounds,
};

verus! {

/// The compression filter; it has no settings.
#[derive(Debug, Clone, Copy)]
pub struct SgFilterCompression {}

impl SgFilterCompression {
    /// The filter runs on HTTP requests only, and not on error responses.
    pub fn accept(&self) -> (r: SgPluginFilterAccept)
        ensures
            r.kind@ == seq![SgPluginFilterKind::Http],
            !r.accept_error_response,
    {
        let mut kind: Vec<SgPluginFilterKind> = Vec::new();
        kind.push(SgPluginFilterKind::Http);
        SgPluginFilterAccept { kind, accept_error_response: false }
    }
}

/// What an `Accept-Encoding` header asks for.
#[derive(Debug, Clone)]
pub enum AcceptEncodingChoice {
    /// The header gives no weights: the first listed algorithm that is known,
    /// if any.
    Chosen(Option<CompressionType>),
    /// The header gives weights (`;q=`): each listed item, in order, with the
    /// text of its weight (none given counts as 1) and the algorithm it
    /// names. The weights are floating-point numbers, compared outside.
    Weighted(Vec<(Option<String>, Option<CompressionType>)>),
}

/// The text `;q=`.
pub open spec fn weight_marker() -> Seq<char> {
    seq![';', 'q', '=']
}

/// The comma-separated items of a header value, each trimmed.
pub open spec fn header_items(v: Seq<char>) -> Seq<Seq<char>> {
    split_spec(v, ',').map_values(|s: Seq<char>| trim_spec(s))
}

/// An item of a weighted list: its weight text and the algorithm it names.
pub open spec fn weighted_item(s: Seq<char>) -> (Option<Seq<char>>, Option<CompressionType>) {
    match split_once_str_spec(s, weight_marker()) {
        Some((t, q)) => (Some(q), compression_of_name(t)),
        None => (None, compression_of_name(s)),
    }
}

/// The predicate "item `i` names a known algorithm".
pub open spec fn known_at(items: Seq<Seq<char>>) -> spec_fn(int) -> bool {
    |i: int| compression_of_name(items[i]) is Some
}

/// The first item that names a known algorithm, and that algorithm.
pub open spec fn first_known(items: Seq<Seq<char>>) -> Option<CompressionType> {
    match first_where(0, items.len() as int, known_at(items)) {
        Some(i) => compression_of_name(items[i]),
        None => None,
    }
}

/// What a header value, read as text, asks for.
pub open spec fn encode_choice_of_text(v: Seq<char>) -> EncodeChoiceSpec {
    if find_spec(v, weight_marker()) is Some {
        EncodeChoiceSpec::Weighted(header_items(v).map_values(|s: Seq<char>| weighted_item(s)))
    } else if v.len() > 0 {
        EncodeChoiceSpec::Chosen(first_known(header_items(v)))
    } else {
        EncodeChoiceSpec::Chosen(None)
    }
}

/// [`AcceptEncodingChoice`] over plain values.
pub enum EncodeChoiceSpec {
    Chosen(Option<CompressionType>),
    Weighted(Seq<(Option<Seq<char>>, Option<CompressionType>)>),
}

/// What an `Accept-Encoding` header value asks for: nothing when there is
/// no header or its value is not visible ASCII.
pub open spec fn encode_choice(header_value: Option<Seq<u8>>) -> EncodeChoiceSpec {
    match header_value {
        Some(v) => match header_value_text(v) {
            Some(t) => encode_choice_of_text(t),
            None => EncodeChoiceSpec::Chosen(None),
        },
        None => EncodeChoiceSpec::Chosen(None),
    }
}

/// The choice as plain values.
pub open spec fn choice_view(c: AcceptEncodingChoice) -> EncodeChoiceSpec {
    match c {
        AcceptEncodingChoice::Chosen(t) => EncodeChoiceSpec::Chosen(t),
        AcceptEncodingChoice::Weighted(v) => EncodeChoiceSpec::Weighted(
            v@.map_values(|x: (Option<String>, Option<CompressionType>)| (
                match x.0 {
                    Some(q) => Some(q@),
                    None => None,
                },
                x.1,
            )),
        ),
    }
}

/// The header value's bytes as plain values.
pub open spec fn opt_bytes(v: Option<&Vec<u8>>) -> Option<Seq<u8>> {
    match v {
        Some(b) => Some(b@),
        None => None,
    }
}

/// The algorithm a name stands for, if it is known (`gzip`, `br` or
/// `deflate`, in any ASCII case).
fn compression_from_chars(s: &Vec<char>) -> (r: Option<CompressionType>)
    ensures
        r == compression_of_name(s@),
{
    let t = string_of(s.as_slice());
    match CompressionType::from_str(t.as_str()) {
        Ok(c) => Some(c),
        Err(_) => None,
    }
}

/// Reads an `Accept-Encoding` header value. Without weights the result is
/// the first listed algorithm that is known; with weights, the listed items
/// with their weight texts, for the caller to pick the heaviest.
pub fn get_encode_type(header_value: Option<&Vec<u8>>) -> (r: AcceptEncodingChoice)
    ensures
        choice_view(r) == encode_choice(opt_bytes(header_value)),
{
    let hv = match header_value {
        Some(v) => v,
        None => {
            return AcceptEncodingChoice::Chosen(None);
        },
    };
    let text = match header_text(hv) {
        Some(t) => t,
        None => {
            return AcceptEncodingChoice::Chosen(None);
        },
    };
    let v = chars_of(text.as_str());
    let marker: Vec<char> = vec![';', 'q', '='];
    assert(marker@ =~= weight_marker());
    let parts = split(v.as_slice(), ',');
    let ghost items = header_items(v@);
    assert(encode_choice(opt_bytes(header_value)) == encode_choice_of_text(v@));
    if find_str(v.as_slice(), marker.as_slice()).is_some() {
        let mut out: Vec<(Option<String>, Option<CompressionType>)> = Vec::new();
        let mut i: usize = 0;
        while i < parts.len()
            invariant
                i <= parts@.len(),
                parts@.len() == split_spec(v@, ',').len(),
                forall|k: int| 0 <= k < parts@.len() ==> #[trigger] parts@[k]@ == split_spec(v@, ',')[k],
                marker@ == weight_marker(),
                items == header_items(v@),
                out@.len() == i,
                forall|k: int| 0 <= k < i ==> (
                    match #[trigger] out@[k].0 {
                        Some(q) => Some(q@),
                        None => None,
                    },
                    out@[k].1,
                ) == weighted_item(items[k]),
            decreases parts.len() - i,
        {
            let s = trim(parts[i].as_slice());
            assert(s@ == items[i as int]);
            match split_once_str(s.as_slice(), marker.as_slice()) {
                Some((t, q)) => {
                    let c = compression_from_chars(&t);
                    out.push((Some(string_of(q.as_slice())), c));
                },
                None => {
                    let c = compression_from_chars(&s);
                    out.push((None, c));
                },
            }
            i = i + 1;
        }
        let r = AcceptEncodingChoice::Weighted(out);
        proof {
            let a = choice_view(r);
            let b = encode_choice(opt_bytes(header_value));
            assert(b == EncodeChoiceSpec::Weighted(items.map_values(|s: Seq<char>| weighted_item(s))));
            if let (EncodeChoiceSpec::Weighted(x), EncodeChoiceSpec::Weighted(y)) = (a, b) {
                assert(x =~= y);
            }
        }
        r
    } else if v.len() > 0 {
        let ghost pr = known_at(items);
        let mut i: usize = 0;
        while i < parts.len()
            invariant
                i <= parts@.len(),
                parts@.len() == split_spec(v@, ',').len(),
                forall|k: int| 0 <= k < parts@.len() ==> #[trigger] parts@[k]@ == split_spec(v@, ',')[k],
                items == header_items(v@),
                pr == known_at(items),
                find_spec(v@, weight_marker()) is None,
                v@.len() > 0,
                encode_choice(opt_bytes(header_value)) == encode_choice_of_text(v@),
                first_where(0, items.len() as int, pr) == first_where(i as int, items.len() as int, pr),
            decreases parts.len() - i,
        {
            let s = trim(parts[i].as_slice());
            assert(s@ == items[i as int]);
            let c = compression_from_chars(&s);
            if c.is_some() {
                assert(pr(i as int));
                return AcceptEncodingChoice::Chosen(c);
            }
            i = i + 1;
        }
        AcceptEncodingChoice::Chosen(None)
    } else {
        AcceptEncodingChoice::Chosen(None)
    }
}

/// The header a request names the encodings it accepts in.
pub const ACCEPT_ENCODING: &'static str = "accept-encoding";

/// The header a response names its encoding in.
pub const CONTENT_ENCODING: &'static str = "content-encoding";

/// The header a response gives its length in.
pub const CONTENT_LENGTH: &'static str = "content-length";

/// The three header names above are names in lower case.
proof fn lemma_encoding_header_names()
    ensures
        header_name_of(ACCEPT_ENCODING@) == Some(ACCEPT_ENCODING@),
        header_name_of(CONTENT_ENCODING@) == Some(CONTENT_ENCODING@),
        header_name_of(CONTENT_LENGTH@) == Some(CONTENT_LENGTH@),
        CONTENT_ENCODING@ != CONTENT_LENGTH@,
{
    reveal_strlit("accept-encoding");
    reveal_strlit("content-encoding");
    reveal_strlit("content-length");
    lemma_lower_dash_name(ACCEPT_ENCODING@);
    lemma_lower_dash_name(CONTENT_ENCODING@);
    lemma_lower_dash_name(CONTENT_LENGTH@);
    assert(CONTENT_ENCODING@[8] != CONTENT_LENGTH@[8]);
}

/// What becomes of a response body: it stays, or it is decoded from the
/// encoding it has and encoded into the one wanted (either step may be
/// absent).
#[derive(Debug, Clone, Copy, PartialEq, Eq, Structural)]
pub enum BodyRecoding {
    Keep,
    Recode { decode: Option<CompressionType>, encode: Option<CompressionType> },
}

/// The recoding for a body in `current` when `desired` is wanted.
pub open spec fn recoding_spec(current: Option<CompressionType>, desired: Option<CompressionType>) -> BodyRecoding {
    if current == desired {
        BodyRecoding::Keep
    } else {
        BodyRecoding::Recode { decode: current, encode: desired }
    }
}

/// How the body of a response in encoding `current` is to be recoded when
/// the client wants `desired`.
pub fn body_recoding(current: Option<CompressionType>, desired: Option<CompressionType>) -> (r: BodyRecoding)
    ensures
        r == recoding_spec(current, desired),
{
    if current == desired {
        BodyRecoding::Keep
    } else {
        BodyRecoding::Recode { decode: current, encode: desired }
    }
}

impl SgFilterCompression {
    /// Asks the backend for the encoding the client wants, when it wants
    /// one: the request's `accept-encoding` becomes that encoding's name.
    pub fn req_filter(&self, _id: &str, ctx: SgRoutePluginContext, desired: Option<CompressionType>) -> (r: Result<(bool, SgRoutePluginContext), SgError>)
        ensures
            match desired {
                None => r == Ok::<(bool, SgRoutePluginContext), SgError>((true, ctx)),
                Some(t) => r matches Ok((cont, c)) && {
                    &&& cont
                    &&& values_of(c.request_of().headers.current()@, ACCEPT_ENCODING@) == seq![compression_name_bytes(t)]
                    &&& forall|k: Seq<char>| k != ACCEPT_ENCODING@ ==> #[trigger] values_of(c.request_of().headers.current()@, k) == values_of(ctx.request_of().headers.current()@, k)
                    &&& c.request_of().headers.raw_value() == ctx.request_of().headers.raw_value()
                    &&& c.request_of().method == ctx.request_of().method
                    &&& c.request_of().uri == ctx.request_of().uri
                    &&& c.response_of() == ctx.response_of()
                    &&& c.action_of() == ctx.action_of()
                    &&& same_but_messages(c, ctx)
                },
            },
    {
        let mut ctx = ctx;
        if let Some(t) = desired {
            proof {
                lemma_encoding_header_names();
                lemma_name_value_ok(t);
            }
            let _ = ctx.request_mut().set_header(ACCEPT_ENCODING, t.as_str());
        }
        Ok((true, ctx))
    }

    /// Names the encoding the client wants on the response, when it differs
    /// from the response's own: `content-encoding` becomes the wanted
    /// encoding's name, and `content-length` is removed from a modified
    /// header map, as the body is to be recoded (see [`body_recoding`]).
    pub fn resp_filter(&self, _id: &str, ctx: SgRoutePluginContext, current: Option<CompressionType>, desired: Option<CompressionType>) -> (r: Result<(bool, SgRoutePluginContext), SgError>)
        ensures
            current == desired ==> r == Ok::<(bool, SgRoutePluginContext), SgError>((true, ctx)),
            current != desired ==> (r matches Ok((cont, c)) && {
                let h0 = ctx.response_of().headers.current()@;
                let h = c.response_of().headers.current()@;
                &&& cont
                &&& match desired {
                    Some(t) => values_of(h, CONTENT_ENCODING@) == seq![compression_name_bytes(t)],
                    None => values_of(h, CONTENT_ENCODING@) == values_of(h0, CONTENT_ENCODING@),
                }
                &&& (c.response_of().headers.modified_value() is Some ==> values_of(h, CONTENT_LENGTH@) == Seq::<Seq<u8>>::empty())
                &&& (c.response_of().headers.modified_value() is None ==> c.response_of().headers == ctx.response_of().headers)
                &&& forall|k: Seq<char>| k != CONTENT_ENCODING@ && k != CONTENT_LENGTH@ ==> #[trigger] values_of(h, k) == values_of(h0, k)
                &&& c.response_of().headers.raw_value() == ctx.response_of().headers.raw_value()
                &&& c.response_of().status_code == ctx.response_of().status_code
                &&& c.response_of().body == ctx.response_of().body
                &&& c.request_of() == ctx.request_of()
                &&& c.action_of() == ctx.action_of()
                &&& same_but_messages(c, ctx)
            }),
    {
        if current == desired {
            return Ok((true, ctx));
        }
        let mut ctx = ctx;
        proof {
            lemma_encoding_header_names();
        }
        let ghost h0 = ctx.response_of().headers;
        if let Some(t) = desired {
            proof {
                lemma_name_value_ok(t);
            }
            let _ = ctx.response_mut().set_header(CONTENT_ENCODING, t.as_str());
        }
        let ghost h1 = ctx.response_of().headers;
        let _ = ctx.response_mut().remove_header(CONTENT_LENGTH);
        proof {
            let h = ctx.response_of().headers;
            if h.modified_value() is None {
                assert(h1.modified_value() is None);
            }
        }
        Ok((true, ctx))
    }
}

/// An encoding's name is a valid header value, and its UTF-8 bytes are
/// those of [`compression_name_bytes`].
proof fn lemma_name_value_ok(t: CompressionType)
    ensures
        header_value_ok(compression_name(t)),
        compression_name(t).len() > 0,
        encode_utf8(compression_name(t)) == compression_name_bytes(t),
{
    let n = compression_name(t);
    assert(is_ascii_chars(n));
    is_ascii_chars_encode_utf8(n);
    assert(encode_utf8(n) =~= compression_name_bytes(t));
}

/// The encodings a body is wrapped in, innermost first.
pub open spec fn layers_of(c: Option<CompressionType>) -> Seq<CompressionType> {
    match c {
        Some(x) => seq![x],
        None => Seq::empty(),
    }
}

/// The encodings of a body after a recoding: decoding takes off the
/// outermost encoding, which must be the one decoded (else the body cannot
/// be decoded: `None`), and encoding adds one.
pub open spec fn layers_after(layers: Seq<CompressionType>, rec: BodyRecoding) -> Option<Seq<CompressionType>> {
    match rec {
        BodyRecoding::Keep => Some(layers),
        BodyRecoding::Recode { decode, encode } => {
            let decoded = match decode {
                None => Some(layers),
                Some(d) => if layers.len() > 0 && layers.last() == d {
                    Some(layers.drop_last())
                } else {
                    None
                },
            };
            match decoded {
                None => None,
                Some(l) => Some(match encode {
                    None => l,
                    Some(e) => l.push(e),
                }),
            }
        },
    }
}

/// The recoding turns a body in the encoding the response has into the
/// encoding wanted, and nothing else: applied to a body encoded as
/// `current`, it can decode it and leaves it encoded exactly as `desired`
/// (plain when `desired` is none). A body already as wanted is kept.
pub proof fn lemma_recoding_reaches_desired(current: Option<CompressionType>, desired: Option<CompressionType>)
    ensures
        layers_after(layers_of(current), recoding_spec(current, desired)) == Some(layers_of(desired)),
        current == desired <==> recoding_spec(current, desired) is Keep,
{
    if current != desired {
        match current {
            Some(c) => {
                assert(layers_of(current).drop_last() =~= Seq::<CompressionType>::empty());
            },
            None => {},
        }
        match desired {
            Some(d) => {
                assert(Seq::<CompressionType>::empty().push(d) =~= seq![d]);
            },
            None => {},
        }
    }
}

} // verus!
