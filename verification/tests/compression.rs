use spacegate_kernel::plugin_layers::comde::compress_type::CompressionType;
use spacegate_kernel::plugin_layers::comde::content_encoding::ContentEncodingType;
use spacegate_kernel::plugins::context::{SgCtxRequest, SgHttpVersion, SgRoutePluginContext};
use spacegate_kernel::plugins::filters::compression::{body_recoding, get_encode_type, AcceptEncodingChoice, BodyRecoding, SgFilterCompression};

/// Picks the heaviest weighted item, the last among equals, an item naming
/// no known algorithm counting below every known one.
fn pick(items: Vec<(Option<String>, Option<CompressionType>)>) -> Option<CompressionType> {
    items
        .into_iter()
        .map(|(q, t)| (q.map(|q| q.parse::<f32>().unwrap_or(1f32)).unwrap_or(1f32), t))
        .max_by(|(q1, t1), (q2, t2)| {
            if t1.is_none() && t2.is_none() {
                std::cmp::Ordering::Equal
            } else if t1.is_none() && t2.is_some() {
                std::cmp::Ordering::Less
            } else if t1.is_some() && t2.is_none() {
                std::cmp::Ordering::Greater
            } else {
                q1.total_cmp(q2)
            }
        })
        .and_then(|x| x.1)
}

fn encode_type(v: Option<&str>) -> Option<CompressionType> {
    let bytes = v.map(|s| s.as_bytes().to_vec());
    match get_encode_type(bytes.as_ref()) {
        AcceptEncodingChoice::Chosen(t) => t,
        AcceptEncodingChoice::Weighted(items) => pick(items),
    }
}

#[test]
fn test_get_encode_type() {
    assert_eq!(encode_type(None), None);
    assert_eq!(encode_type(Some("identity")), None);
    assert_eq!(encode_type(Some("*")), None);
    assert_eq!(encode_type(Some("gzip, deflate, br")), Some(CompressionType::Gzip));
    assert_eq!(encode_type(Some("br;q=0.2, gzip;q=0.8, *;q=0.1")), Some(CompressionType::Gzip));
}

#[test]
fn encode_type_choices() {
    assert!(matches!(get_encode_type(None), AcceptEncodingChoice::Chosen(None)));
    let v = b"identity, DEFLATE".to_vec();
    assert!(matches!(get_encode_type(Some(&v)), AcceptEncodingChoice::Chosen(Some(CompressionType::Deflate))));
    let v = b"".to_vec();
    assert!(matches!(get_encode_type(Some(&v)), AcceptEncodingChoice::Chosen(None)));
    let v = vec![0xffu8, b'g'];
    assert!(matches!(get_encode_type(Some(&v)), AcceptEncodingChoice::Chosen(None)));
    let v = b"br;q=0.2, gzip".to_vec();
    match get_encode_type(Some(&v)) {
        AcceptEncodingChoice::Weighted(items) => {
            assert_eq!(items.len(), 2);
            assert_eq!(items[0], (Some("0.2".to_string()), Some(CompressionType::Br)));
            assert_eq!(items[1], (None, Some(CompressionType::Gzip)));
        }
        _ => panic!("weighted expected"),
    }
}

#[test]
fn compression_names() {
    assert_eq!(CompressionType::default(), CompressionType::Gzip);
    assert_eq!(CompressionType::Deflate.as_str(), "deflate");
    assert_eq!(CompressionType::Br.as_bytes(), b"br");
    assert_eq!(CompressionType::from_str("GZip"), Ok(CompressionType::Gzip));
    assert_eq!(CompressionType::from_str("zip"), Err(()));
    assert_eq!(CompressionType::try_from(b"BR".as_slice()), Ok(CompressionType::Br));
    assert_eq!(CompressionType::try_from(b"lz4".as_slice()), Err(()));
    assert_eq!(ContentEncodingType::from_str("gzip"), Ok(ContentEncodingType::Gzip));
    assert_eq!(ContentEncodingType::from_str("GZIP"), Err(()));
    assert_eq!(ContentEncodingType::try_from(b"deflate".as_slice()), Ok(ContentEncodingType::Deflate));
    assert_eq!(ContentEncodingType::Br.as_str(), "br");
}

fn header<'a>(hs: &'a [(String, Vec<u8>)], name: &str) -> Vec<&'a [u8]> {
    hs.iter().filter(|(n, _)| n == name).map(|(_, v)| v.as_slice()).collect()
}

#[test]
fn compression_filter_headers() {
    let filter = SgFilterCompression {};
    let req = SgCtxRequest::new(
        "GET".to_string(),
        "http://a.b/".to_string(),
        SgHttpVersion::Http11,
        vec![("accept-encoding".to_string(), b"br;q=0.2, gzip;q=0.8".to_vec())],
        vec![],
        "1.2.3.4:5".to_string(),
    );
    let ctx = SgRoutePluginContext::new_http("id".to_string(), req, "gw".to_string(), None);
    let desired = encode_type(Some("br;q=0.2, gzip;q=0.8"));
    assert_eq!(desired, Some(CompressionType::Gzip));
    let (go_on, mut ctx) = filter.req_filter("", ctx, desired).unwrap();
    assert!(go_on);
    assert_eq!(header(ctx.request.get_headers(), "accept-encoding"), vec![b"gzip".as_slice()]);
    assert_eq!(ctx.request.get_headers_raw()[0].1, b"br;q=0.2, gzip;q=0.8".to_vec());
    ctx.resp(200, vec![("content-length".to_string(), b"10".to_vec()), ("x-a".to_string(), b"1".to_vec())], b"0123456789".to_vec());
    // the response is plain and the client wants gzip
    let (_, ctx) = filter.resp_filter("", ctx, None, desired).unwrap();
    assert_eq!(header(ctx.response.get_headers(), "content-encoding"), vec![b"gzip".as_slice()]);
    assert!(header(ctx.response.get_headers(), "content-length").is_empty());
    assert_eq!(header(ctx.response.get_headers(), "x-a"), vec![b"1".as_slice()]);
    assert_eq!(body_recoding(None, desired), BodyRecoding::Recode { decode: None, encode: Some(CompressionType::Gzip) });
    // already in the wanted encoding: nothing changes
    let (_, ctx2) = filter.resp_filter("", ctx, Some(CompressionType::Gzip), desired).unwrap();
    assert_eq!(header(ctx2.response.get_headers(), "content-encoding"), vec![b"gzip".as_slice()]);
    assert_eq!(body_recoding(Some(CompressionType::Br), Some(CompressionType::Br)), BodyRecoding::Keep);
    assert_eq!(body_recoding(Some(CompressionType::Br), None), BodyRecoding::Recode { decode: Some(CompressionType::Br), encode: None });
    // no wanted encoding: the request is left alone
    let req = SgCtxRequest::new("GET".to_string(), "http://a.b/".to_string(), SgHttpVersion::Http11, vec![], vec![], "".to_string());
    let ctx = SgRoutePluginContext::new_http("id".to_string(), req, "gw".to_string(), None);
    let (_, ctx) = filter.req_filter("", ctx, None).unwrap();
    assert!(!ctx.request.headers.is_modified());
}
