use spacegate_kernel::config::gateway_dto::SgProtocol;
use spacegate_kernel::error::SgError;
use spacegate_kernel::instance::{SgBackendInst, SgHttpRouteMatchInst, SgHttpRouteRuleInst};
use spacegate_kernel::plugins::context::{
    AvailableBackendInst, ChosenHttpRouteRuleInst, MaybeModified, SGIdentInfo, SgCtxRequest, SgCtxResponse, SgHttpVersion, SgRouteFilterRequestAction, SgRoutePluginContext,
};
use spacegate_kernel::plugins::filters::retry::choose_backend_url;
use spacegate_kernel::plugins::filters::SgPluginFilterKind;

fn backend(name: &str, ns: Option<&str>, port: u16, protocol: Option<SgProtocol>) -> AvailableBackendInst {
    AvailableBackendInst {
        name_or_host: name.to_string(),
        namespace: ns.map(|n| n.to_string()),
        port,
        timeout_ms: None,
        protocol,
        weight: None,
    }
}

#[test]
fn maybe_modified_get_after_set() {
    let mut m = MaybeModified::new(1u32);
    assert!(!m.is_modified());
    assert_eq!(*m.get(), 1);
    m.set(2);
    assert_eq!(*m.get(), 2);
    assert_eq!(*m.get_raw(), 1);
    assert!(m.is_modified());
    assert_eq!(m.replace(3), Some(2));
    *m.get_modified_mut().unwrap() = 4;
    assert_eq!(*m.get(), 4);
    m.reset(9);
    assert!(!m.is_modified());
    assert_eq!(*m.get(), 9);
    assert!(m.get_modified_mut().is_none());
    *m.get_mut() += 1;
    assert_eq!(*m.get(), 10);
    assert_eq!(*m.get_raw(), 9);
}

#[test]
fn base_urls() {
    assert_eq!(backend("iam", None, 80, None).get_base_url(), "http://iam");
    assert_eq!(backend("iam", None, 0, Some(SgProtocol::Http)).get_base_url(), "http://iam");
    assert_eq!(backend("iam", Some("ns1"), 443, Some(SgProtocol::Https)).get_base_url(), "https://iam.ns1");
    assert_eq!(backend("iam", None, 8080, Some(SgProtocol::Https)).get_base_url(), "https://iam:8080");
    assert_eq!(backend("iam", None, 443, None).get_base_url(), "http://iam:443");
    assert_eq!(backend("h", None, 7, Some(SgProtocol::Ws)).get_base_url(), "ws://h:7");
    assert_eq!(backend("h", None, 0, Some(SgProtocol::Wss)).get_base_url(), "wss://h:0");
    let cfg = SgBackendInst { name_or_host: "svc".to_string(), port: 9000, weight: Some(3), ..Default::default() };
    let b = AvailableBackendInst::clone_from(&cfg);
    assert_eq!(b.weight, Some(3));
    assert_eq!(b.get_base_url(), "http://svc:9000");
}

fn ctx(rule: Option<ChosenHttpRouteRuleInst>) -> SgRoutePluginContext {
    let req = SgCtxRequest::new("GET".to_string(), "http://sg.idealworld.group/iam".to_string(), SgHttpVersion::Http11, vec![], vec![], "127.0.0.1:8080".to_string());
    SgRoutePluginContext::new_http("req-1".to_string(), req, "gw".to_string(), rule)
}

#[test]
fn context_ext_read_after_write() {
    let mut c = ctx(None);
    assert_eq!(c.get_request_kind(), SgPluginFilterKind::Http);
    assert_eq!(c.get_request_id(), "req-1");
    assert_eq!(c.get_ext("k"), None);
    c.set_ext("k", "v1");
    c.set_ext("j", "w");
    assert_eq!(c.get_ext("k"), Some("v1".to_string()));
    c.set_ext("k", "v2");
    assert_eq!(c.get_ext("k"), Some("v2".to_string()));
    c.remove_ext("k");
    assert_eq!(c.get_ext("k"), None);
    assert_eq!(c.get_ext("j"), Some("w".to_string()));
    assert_eq!(c.get_gateway_name(), "gw");
    assert!(c.get_cert_info().is_none());
    c.set_cert_info(SGIdentInfo { id: "u1".to_string(), name: None, roles: vec![] });
    assert_eq!(c.get_cert_info().unwrap().id, "u1");
}

#[test]
fn context_action_and_timeout() {
    let rule = SgHttpRouteRuleInst {
        matches: Some(vec![SgHttpRouteMatchInst::default()]),
        backends: Some(vec![SgBackendInst { name_or_host: "b1".to_string(), timeout_ms: Some(5), ..Default::default() }]),
        timeout_ms: Some(50),
    };
    let chosen = ChosenHttpRouteRuleInst::clone_from(&rule, rule.matches.as_ref().unwrap().first());
    let mut c = ctx(Some(chosen));
    assert_eq!(c.get_timeout_ms(), Some(50));
    assert!(c.get_rule_matched().is_some());
    c.set_chose_backend(&rule.backends.as_ref().unwrap()[0]);
    assert_eq!(c.get_chose_backend_name(), Some("b1".to_string()));
    assert_eq!(c.get_timeout_ms(), Some(5));
    assert_eq!(c.get_action(), SgRouteFilterRequestAction::Proceed);
    c.set_action(SgRouteFilterRequestAction::Proceed);
    assert_eq!(c.get_chose_backend_name(), Some("b1".to_string()));
    c.set_action(SgRouteFilterRequestAction::Redirect);
    assert_eq!(c.get_chose_backend_name(), None);
    assert_eq!(c.get_timeout_ms(), Some(50));
    assert!(!c.is_resp_error());
    c.resp_from_error(SgError::InternalError);
    assert!(c.is_resp_error());
    assert_eq!(*c.response.status_code.get(), 502);
    c.resp(200, vec![], b"ok".to_vec());
    assert!(!c.is_resp_error());
    assert_eq!(c.response.body, b"ok".to_vec());
}

#[test]
fn retry_target() {
    // without a chosen backend, the request's URI
    let c = ctx(None);
    assert_eq!(choose_backend_url(&c), "http://sg.idealworld.group/iam");
    // with one available backend, its base URL
    let rule = SgHttpRouteRuleInst {
        matches: None,
        backends: Some(vec![SgBackendInst { name_or_host: "b1".to_string(), port: 81, ..Default::default() }]),
        timeout_ms: None,
    };
    let mut c = ctx(Some(ChosenHttpRouteRuleInst::clone_from(&rule, None)));
    c.set_chose_backend(&rule.backends.as_ref().unwrap()[0]);
    assert_eq!(choose_backend_url(&c), "http://b1:81");
    // with several, one of positive weight
    let rule = SgHttpRouteRuleInst {
        matches: None,
        backends: Some(vec![
            SgBackendInst { name_or_host: "zero".to_string(), weight: Some(0), ..Default::default() },
            SgBackendInst { name_or_host: "some".to_string(), weight: Some(1), ..Default::default() },
        ]),
        timeout_ms: None,
    };
    let mut c = ctx(Some(ChosenHttpRouteRuleInst::clone_from(&rule, None)));
    c.set_chose_backend(&rule.backends.as_ref().unwrap()[0]);
    for _ in 0..20 {
        assert_eq!(choose_backend_url(&c), "http://some");
    }
}

fn value(hs: &[(String, Vec<u8>)], name: &str) -> Vec<Vec<u8>> {
    hs.iter().filter(|(n, _)| n == name).map(|(_, v)| v.clone()).collect()
}

#[test]
fn request_accessors() {
    let mut req = SgCtxRequest::new(
        "GET".to_string(),
        "http://a/b".to_string(),
        SgHttpVersion::Http11,
        vec![("x-a".to_string(), b"1".to_vec())],
        b"body".to_vec(),
        "10.0.0.1:80".to_string(),
    );
    req.set_method("POST".to_string());
    assert_eq!(req.get_method(), "POST");
    assert_eq!(req.get_method_raw(), "GET");
    req.set_uri("http://c/d".to_string());
    assert_eq!(req.get_uri(), "http://c/d");
    assert_eq!(req.get_uri_raw(), "http://a/b");
    req.set_version(SgHttpVersion::Http2);
    assert_eq!(req.get_version(), SgHttpVersion::Http2);
    assert_eq!(req.get_version_raw(), SgHttpVersion::Http11);
    assert_eq!(req.get_remote_addr(), "10.0.0.1:80");
    // setting a header copies the map first; the raw map stays
    assert_eq!(req.set_header_str("X-B", "2"), Ok(()));
    assert_eq!(value(req.get_headers(), "x-b"), vec![b"2".to_vec()]);
    assert_eq!(value(req.get_headers(), "x-a"), vec![b"1".to_vec()]);
    assert_eq!(req.get_headers_raw().len(), 1);
    assert_eq!(req.set_header_str("X-B", "3"), Ok(()));
    assert_eq!(value(req.get_headers(), "x-b"), vec![b"3".to_vec()]);
    assert_eq!(req.set_header_str("bad key", "v"), Err(SgError::FormatError));
    assert_eq!(req.set_header_str("x-c", "bad\nvalue"), Err(SgError::FormatError));
    assert_eq!(req.set_header("x-d", "4"), Ok(()));
    assert_eq!(value(req.get_headers(), "x-d"), vec![b"4".to_vec()]);
    req.get_headers_mut().clear();
    assert!(req.get_headers().is_empty());
    assert_eq!(req.get_headers_raw().len(), 1);
    req.set_headers(vec![("x-e".to_string(), b"5".to_vec())]);
    assert_eq!(value(req.get_headers(), "x-e"), vec![b"5".to_vec()]);
    // body
    assert_eq!(req.dump_body(), b"body".to_vec());
    assert_eq!(req.body, b"body".to_vec());
    assert_eq!(req.replace_body(b"new".to_vec()), b"body".to_vec());
    assert_eq!(req.take_body(), b"new".to_vec());
    assert!(req.body.is_empty());
    req.set_body(b"x".to_vec());
    assert_eq!(req.body, b"x".to_vec());
}

#[test]
fn response_accessors() {
    let mut resp = SgCtxResponse::new();
    assert_eq!(resp.get_status_code(), 200);
    resp.set_status_code(404);
    assert_eq!(resp.get_status_code(), 404);
    assert_eq!(resp.get_status_code_raw(), 200);
    // removing from an unmodified map does nothing, even with a bad key
    assert_eq!(resp.remove_header_str("bad key"), Ok(()));
    assert!(!resp.headers.is_modified());
    assert_eq!(resp.set_header_str("X-A", "1"), Ok(()));
    assert_eq!(resp.set_header("x-b", "2"), Ok(()));
    assert_eq!(value(resp.get_headers(), "x-a"), vec![b"1".to_vec()]);
    assert_eq!(resp.remove_header_str("bad key"), Err(SgError::FormatError));
    assert_eq!(resp.remove_header_str("X-A"), Ok(()));
    assert!(value(resp.get_headers(), "x-a").is_empty());
    assert_eq!(resp.remove_header("x-b"), Ok(()));
    assert!(resp.get_headers().is_empty());
    assert!(resp.get_headers_raw().is_empty());
    resp.set_body(b"hello".to_vec());
    assert_eq!(resp.dump_body(), b"hello".to_vec());
    assert_eq!(resp.take_body(), b"hello".to_vec());
}

#[test]
fn build_response_parts() {
    let mut c = ctx(None);
    c.resp(201, vec![("x-a".to_string(), b"1".to_vec())], b"done".to_vec());
    let (status, fields, body) = c.build_response().unwrap();
    assert_eq!(status, 201);
    assert_eq!(fields, vec![("x-a".to_string(), "1".to_string())]);
    assert_eq!(body, b"done".to_vec());
    assert!(c.response.body.is_empty());
    // a value that is not visible ASCII
    c.resp(200, vec![("x-a".to_string(), vec![0xe6, 0x98])], vec![]);
    assert_eq!(c.build_response(), Err(SgError::BadRequest));
    // an invalid status
    c.resp(1000, vec![], b"b".to_vec());
    assert_eq!(c.build_response(), Err(SgError::InternalError));
    // an error in place of the backend response
    c.resp_from_error(SgError::Forbidden);
    assert_eq!(c.build_response(), Err(SgError::Forbidden));
}
