use spacegate_kernel::config::gateway_dto::{SgListener, SgProtocol};
use spacegate_kernel::error::SgError;
use spacegate_kernel::functions::http_route::match_listeners_hostname_and_port;
use spacegate_kernel::functions::http_route::process::{rebuild_uri, route_request, route_request_checked, RouteDecision};
use spacegate_kernel::instance::{SgBackendInst, SgHttpPathMatchInst, SgHttpPathMatchType, SgHttpQueryMatchInst, SgHttpQueryMatchType, SgHttpRouteInst, SgHttpRouteMatchInst, SgHttpRouteRuleInst, SgRequestParts};
use spacegate_kernel::plugin::filter::header_modifier::{SgFilerHeaderModifier, SgFilerHeaderModifierKind};
use spacegate_kernel::plugin::filter::redirect::SgFilerRedirect;
use spacegate_kernel::plugin::filter::SgRouteFilterContext;
use spacegate_kernel::plugins::context::{SgCtxRequest, SgHttpVersion, SgRouteFilterRequestAction, SgRoutePluginContext};
use spacegate_kernel::plugins::filters::inject::take_injected_target;
use spacegate_kernel::plugins::filters::limit::{LimitStore, SgFilterLimit};
use spacegate_kernel::plugins::filters::maintenance::{ip_net_of_text, MaintenanceAnswer, SgFilterMaintenance, SgIpAddr, SgIpNet, TimeOfDay, TimeRange};

fn listener(hostname: Option<&str>, port: u16) -> SgListener {
    SgListener { name: None, ip: None, port, protocol: SgProtocol::Http, tls: None, hostname: hostname.map(|h| h.to_string()) }
}

fn request(host: &str, headers: Vec<(&str, &str)>) -> SgRequestParts {
    SgRequestParts {
        method: "GET".to_string(),
        host: Some(host.to_string()),
        path: "/".to_string(),
        query: None,
        headers: headers.into_iter().map(|(k, v)| (k.to_string(), v.as_bytes().to_vec())).collect(),
    }
}

#[test]
fn listeners() {
    let ls = vec![listener(Some("*.idealworld.group"), 80), listener(Some("a.com"), 8080)];
    assert!(match_listeners_hostname_and_port(Some("sg.idealworld.group"), 80, &ls));
    assert!(!match_listeners_hostname_and_port(Some("idealworld.group"), 80, &ls));
    assert!(!match_listeners_hostname_and_port(Some("a.com"), 80, &ls));
    assert!(match_listeners_hostname_and_port(Some("a.com"), 8080, &ls));
    assert!(match_listeners_hostname_and_port(None, 1, &ls));
    assert!(match_listeners_hostname_and_port(Some("x"), 9, &[listener(None, 9)]));
}

#[test]
fn route_decisions() {
    let routes = vec![SgHttpRouteInst {
        hostnames: None,
        rules: Some(vec![SgHttpRouteRuleInst {
            matches: None,
            backends: Some(vec![SgBackendInst { name_or_host: "b".to_string(), ..Default::default() }]),
            timeout_ms: None,
        }]),
    }];
    let ls = vec![listener(None, 80)];
    match route_request(&request("h", vec![]), 80, &ls, &routes, true) {
        RouteDecision::Http { route, rule, matched, backend } => {
            assert_eq!(route, 0);
            assert_eq!(rule, Some((0, 0)));
            assert_eq!(matched, None);
            assert_eq!(backend, Some(0));
        }
        d => panic!("unexpected {d:?}"),
    }
    assert!(matches!(route_request(&request("h", vec![]), 81, &ls, &routes, true), RouteDecision::NotFound));
    assert!(matches!(route_request(&request("h", vec![]), 80, &ls, &[], true), RouteDecision::NotFound));
    assert!(matches!(
        route_request(&request("h", vec![("upgrade", "WebSocket")]), 80, &ls, &routes, true),
        RouteDecision::Websocket { route: 0, rule: (0, 0), matched: None, backend: 0 }
    ));
    assert!(matches!(route_request(&request("h", vec![("upgrade", "websocket")]), 80, &ls, &routes, false), RouteDecision::WebsocketRefused));
    let no_backend = vec![SgHttpRouteInst { hostnames: None, rules: None }];
    assert!(matches!(route_request(&request("h", vec![("upgrade", "websocket")]), 80, &ls, &no_backend, true), RouteDecision::WebsocketRefused));
}

#[test]
fn route_decisions_checked() {
    let ls = vec![listener(None, 80)];
    let backend = |w: Option<u16>| SgBackendInst { name_or_host: "b".to_string(), weight: w, ..Default::default() };
    let rule = |matches: Option<Vec<SgHttpRouteMatchInst>>, backends: Vec<SgBackendInst>| SgHttpRouteInst {
        hostnames: None,
        rules: Some(vec![SgHttpRouteRuleInst { matches, backends: Some(backends), timeout_ms: None }]),
    };
    // a routable request gets the same decision as route_request
    let routes = vec![rule(None, vec![backend(None), backend(Some(5))])];
    match route_request_checked(&request("h", vec![]), 80, &ls, &routes, true) {
        Some(RouteDecision::Http { backend: Some(k), .. }) => assert_eq!(k, 1),
        d => panic!("unexpected {d:?}"),
    }
    // weights all zero: no backend can be chosen
    let routes = vec![rule(None, vec![backend(None), backend(Some(0))])];
    assert!(route_request_checked(&request("h", vec![]), 80, &ls, &routes, true).is_none());
    // weights that overflow u16
    let routes = vec![rule(None, vec![backend(Some(40000)), backend(Some(40000))])];
    assert!(route_request_checked(&request("h", vec![]), 80, &ls, &routes, true).is_none());
    // a regular path condition without its regex
    let bad = SgHttpRouteMatchInst {
        path: Some(SgHttpPathMatchInst { kind: SgHttpPathMatchType::Regular, value: "^/a".to_string(), regular: None }),
        ..Default::default()
    };
    let routes = vec![rule(Some(vec![bad]), vec![backend(None)])];
    assert!(route_request_checked(&request("h", vec![]), 80, &ls, &routes, true).is_none());
    // an Upgrade header that is not text
    let routes = vec![rule(None, vec![backend(None)])];
    let mut req = request("h", vec![]);
    req.headers.push(("upgrade".to_string(), vec![0xff]));
    assert!(route_request_checked(&req, 80, &ls, &routes, true).is_none());
    // a query that does not decode, checked by a query condition
    let q = SgHttpRouteMatchInst {
        query: Some(vec![SgHttpQueryMatchInst { kind: SgHttpQueryMatchType::Exact, name: "a".to_string(), value: "b".to_string(), regular: None }]),
        ..Default::default()
    };
    let routes = vec![rule(Some(vec![q]), vec![backend(None)])];
    let mut req = request("h", vec![]);
    req.query = Some("a=%ff".to_string());
    assert!(route_request_checked(&req, 80, &ls, &routes, true).is_none());
    // a request no listener takes is not found, whatever its query
    assert!(matches!(route_request_checked(&req, 81, &ls, &routes, true), Some(RouteDecision::NotFound)));
    req.query = Some("a=b".to_string());
    assert!(matches!(route_request_checked(&req, 80, &ls, &routes, true), Some(RouteDecision::Http { matched: Some((0, 0, 0)), .. })));
}

#[test]
fn uri_rebuild() {
    assert_eq!(rebuild_uri("https", &b"sg.idealworld.group".to_vec(), "/iam?x=1").unwrap(), "https://sg.idealworld.group/iam?x=1");
    assert_eq!(rebuild_uri("http", &vec![0xc3, 0xa9], "/"), Err(SgError::BadRequest));
    assert_eq!(rebuild_uri("http", &b"bad host".to_vec(), "/"), Err(SgError::BadRequest));
}

fn filter_ctx(headers: Vec<(&str, &[u8])>) -> SgRouteFilterContext {
    SgRouteFilterContext {
        method: "GET".to_string(),
        uri: "http://h/".to_string(),
        req_headers: headers.into_iter().map(|(k, v)| (k.to_string(), v.to_vec())).collect(),
        resp_headers: None,
        resp_status_code: None,
        ext: vec![],
        inner_body: None,
        body_size_hint: Some(10),
    }
}

fn values(hs: &[(String, Vec<u8>)], n: &str) -> Vec<Vec<u8>> {
    hs.iter().filter(|(k, _)| k == n).map(|(_, v)| v.clone()).collect()
}

#[test]
fn header_modifier() {
    let m = SgFilerHeaderModifier {
        kind: SgFilerHeaderModifierKind::Request,
        sets: Some(vec![("X-Test1".to_string(), "test1".to_string()), ("X-Test2".to_string(), "test2".to_string())]),
        remove: Some(vec!["X-1".to_string(), "X-2".to_string(), "not a name".to_string()]),
    };
    let mut c = filter_ctx(vec![("x-test1", b"Hi"), ("x-1", b"Hi"), ("x-3", b"keep")]);
    assert_eq!(m.req_filter(&mut c), Ok(true));
    assert_eq!(values(&c.req_headers, "x-test1"), vec![b"test1".to_vec()]);
    assert_eq!(values(&c.req_headers, "x-test2"), vec![b"test2".to_vec()]);
    assert!(values(&c.req_headers, "x-1").is_empty());
    assert_eq!(values(&c.req_headers, "x-3"), vec![b"keep".to_vec()]);
    assert_eq!(c.req_headers.len(), 3);
    // a response modifier does nothing to requests, and nothing without a response
    let r = SgFilerHeaderModifier { kind: SgFilerHeaderModifierKind::Response, ..m.clone() };
    assert_eq!(r.req_filter(&mut c), Ok(true));
    assert_eq!(r.resp_filter(&mut c), Ok(true));
    assert!(c.resp_headers.is_none());
    c.resp_headers = Some(vec![("x-1".to_string(), b"a".to_vec())]);
    assert_eq!(r.resp_filter(&mut c), Ok(true));
    assert_eq!(c.resp_headers.as_ref().unwrap().len(), 2);
    // an invalid name or value is a format error
    let bad = SgFilerHeaderModifier { kind: SgFilerHeaderModifierKind::Request, sets: Some(vec![("bad name".to_string(), "v".to_string())]), remove: None };
    assert_eq!(bad.req_filter(&mut c), Err(SgError::FormatError));
    let bad = SgFilerHeaderModifier { kind: SgFilerHeaderModifierKind::Request, sets: Some(vec![("n".to_string(), "a\nb".to_string())]), remove: None };
    assert_eq!(bad.req_filter(&mut c), Err(SgError::FormatError));
    assert_eq!(c.body_size(), 10);
    c.set_body(vec![1, 2, 3]);
    assert_eq!(c.body_size(), 3);
    assert_eq!(c.get_body(), Some(&vec![1, 2, 3]));
}

#[test]
fn redirect() {
    let r = SgFilerRedirect {
        method: Some("PUT".to_string()),
        headers: Some(vec![("X-A".to_string(), "1".to_string())]),
        uri: Some("http://other.host/p?q=1".to_string()),
        status_code: Some(307),
    };
    let mut c = filter_ctx(vec![]);
    assert_eq!(r.req_filter(&mut c), Ok(true));
    assert_eq!(c.method, "PUT");
    assert_eq!(c.uri, "http://other.host/p?q=1");
    assert_eq!(values(&c.req_headers, "x-a"), vec![b"1".to_vec()]);
    assert_eq!(r.resp_filter(&mut c), Ok(true));
    assert_eq!(c.resp_status_code, Some(307));
    let bad = SgFilerRedirect { method: Some("P T".to_string()), headers: None, uri: None, status_code: Some(1000) };
    assert_eq!(bad.req_filter(&mut c), Err(SgError::FormatError));
    assert_eq!(bad.resp_filter(&mut c), Err(SgError::FormatError));
}

fn tod(h: u32, m: u32, s: u32) -> TimeOfDay {
    TimeOfDay { secs: h * 3600 + m * 60 + s, frac: 0 }
}

fn ipv4(a: u8, b: u8, c: u8, d: u8) -> SgIpAddr {
    SgIpAddr { is_v6: false, addr: u32::from_be_bytes([a, b, c, d]) as u128 }
}

fn net4(a: u8, b: u8, c: u8, d: u8, prefix_len: u8) -> SgIpNet {
    SgIpNet { is_v6: false, addr: u32::from_be_bytes([a, b, c, d]) as u128, prefix_len }
}

fn ctx() -> SgRoutePluginContext {
    SgRoutePluginContext::new_http("r".to_string(), SgCtxRequest::new("POST".to_string(), "http://sg.idealworld.group".to_string(), SgHttpVersion::Http11, vec![], vec![], "".to_string()), String::new(), None)
}

#[test]
fn test_config() {
    let now = tod(12, 0, 0);
    let mut maintenance = SgFilterMaintenance {
        enabled_time_range: Some(vec![
            TimeRange { start: tod(10, 0, 0), end: tod(14, 30, 0) },
            TimeRange { start: tod(23, 0, 0), end: tod(1, 0, 0) },
        ]),
        exclude_ip_range: Some(vec!["192.168.1.0/24".to_string(), "10.0.0.0/16".to_string(), "172.30.30.30".to_string()]),
        ..Default::default()
    };
    maintenance.init();
    assert_eq!(maintenance.exclude_ip_net, Some(vec![net4(192, 168, 1, 0, 24), net4(10, 0, 0, 0, 16), net4(172, 30, 30, 30, 32)]));
    let mut c = ctx();
    assert!(matches!(maintenance.req_filter_at(&mut c, now, &ipv4(192, 168, 1, 123), None, None), MaintenanceAnswer::Pass));
    assert_eq!(c.get_action(), SgRouteFilterRequestAction::Proceed);
    let mut c = ctx();
    assert!(matches!(maintenance.req_filter_at(&mut c, now, &ipv4(192, 168, 2, 123), None, None), MaintenanceAnswer::Notice(_)));
    assert_eq!(c.get_action(), SgRouteFilterRequestAction::Response);
    let mut c = ctx();
    assert!(matches!(maintenance.req_filter_at(&mut c, now, &ipv4(172, 30, 30, 30), None, None), MaintenanceAnswer::Pass));
    // over midnight
    assert!(maintenance.check_by_time(tod(0, 30, 0)));
    assert!(!maintenance.check_by_time(tod(15, 0, 0)));
    // answers by content type
    let html = b"text/plain,text/html".to_vec();
    match maintenance.req_filter_at(&mut ctx(), now, &ipv4(1, 2, 3, 4), Some(&html), None) {
        MaintenanceAnswer::Html(body) => {
            assert!(body.contains("<title>System Maintenance</title>"));
            assert!(body.contains("shortly.<br> Thank you"));
        }
        _ => panic!("html expected"),
    }
    let json = b"application/json".to_vec();
    assert!(matches!(maintenance.req_filter_at(&mut ctx(), now, &ipv4(1, 2, 3, 4), None, Some(&json)), MaintenanceAnswer::Forbidden(_)));
    match maintenance.req_filter_at(&mut ctx(), now, &ipv4(1, 2, 3, 4), None, None) {
        MaintenanceAnswer::Notice(body) => assert_eq!(body, "<h1>System Maintenance</h1>"),
        _ => panic!("notice expected"),
    }
    // an IPv6 address is in no IPv4 network
    assert!(!maintenance.check_ip(&SgIpAddr { is_v6: true, addr: 1 }));
}

#[test]
fn maintenance_reads_excluded_ranges() {
    assert_eq!(ip_net_of_text("172.30.30.30"), Some(net4(172, 30, 30, 30, 32)));
    assert_eq!(ip_net_of_text("10.0.0.0/8"), Some(net4(10, 0, 0, 0, 8)));
    assert_eq!(ip_net_of_text("::1"), Some(SgIpNet { is_v6: true, addr: 1, prefix_len: 128 }));
    assert_eq!(ip_net_of_text("fe80::/10"), Some(SgIpNet { is_v6: true, addr: 0xfe80u128 << 112, prefix_len: 10 }));
    assert_eq!(ip_net_of_text("10.0.0.0/33"), None);
    assert_eq!(ip_net_of_text("not an address"), None);
    let mut m = SgFilterMaintenance { exclude_ip_range: Some(vec!["bad".to_string(), "1.2.3.4".to_string()]), ..Default::default() };
    m.init();
    assert_eq!(m.exclude_ip_net, Some(vec![net4(1, 2, 3, 4, 32)]));
    let mut none = SgFilterMaintenance::default();
    none.init();
    assert_eq!(none.exclude_ip_net, None);
}

#[test]
fn test_limit_filter() {
    let filter = SgFilterLimit { max_request_number: Some(4), time_window_ms: None };
    let mut store = LimitStore::new();
    for i in 0..4 {
        assert!(filter.req_filter("limit_001", &mut store, 1000 + i).is_ok());
    }
    assert!(filter.req_filter("limit_001", &mut store, 1004).is_err());
    assert!(filter.req_filter("limit_002", &mut store, 1004).is_ok());
    assert!(filter.req_filter("limit_001", &mut store, 1005).is_err());

    // 1100 ms later
    for i in 0..4 {
        assert!(filter.req_filter("limit_001", &mut store, 2105 + i).is_ok());
    }
    assert!(filter.req_filter("limit_001", &mut store, 2109).is_err());
    assert!(filter.req_filter("limit_001", &mut store, 2110).is_err());

    // 1100 ms later
    for i in 0..4 {
        assert!(filter.req_filter("limit_001", &mut store, 3210 + i).is_ok());
    }
    assert!(filter.req_filter("limit_001", &mut store, 3214).is_err());
    assert!(filter.req_filter("limit_001", &mut store, 3215).is_err());
}

#[test]
fn limit_errors_and_no_limit() {
    let filter = SgFilterLimit { max_request_number: Some(4), time_window_ms: None };
    let mut store = LimitStore::new();
    for i in 0..4 {
        assert_eq!(filter.req_filter("limit_001", &mut store, 1000 + i), Ok(true));
    }
    assert_eq!(filter.req_filter("limit_001", &mut store, 1004), Err(SgError::Forbidden));
    let none = SgFilterLimit { max_request_number: None, time_window_ms: None };
    assert_eq!(none.req_filter("x", &mut store, 0), Ok(true));
}

#[test]
fn inject_target() {
    let mut hs = vec![
        ("sg_inject_real_method".to_string(), b"PATCH".to_vec()),
        ("sg_inject_real_url".to_string(), b"http://h/a?b=c".to_vec()),
        ("other".to_string(), b"x".to_vec()),
    ];
    let (m, u) = take_injected_target("GET", "http://h/", &mut hs).unwrap();
    assert_eq!(m, "PATCH");
    assert_eq!(u, "http://h/a?b=c");
    assert_eq!(hs.len(), 1);
    let mut hs = vec![("other".to_string(), b"x".to_vec())];
    assert_eq!(take_injected_target("GET", "http://h/", &mut hs).unwrap(), ("GET".to_string(), "http://h/".to_string()));
    let mut hs = vec![("sg_inject_real_method".to_string(), b"BAD METHOD".to_vec())];
    assert_eq!(take_injected_target("GET", "http://h/", &mut hs), Err(SgError::BadRequest));
}

fn ctx_with(headers: Vec<(&str, &str)>) -> SgRoutePluginContext {
    let hs = headers.into_iter().map(|(n, v)| (n.to_string(), v.as_bytes().to_vec())).collect();
    SgRoutePluginContext::new_http("r".to_string(), SgCtxRequest::new("GET".to_string(), "http://a.b/".to_string(), SgHttpVersion::Http11, hs, vec![], "".to_string()), String::new(), None)
}

#[test]
fn maintenance_answers_on_the_context() {
    // always on, with one excluded network
    let maintenance = SgFilterMaintenance { exclude_ip_net: Some(vec![net4(10, 0, 0, 0, 8)]), ..Default::default() };
    let (go_on, c) = maintenance.req_filter("", ctx_with(vec![("accept", "text/html")]), &ipv4(1, 2, 3, 4)).unwrap();
    assert!(!go_on);
    assert_eq!(c.get_action(), SgRouteFilterRequestAction::Response);
    assert!(String::from_utf8(c.response.body.clone()).unwrap().starts_with("<!DOCTYPE html>"));
    assert_eq!(c.response.get_headers().iter().find(|(n, _)| n == "content-type").map(|(_, v)| v.clone()), Some(b"text/html".to_vec()));
    assert_eq!(maintenance.req_filter("", ctx_with(vec![("content-type", "application/json")]), &ipv4(1, 2, 3, 4)).err(), Some(SgError::Forbidden));
    let (go_on, c) = maintenance.req_filter("", ctx_with(vec![]), &ipv4(1, 2, 3, 4)).unwrap();
    assert!(!go_on);
    assert_eq!(c.response.body, b"<h1>System Maintenance</h1>".to_vec());
    let (go_on, c) = maintenance.req_filter("", ctx_with(vec![("accept", "text/html")]), &ipv4(10, 1, 1, 1)).unwrap();
    assert!(go_on);
    assert_eq!(c.get_action(), SgRouteFilterRequestAction::Proceed);
}

#[test]
fn exact_hostname_route_wins() {
    let ls = vec![listener(None, 80)];
    let routes = vec![
        SgHttpRouteInst { hostnames: None, rules: None },
        SgHttpRouteInst { hostnames: Some(vec!["*.a.com".to_string()]), rules: None },
        SgHttpRouteInst { hostnames: Some(vec!["x.a.com".to_string()]), rules: None },
    ];
    assert!(matches!(route_request(&request("x.a.com", vec![]), 80, &ls, &routes, true), RouteDecision::Http { route: 2, .. }));
    assert!(matches!(route_request(&request("y.a.com", vec![]), 80, &ls, &routes, true), RouteDecision::Http { route: 1, .. }));
    assert!(matches!(route_request(&request("b.com", vec![]), 80, &ls, &routes, true), RouteDecision::Http { route: 0, .. }));
}
