use spacegate_kernel::error::SgError;
use spacegate_kernel::instance::{SgHttpPathMatchInst, SgHttpPathMatchType, SgHttpRouteMatchInst, SgHttpRouteRuleInst};
use spacegate_kernel::plugins::context::{ChosenHttpRouteRuleInst, SgCtxRequest, SgHttpVersion, SgRouteFilterRequestAction, SgRoutePluginContext};
use spacegate_kernel::plugins::filters::header_modifier::{SgFilterHeaderModifier, SgFilterHeaderModifierKind};
use spacegate_kernel::plugins::filters::redirect::SgFilterRedirect;
use spacegate_kernel::plugins::filters::rewrite::SgFilterRewrite;
use spacegate_kernel::plugins::filters::inject::SgFilterInjectDef;
use spacegate_kernel::plugins::filters::limit::SgFilterLimitDef;
use spacegate_kernel::plugins::filters::retry::SgFilterRetryDef;
use spacegate_kernel::plugins::filters::{SgFilterDefs, SgHttpPathModifier, SgHttpPathModifierType, SgPluginFilterInitDto, SgPluginFilterKind, SgAttachedLevel};
use spacegate_kernel::config::gateway_dto::{SgGateway, SgParameters};
use spacegate_kernel::config::http_route_dto::{SgBackendRef, SgHttpRoute, SgHttpRouteRule};

fn new_ctx(method: &str, uri: &str, headers: Vec<(String, Vec<u8>)>, rule: Option<ChosenHttpRouteRuleInst>) -> SgRoutePluginContext {
    let req = SgCtxRequest::new(method.to_string(), uri.to_string(), SgHttpVersion::Http11, headers, vec![], "127.0.0.1:8080".to_string());
    SgRoutePluginContext::new_http("id".to_string(), req, "".to_string(), rule)
}

fn header<'a>(hs: &'a [(String, Vec<u8>)], name: &str) -> Option<&'a str> {
    hs.iter().find(|(n, _)| n == name).map(|(_, v)| std::str::from_utf8(v).unwrap())
}

fn host_of(uri: &str) -> String {
    url::Url::parse(uri).unwrap().host_str().unwrap().to_string()
}

fn prefix_matched() -> ChosenHttpRouteRuleInst {
    let matched = SgHttpRouteMatchInst {
        path: Some(SgHttpPathMatchInst {
            kind: SgHttpPathMatchType::Prefix,
            value: "/iam".to_string(),
            regular: None,
        }),
        ..Default::default()
    };
    ChosenHttpRouteRuleInst::clone_from(&SgHttpRouteRuleInst::default(), Some(&matched))
}

#[test]
fn test_header_modifier_filter() {
    let filter_req = SgFilterHeaderModifier {
        kind: SgFilterHeaderModifierKind::Request,
        sets: Some(vec![("X-Test1".to_string(), "test1".to_string()), ("X-Test2".to_string(), "test2".to_string())]),
        remove: Some(vec!["X-1".to_string(), "X-2".to_string()]),
    };
    let filter_resp = SgFilterHeaderModifier {
        kind: SgFilterHeaderModifierKind::Response,
        sets: None,
        remove: Some(vec!["X-Test2".to_string(), "X-2".to_string()]),
    };

    let ctx = new_ctx("GET", "http://sg.idealworld.group/spi/cache/1", vec![], None);

    let (is_continue, mut ctx) = filter_req.req_filter("", ctx).unwrap();
    assert!(is_continue);
    assert_eq!(ctx.request.get_method().to_lowercase(), "get");
    assert_eq!(ctx.request.get_headers().len(), 2);
    assert_eq!(header(ctx.request.get_headers(), "x-test1"), Some("test1"));
    assert_eq!(header(ctx.request.get_headers(), "x-test2"), Some("test2"));
    assert_eq!(host_of(ctx.request.get_uri()), "sg.idealworld.group");
    assert_eq!(ctx.response.get_status_code(), 200);

    let mock_resp_headers = ctx.request.get_headers().clone();
    ctx.response.set_headers(mock_resp_headers);
    let (is_continue, ctx) = filter_resp.resp_filter("", ctx).unwrap();
    assert!(is_continue);
    assert_eq!(ctx.request.get_method().to_lowercase(), "get");
    assert_eq!(ctx.request.get_headers().len(), 2);
    assert_eq!(header(ctx.request.get_headers(), "x-test1"), Some("test1"));
    assert_eq!(header(ctx.request.get_headers(), "x-test2"), Some("test2"));
    assert_eq!(host_of(ctx.request.get_uri()), "sg.idealworld.group");
    assert_eq!(ctx.response.get_headers().len(), 1);
    assert_eq!(header(ctx.response.get_headers(), "x-test1"), Some("test1"));
    assert_eq!(ctx.response.get_status_code(), 200);
}

#[test]
fn test_rewrite_filter() {
    let filter = SgFilterRewrite {
        hostname: Some("sg_new.idealworld.group".to_string()),
        path: Some(SgHttpPathModifier {
            kind: SgHttpPathModifierType::ReplacePrefixMatch,
            value: "/new_iam".to_string(),
        }),
    };
    let ctx = new_ctx("POST", "http://sg.idealworld.group/iam/ct/001?name=sg", vec![], Some(prefix_matched()));

    let (is_continue, ctx) = filter.req_filter("", ctx).unwrap();
    assert!(is_continue);
    assert_eq!(ctx.request.get_uri(), "http://sg_new.idealworld.group/new_iam/ct/001?name=sg");
    assert_eq!(ctx.response.get_status_code(), 200);

    let (is_continue, ctx) = filter.resp_filter("", ctx).unwrap();
    assert!(is_continue);
    assert_eq!(ctx.response.get_status_code(), 200);
}

#[test]
fn test_redirect_filter() {
    let filter = SgFilterRedirect {
        scheme: Some("https".to_string()),
        hostname: Some("sg_new.idealworld.group".to_string()),
        path: Some(SgHttpPathModifier {
            kind: SgHttpPathModifierType::ReplacePrefixMatch,
            value: "/new_iam".to_string(),
        }),
        port: Some(443),
        status_code: Some(301),
    };
    let ctx = new_ctx("POST", "http://sg.idealworld.group/iam/ct/001?name=sg", vec![], Some(prefix_matched()));

    let (is_continue, ctx) = filter.req_filter("", ctx).unwrap();
    assert!(is_continue);
    assert_eq!(ctx.request.get_uri(), "https://sg_new.idealworld.group/new_iam/ct/001?name=sg");
    assert_eq!(ctx.response.get_status_code(), 200);
    assert_eq!(ctx.get_action(), SgRouteFilterRequestAction::Redirect);

    let (is_continue, ctx) = filter.resp_filter("", ctx).unwrap();
    assert!(is_continue);
    assert_eq!(ctx.response.get_status_code(), 301);
}

#[test]
fn redirect_refusals() {
    // a status that http refuses
    let filter = SgFilterRedirect { status_code: Some(42), ..Default::default() };
    let ctx = new_ctx("GET", "http://a.b/c", vec![], None);
    assert_eq!(filter.resp_filter("", ctx).err(), Some(SgError::FormatError));
    // a port on a URL that cannot have one
    let filter = SgFilterRedirect { port: Some(8080), ..Default::default() };
    let ctx = new_ctx("GET", "mailto:someone@a.b", vec![], None);
    assert_eq!(filter.req_filter("", ctx).err(), Some(SgError::FormatError));
    // a port that is not the scheme's default shows in the URI
    let filter = SgFilterRedirect { port: Some(8080), ..Default::default() };
    let (_, ctx) = filter.req_filter("", new_ctx("GET", "http://a.b/c?d=1", vec![], None)).unwrap();
    assert_eq!(ctx.request.get_uri(), "http://a.b:8080/c?d=1");
    // nothing to change: only the action is set
    let filter = SgFilterRedirect::default();
    let (_, ctx) = filter.req_filter("", new_ctx("GET", "http://a.b/c", vec![], None)).unwrap();
    assert_eq!(ctx.request.get_uri(), "http://a.b/c");
    assert!(!ctx.request.uri.is_modified());
    assert_eq!(ctx.get_action(), SgRouteFilterRequestAction::Redirect);
    assert_eq!(filter.accept().kind, vec![SgPluginFilterKind::Http]);
}

#[test]
fn rewrite_host_only_and_kinds() {
    let filter = SgFilterRewrite { hostname: Some("other.host".to_string()), path: None };
    let (_, ctx) = filter.req_filter("", new_ctx("GET", "http://a.b/c?d=1", vec![], None)).unwrap();
    assert_eq!(ctx.request.get_uri(), "http://other.host/c?d=1");
    assert_eq!(ctx.request.get_uri_raw(), "http://a.b/c?d=1");
    assert_eq!(filter.accept().kind, vec![SgPluginFilterKind::Http, SgPluginFilterKind::Ws]);
    // a prefix rewrite on a path that does not start with the matched prefix
    let filter = SgFilterRewrite {
        hostname: None,
        path: Some(SgHttpPathModifier { kind: SgHttpPathModifierType::ReplacePrefixMatch, value: "/x".to_string() }),
    };
    let ctx = new_ctx("GET", "http://a.b/other", vec![], Some(prefix_matched()));
    assert_eq!(filter.req_filter("", ctx).err(), Some(SgError::FormatError));
}

#[test]
fn header_modifier_errors_and_kinds() {
    // a bad name in the sets
    let filter = SgFilterHeaderModifier {
        kind: SgFilterHeaderModifierKind::Request,
        sets: Some(vec![("bad name".to_string(), "v".to_string())]),
        remove: None,
    };
    assert_eq!(filter.req_filter("", new_ctx("GET", "http://a.b/", vec![], None)).err(), Some(SgError::FormatError));
    // a bad name in the removals of a request
    let filter = SgFilterHeaderModifier { kind: SgFilterHeaderModifierKind::Request, sets: None, remove: Some(vec!["bad name".to_string()]) };
    assert_eq!(filter.req_filter("", new_ctx("GET", "http://a.b/", vec![], None)).err(), Some(SgError::FormatError));
    // the same removal on an unmodified response does nothing
    let filter = SgFilterHeaderModifier { kind: SgFilterHeaderModifierKind::Response, sets: None, remove: Some(vec!["bad name".to_string()]) };
    assert!(filter.resp_filter("", new_ctx("GET", "http://a.b/", vec![], None)).is_ok());
    // a request modifier leaves responses alone, and the other way round
    let filter = SgFilterHeaderModifier {
        kind: SgFilterHeaderModifierKind::Response,
        sets: Some(vec![("x-a".to_string(), "1".to_string())]),
        remove: None,
    };
    let (_, ctx) = filter.req_filter("", new_ctx("GET", "http://a.b/", vec![("x-b".to_string(), b"2".to_vec())], None)).unwrap();
    assert_eq!(ctx.request.get_headers().len(), 1);
    let (_, ctx) = filter.resp_filter("", ctx).unwrap();
    assert_eq!(header(ctx.response.get_headers(), "x-a"), Some("1"));
    // a later set of the same name wins
    let filter = SgFilterHeaderModifier {
        kind: SgFilterHeaderModifierKind::Request,
        sets: Some(vec![("X-A".to_string(), "1".to_string()), ("x-a".to_string(), "2".to_string())]),
        remove: None,
    };
    let (_, ctx) = filter.req_filter("", new_ctx("GET", "http://a.b/", vec![], None)).unwrap();
    assert_eq!(header(ctx.request.get_headers(), "x-a"), Some("2"));
    assert_eq!(ctx.request.get_headers().len(), 1);
}

#[test]
fn filter_definitions_by_code() {
    assert_eq!(SgFilterInjectDef.get_code(), "inject");
    assert_eq!(SgFilterLimitDef.get_code(), "limit");
    assert_eq!(SgFilterRetryDef.get_code(), "retry");
    let mut defs = SgFilterDefs::init_filter_defs(vec![("inject".to_string(), 1), ("limit".to_string(), 2), ("inject".to_string(), 3)]);
    assert_eq!(defs.get_filter_def("inject"), Ok(&3));
    assert_eq!(defs.get_filter_def("limit"), Ok(&2));
    assert_eq!(defs.get_filter_def("retry"), Err(SgError::FormatError));
    defs.register_filter_def("retry".to_string(), 4);
    assert_eq!(defs.get_filter_def("retry"), Ok(&4));
}

fn init_gateway() -> SgGateway {
    SgGateway { name: "gw".to_string(), parameters: SgParameters::default(), listeners: vec![], filters: None }
}

fn init_rule(timeout: u64) -> SgHttpRouteRule {
    SgHttpRouteRule { matches: None, filters: None, backends: None, timeout_ms: Some(timeout) }
}

#[test]
fn filter_init_dtos() {
    let gw = init_gateway();
    let routes = vec![
        SgHttpRoute { gateway_name: "gw".to_string(), hostnames: None, filters: None, rules: Some(vec![init_rule(1), init_rule(2)]) },
        SgHttpRoute { gateway_name: "gw".to_string(), hostnames: None, filters: None, rules: None },
        SgHttpRoute { gateway_name: "gw".to_string(), hostnames: None, filters: None, rules: Some(vec![init_rule(3)]) },
    ];
    let g = SgPluginFilterInitDto::from_global(&gw, &routes);
    assert_eq!(g.gateway_name, "gw");
    assert_eq!(g.attached_level, SgAttachedLevel::Gateway);
    assert_eq!(g.http_route_rules.iter().map(|r| r.timeout_ms.unwrap()).collect::<Vec<_>>(), vec![1, 2, 3]);
    let r = SgPluginFilterInitDto::from_route(&gw, &routes[1]);
    assert!(r.http_route_rules.is_empty());
    assert_eq!(r.attached_level, SgAttachedLevel::HttpRoute);
    let r = SgPluginFilterInitDto::from_rule(&gw, &init_rule(7));
    assert_eq!(r.http_route_rules[0].timeout_ms, Some(7));
    let backend = SgBackendRef { name_or_host: "b".to_string(), namespace: None, port: 80, timeout_ms: None, protocol: None, weight: None, filters: None };
    let r = SgPluginFilterInitDto::from_backend(&gw, &init_rule(8), &backend);
    assert_eq!(r.attached_level, SgAttachedLevel::Backend);
    assert_eq!(r.http_route_rules[0].timeout_ms, Some(8));
    assert_eq!(r.http_route_rules[0].backends.as_ref().unwrap()[0].name_or_host, "b");
}
