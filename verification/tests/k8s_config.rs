use spacegate_kernel::config::config_by_k8s::{is_spacegate_gateway, k8s_initial_config, select_gateways};
use spacegate_kernel::config::k8s_watch::{K8sGatewayAction, K8sWatchState};
use spacegate_kernel::config::config_by_k8s::{pair_gateway_routes, refers_to_gateways, select_http_routes};
use spacegate_kernel::config::gateway_dto::{SgGateway, SgParameters};
use spacegate_kernel::config::http_route_dto::SgHttpRoute;
use spacegate_kernel::config::config_by_k8s::{
    convert_filters, gateway_from_k8s, get_filters_from_cdr, http_route_from_k8s, process_gateway_config, process_http_route_config, K8sBackendObjectRef,
    K8sGateway, K8sGatewayTls, K8sHttpBackendRef, K8sHttpHeader, K8sHttpHeaderMatch, K8sHttpPathMatch, K8sHttpPathModifier, K8sHttpQueryParamMatch,
    K8sHttpRoute, K8sHttpRouteFilter, K8sHttpRouteMatch, K8sHttpRouteRule, K8sListener, K8sParentRef, K8sRequestHeaderModifier, K8sRequestRedirect,
    K8sSecretRef, K8sSgFilterSpec, K8sSgFilterSpecFilter, K8sTlsSecret, K8sUrlRewrite,
};
use spacegate_kernel::config::gateway_dto::{SgProtocol, SgTlsMode};
use spacegate_kernel::config::k8s_crd::K8sSgFilterSpecTargetRef;
use spacegate_kernel::config::plugin_filter_dto::SgRouteFilterSpec;
use spacegate_kernel::error::SgError;
use spacegate_kernel::instance::{SgHttpHeaderMatchType, SgHttpPathMatchType};
use spacegate_kernel::plugins::filters::SgHttpPathModifierType;

fn listener(name: &str, protocol: &str, tls: Option<K8sGatewayTls>) -> K8sListener {
    K8sListener { name: name.to_string(), hostname: None, port: 80, protocol: protocol.to_string(), tls }
}

fn tls(mode: Option<&str>) -> K8sGatewayTls {
    K8sGatewayTls {
        mode: mode.map(|m| m.to_string()),
        has_options: false,
        certificate_refs: Some(vec![K8sSecretRef { name: "cert".to_string(), namespace: None }]),
    }
}

fn gateway(listeners: Vec<K8sListener>) -> K8sGateway {
    K8sGateway {
        name: Some("gw".to_string()),
        namespace: Some("ns".to_string()),
        class_name: "spacegate".to_string(),
        uid: Some("g-uid".to_string()),
        generation: Some(1),
        annotations: Some(vec![("redis_url".to_string(), "redis://r".to_string()), ("other".to_string(), "x".to_string())]),
        has_addresses: false,
        listeners,
    }
}

fn filter_resource(kind: &str, name: &str, code: &str) -> K8sSgFilterSpec {
    K8sSgFilterSpec {
        filters: vec![K8sSgFilterSpecFilter { code: code.to_string(), name: Some(format!("{code}1")), enable: true, config: "{}".to_string() }],
        target_refs: vec![K8sSgFilterSpecTargetRef { kind: kind.to_string(), name: name.to_string(), namespace: Some("NS".to_string()) }],
    }
}

#[test]
fn k8s_gateway_conversion() {
    let g = gateway(vec![listener("web", "HTTP", None), listener("secure", "https", Some(tls(Some("Terminate"))))]);
    let secrets = vec![None, Some(K8sTlsSecret { key: "\"k\"".to_string(), cert: "\"c\"".to_string() })];
    let objs = vec![filter_resource("Gateway", "GW", "status"), filter_resource("httproute", "gw", "limit")];
    let gw = gateway_from_k8s(&g, &secrets, &objs).unwrap();
    assert_eq!(gw.name, "ns.gw");
    assert_eq!(gw.parameters.redis_url, Some("redis://r".to_string()));
    assert_eq!(gw.parameters.log_level, None);
    assert_eq!(gw.listeners.len(), 2);
    assert_eq!(gw.listeners[0].protocol, SgProtocol::Http);
    assert!(gw.listeners[0].tls.is_none());
    assert_eq!(gw.listeners[1].protocol, SgProtocol::Https);
    assert_eq!(gw.listeners[1].name, Some("secure".to_string()));
    let t = gw.listeners[1].tls.as_ref().unwrap();
    assert_eq!(t.mode, SgTlsMode::Terminate);
    assert_eq!(t.key, "\"k\"");
    let filters = gw.filters.unwrap();
    assert_eq!(filters.len(), 1);
    assert_eq!(filters[0].code, "status");
    // without a mode, the default (passthrough)
    let g = gateway(vec![listener("secure", "HTTPS", Some(tls(None)))]);
    let gw = gateway_from_k8s(&g, &vec![Some(K8sTlsSecret { key: "k".to_string(), cert: "c".to_string() })], &vec![]).unwrap();
    assert_eq!(gw.listeners[0].tls.as_ref().unwrap().mode, SgTlsMode::Passthrough);
    assert!(gw.filters.is_none());
    // without a namespace, `default`
    let mut g = gateway(vec![]);
    g.namespace = None;
    assert_eq!(gateway_from_k8s(&g, &vec![], &vec![]).unwrap().name, "default.gw");
}

#[test]
fn k8s_gateway_refusals() {
    let mut l = listener("a", "http", None);
    l.hostname = Some("h".to_string());
    assert_eq!(gateway_from_k8s(&gateway(vec![l]), &vec![None], &vec![]).err(), Some(SgError::NotImplemented));
    let mut g = gateway(vec![]);
    g.has_addresses = true;
    assert_eq!(gateway_from_k8s(&g, &vec![], &vec![]).err(), Some(SgError::NotImplemented));
    assert_eq!(gateway_from_k8s(&gateway(vec![listener("a", "tcp", None)]), &vec![None], &vec![]).err(), Some(SgError::NotImplemented));
    let secret = vec![Some(K8sTlsSecret { key: "k".to_string(), cert: "c".to_string() })];
    assert_eq!(gateway_from_k8s(&gateway(vec![listener("a", "https", Some(tls(Some("Passthrough"))))]), &secret, &vec![]).err(), Some(SgError::NotImplemented));
    let mut t = tls(None);
    t.has_options = true;
    assert_eq!(gateway_from_k8s(&gateway(vec![listener("a", "https", Some(t))]), &secret, &vec![]).err(), Some(SgError::NotImplemented));
    let mut g = gateway(vec![]);
    g.name = None;
    assert_eq!(gateway_from_k8s(&g, &vec![], &vec![]).err(), Some(SgError::FormatError));
    assert_eq!(gateway_from_k8s(&gateway(vec![listener("a", "https", None)]), &vec![None], &vec![]).err(), Some(SgError::FormatError));
    let mut t = tls(None);
    t.certificate_refs = Some(vec![]);
    assert_eq!(gateway_from_k8s(&gateway(vec![listener("a", "https", Some(t))]), &secret, &vec![]).err(), Some(SgError::FormatError));
    // the first refused object refuses them all
    let ok = (gateway(vec![]), vec![]);
    let mut bad = gateway(vec![]);
    bad.has_addresses = true;
    assert_eq!(process_gateway_config(&vec![ok.clone(), (bad, vec![])], &vec![]).err(), Some(SgError::NotImplemented));
    assert_eq!(process_gateway_config(&vec![ok.clone(), ok], &vec![]).unwrap().len(), 2);
}

#[test]
fn k8s_filters_from_resources() {
    let objs = vec![filter_resource("httproute", "r1", "a"), filter_resource("HTTPRoute", "R1", "b"), filter_resource("gateway", "r1", "c")];
    let fs = get_filters_from_cdr(&objs, "httproute", "r1", &Some("ns".to_string())).unwrap();
    assert_eq!(fs.iter().map(|f| f.code.as_str()).collect::<Vec<_>>(), vec!["a", "b"]);
    assert_eq!(fs[0].name, Some("a1".to_string()));
    assert!(matches!(&fs[0].spec, SgRouteFilterSpec::Json(j) if j == "{}"));
    // a namespace that differs
    assert!(get_filters_from_cdr(&objs, "httproute", "r1", &None).is_none());
}

#[test]
fn k8s_filter_conversion() {
    let fs = convert_filters(Some(vec![
        K8sHttpRouteFilter::RequestHeaderModifier(K8sRequestHeaderModifier {
            add: Some(vec![K8sHttpHeader { name: "X-A".to_string(), value: "1".to_string() }, K8sHttpHeader { name: "X-B".to_string(), value: "2".to_string() }]),
            set: Some(vec![K8sHttpHeader { name: "X-A".to_string(), value: "3".to_string() }]),
            remove: Some(vec!["X-C".to_string()]),
        }),
        K8sHttpRouteFilter::RequestHeaderModifier(K8sRequestHeaderModifier { add: None, set: None, remove: None }),
        K8sHttpRouteFilter::RequestRedirect(K8sRequestRedirect {
            scheme: Some("https".to_string()),
            hostname: None,
            path: Some(K8sHttpPathModifier::ReplacePrefixMatch("/x".to_string())),
            port: Some(443),
            status_code: Some(302),
        }),
        K8sHttpRouteFilter::URLRewrite(K8sUrlRewrite { hostname: Some("h".to_string()), path: Some(K8sHttpPathModifier::ReplaceFullPath("/y".to_string())) }),
    ]))
    .unwrap();
    assert_eq!(fs.len(), 4);
    assert_eq!(fs[0].code, "header_modifier");
    match &fs[0].spec {
        SgRouteFilterSpec::HeaderModifier(m) => {
            let mut sets = m.sets.clone().unwrap();
            sets.sort();
            assert_eq!(sets, vec![("X-A".to_string(), "3".to_string()), ("X-B".to_string(), "2".to_string())]);
            assert_eq!(m.remove, Some(vec!["X-C".to_string()]));
        }
        other => panic!("{other:?}"),
    }
    match &fs[1].spec {
        SgRouteFilterSpec::HeaderModifier(m) => assert!(m.sets.is_none()),
        other => panic!("{other:?}"),
    }
    assert_eq!(fs[2].code, "redirect");
    match &fs[2].spec {
        SgRouteFilterSpec::Redirect(r) => {
            assert_eq!(r.port, Some(443));
            assert_eq!(r.path.as_ref().unwrap().kind, SgHttpPathModifierType::ReplacePrefixMatch);
        }
        other => panic!("{other:?}"),
    }
    assert_eq!(fs[3].code, "rewrite");
    assert!(convert_filters(None).is_none());
}

fn route(parents: Option<Vec<K8sParentRef>>, rules: Option<Vec<K8sHttpRouteRule>>) -> K8sHttpRoute {
    K8sHttpRoute {
        name: Some("r1".to_string()),
        namespace: Some("ns".to_string()),
        uid: Some("r-uid".to_string()),
        generation: Some(1),
        parent_refs: parents,
        hostnames: Some(vec!["a.b".to_string()]),
        rules,
    }
}

fn backend(kind: Option<&str>) -> K8sHttpBackendRef {
    K8sHttpBackendRef {
        backend_ref: Some(K8sBackendObjectRef { name: "svc".to_string(), namespace: None, port: Some(8080), kind: kind.map(|k| k.to_string()) }),
        weight: Some(3),
        filters: None,
    }
}

#[test]
fn k8s_route_conversion() {
    let rule = K8sHttpRouteRule {
        matches: Some(vec![K8sHttpRouteMatch {
            path: Some(K8sHttpPathMatch::PathPrefix("/iam".to_string())),
            headers: Some(vec![K8sHttpHeaderMatch::Exact("X-A".to_string(), "1".to_string())]),
            query_params: Some(vec![K8sHttpQueryParamMatch::RegularExpression("id".to_string(), "[0-9]+".to_string())]),
            method: Some("GET".to_string()),
        }]),
        filters: None,
        backend_refs: Some(vec![backend(Some("Service")), backend(None)]),
    };
    let rt = route(Some(vec![K8sParentRef { name: "gw".to_string(), namespace: None }]), Some(vec![rule]));
    let objs = vec![filter_resource("httproute", "r1", "limit")];
    let out = http_route_from_k8s(rt, &objs).unwrap();
    assert_eq!(out.gateway_name, "ns.gw");
    assert_eq!(out.hostnames, Some(vec!["a.b".to_string()]));
    assert_eq!(out.filters.as_ref().unwrap()[0].code, "limit");
    let rules = out.rules.unwrap();
    let m = &rules[0].matches.as_ref().unwrap()[0];
    assert_eq!(m.path.as_ref().unwrap().kind, SgHttpPathMatchType::Prefix);
    assert_eq!(m.header.as_ref().unwrap()[0].kind, SgHttpHeaderMatchType::Exact);
    assert_eq!(m.method, Some(vec!["get".to_string()]));
    let b = &rules[0].backends.as_ref().unwrap()[1];
    assert_eq!(b.name_or_host, "svc");
    assert_eq!(b.namespace, Some("default".to_string()));
    assert_eq!(b.port, 8080);
    assert_eq!(b.weight, Some(3));
    // the parent's namespace comes first
    let rt = route(Some(vec![K8sParentRef { name: "gw".to_string(), namespace: Some("pns".to_string()) }]), None);
    assert_eq!(http_route_from_k8s(rt, &vec![]).unwrap().gateway_name, "pns.gw");
}

#[test]
fn k8s_route_refusals() {
    let two = Some(vec![K8sParentRef { name: "a".to_string(), namespace: None }, K8sParentRef { name: "b".to_string(), namespace: None }]);
    assert_eq!(http_route_from_k8s(route(two, None), &vec![]).err(), Some(SgError::NotImplemented));
    let rule = K8sHttpRouteRule { matches: None, filters: None, backend_refs: Some(vec![backend(Some("Pod"))]) };
    let one = Some(vec![K8sParentRef { name: "a".to_string(), namespace: None }]);
    assert_eq!(http_route_from_k8s(route(one.clone(), Some(vec![rule])), &vec![]).err(), Some(SgError::NotImplemented));
    assert_eq!(http_route_from_k8s(route(None, None), &vec![]).err(), Some(SgError::FormatError));
    let all = process_http_route_config(vec![route(one.clone(), None), route(None, None)], &vec![]);
    assert_eq!(all.err(), Some(SgError::FormatError));
    assert_eq!(process_http_route_config(vec![route(one, None)], &vec![]).unwrap().len(), 1);
}

#[test]
fn routes_of_the_gateways_found() {
    let names = vec!["ns.gw".to_string(), "default.other".to_string()];
    let own_ns = route(Some(vec![K8sParentRef { name: "gw".to_string(), namespace: None }]), None);
    let elsewhere = route(Some(vec![K8sParentRef { name: "gw".to_string(), namespace: Some("x".to_string()) }]), None);
    let mut no_ns = route(Some(vec![K8sParentRef { name: "other".to_string(), namespace: None }]), None);
    no_ns.namespace = None;
    assert!(refers_to_gateways(&own_ns, &names));
    assert!(!refers_to_gateways(&elsewhere, &names));
    assert!(refers_to_gateways(&no_ns, &names));
    assert!(!refers_to_gateways(&route(None, None), &names));
    let kept = select_http_routes(vec![elsewhere, own_ns, no_ns], &names);
    assert_eq!(kept.len(), 2);
    assert_eq!(kept[0].namespace.as_deref(), Some("ns"));
    assert_eq!(kept[1].namespace, None);

    let gw = |n: &str| SgGateway { name: n.to_string(), parameters: SgParameters::default(), listeners: vec![], filters: None };
    let rt = |g: &str, h: &str| SgHttpRoute { gateway_name: g.to_string(), hostnames: Some(vec![h.to_string()]), filters: None, rules: None };
    let routes = vec![rt("a", "1"), rt("b", "2"), rt("a", "3")];
    let paired = pair_gateway_routes(vec![gw("a"), gw("c")], &routes);
    assert_eq!(paired.len(), 2);
    assert_eq!(paired[0].0.name, "a");
    assert_eq!(paired[0].1.iter().map(|r| r.hostnames.clone().unwrap()[0].clone()).collect::<Vec<_>>(), vec!["1", "3"]);
    assert_eq!(paired[1].0.name, "c");
    assert!(paired[1].1.is_empty());
}

#[test]
fn initial_config_keeps_spacegate_gateways() {
    let mut other = gateway(vec![listener("l", "HTTP", None)]);
    other.class_name = "istio".to_string();
    other.name = Some("other".to_string());
    let own = gateway(vec![listener("l", "HTTP", None)]);
    let objs = vec![(other.clone(), vec![None]), (own.clone(), vec![None])];
    let sel = select_gateways(objs.clone());
    assert_eq!(sel.len(), 1);
    assert_eq!(sel[0].0.name.as_deref(), Some("gw"));
    assert!(is_spacegate_gateway(&own));
    assert!(!is_spacegate_gateway(&other));

    let to_gw = route(Some(vec![K8sParentRef { name: "gw".to_string(), namespace: None }]), None);
    let to_other = route(Some(vec![K8sParentRef { name: "other".to_string(), namespace: None }]), None);
    let config = k8s_initial_config(objs, vec![to_other, to_gw], &vec![]).unwrap();
    assert_eq!(config.len(), 1);
    assert_eq!(config[0].0.name, "ns.gw");
    assert_eq!(config[0].1.len(), 1);
    assert_eq!(config[0].1[0].gateway_name, "ns.gw");

    // a refused spacegate gateway refuses it all; one of another class does not
    let mut bad = own.clone();
    bad.has_addresses = true;
    assert_eq!(k8s_initial_config(vec![(bad.clone(), vec![None])], vec![], &vec![]).err(), Some(SgError::NotImplemented));
    bad.class_name = "istio".to_string();
    assert_eq!(k8s_initial_config(vec![(bad, vec![None])], vec![], &vec![]).unwrap().len(), 0);
}

#[test]
fn watch_decisions() {
    let own = gateway(vec![listener("l", "HTTP", None)]);
    let r = route(Some(vec![K8sParentRef { name: "gw".to_string(), namespace: None }]), None);
    let mut state = K8sWatchState::new(&vec![own.clone()], &vec![r.clone()], vec!["ns.gw".to_string()]);
    // the object as read at start is ignored
    assert!(matches!(state.on_gateway_event(&own, Some(true)), K8sGatewayAction::Ignore));
    let mut changed = own.clone();
    changed.generation = Some(2);
    assert!(matches!(state.on_gateway_event(&changed, None), K8sGatewayAction::Ignore));
    match state.on_gateway_event(&changed, Some(true)) {
        K8sGatewayAction::Restart(n) => assert_eq!(n, "ns.gw"),
        a => panic!("unexpected {a:?}"),
    }
    assert_eq!(state.gateway_names(), &vec!["ns.gw".to_string(), "ns.gw".to_string()]);
    match state.on_gateway_event(&changed, Some(false)) {
        K8sGatewayAction::Shutdown(n) => assert_eq!(n, "ns.gw"),
        a => panic!("unexpected {a:?}"),
    }
    assert!(state.gateway_names().is_empty());
    let mut other = changed.clone();
    other.class_name = "istio".to_string();
    assert!(matches!(state.on_gateway_event(&other, Some(true)), K8sGatewayAction::Ignore));
    // routes
    assert_eq!(state.on_route_event(&r), None);
    let mut r2 = r.clone();
    r2.generation = Some(5);
    assert_eq!(state.on_route_event(&r2), Some(("ns".to_string(), "gw".to_string())));
    r2.namespace = None;
    assert_eq!(state.on_route_event(&r2), Some(("default".to_string(), "gw".to_string())));
    r2.parent_refs = None;
    assert_eq!(state.on_route_event(&r2), None);
    assert!(K8sWatchState::on_route_gateway(&Some(own)));
    assert!(!K8sWatchState::on_route_gateway(&Some(other)));
    assert!(!K8sWatchState::on_route_gateway(&None));
}
