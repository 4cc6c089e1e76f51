use spacegate_kernel::config::gateway_dto::{SgGateway, SgParameters, SgProtocol, SgTlsMode};
use spacegate_kernel::config::http_route_dto::{SgBackendRef, SgHttpPathMatch, SgHttpRoute, SgHttpRouteMatch, SgHttpRouteRule};
use spacegate_kernel::config::k8s_crd::K8sSgFilterSpecTargetRef;
use spacegate_kernel::config::{ConfigAction, ConfigListener, ConfigEvent, RunningGateways, StaticConfig, StaticConfigItem};
use spacegate_kernel::error::SgError;
use spacegate_kernel::functions::http_route::route_init::{build_route_inst, init_route_insts};
use spacegate_kernel::instance::SgHttpPathMatchType;
use spacegate_kernel::layers::http_route::predicate::{FilterByHostnames, HostnameRefusal};

#[test]
fn tls_modes() {
    assert_eq!(SgTlsMode::from_str("Terminate"), Ok(SgTlsMode::Terminate));
    assert_eq!(SgTlsMode::from_str("PASSTHROUGH"), Ok(SgTlsMode::Passthrough));
    assert!(SgTlsMode::from_str("other").is_err());
    assert_eq!(SgTlsMode::from(Some("terminate".to_string())), Some(SgTlsMode::Terminate));
    assert_eq!(SgTlsMode::from(None), None);
    assert_eq!(SgTlsMode::default(), SgTlsMode::Passthrough);
    assert_eq!(SgProtocol::default().as_str(), "http");
}

#[test]
fn backend_hosts() {
    let b = SgBackendRef { name_or_host: "svc".to_string(), namespace: Some("ns".to_string()), port: 80, timeout_ms: None, protocol: None, weight: None, filters: None };
    assert_eq!(b.get_host(), "svc.ns");
    let b = SgBackendRef { namespace: None, ..b };
    assert_eq!(b.get_host(), "svc");
}

#[test]
fn target_refs() {
    let t = K8sSgFilterSpecTargetRef { kind: "HTTPRoute".to_string(), name: "Api".to_string(), namespace: None };
    assert!(t.targets("httproute", "api", &None));
    assert!(t.targets("httproute", "api", &Some("Default".to_string())));
    assert!(!t.targets("httproute", "api", &Some("other".to_string())));
    assert!(!t.targets("gateway", "api", &None));
}

#[test]
fn hostname_filter() {
    let any = FilterByHostnames { hostnames: vec![] };
    assert_eq!(any.check(None), Ok(()));
    let f = FilterByHostnames { hostnames: vec!["a.com".to_string(), "b.com".to_string()] };
    assert_eq!(f.check(Some("b.com")), Ok(()));
    assert_eq!(f.check(Some("c.com")), Err(HostnameRefusal::NotAllowed));
    assert_eq!(f.check(None), Err(HostnameRefusal::Missing));
}

fn gateway() -> SgGateway {
    SgGateway { name: "gw".to_string(), parameters: SgParameters::default(), listeners: vec![], filters: None }
}

fn route_with_path(kind: SgHttpPathMatchType, value: &str, methods: Vec<&str>) -> SgHttpRoute {
    SgHttpRoute {
        gateway_name: "gw".to_string(),
        hostnames: Some(vec!["Sg.IdealWorld.Group".to_string()]),
        filters: None,
        rules: Some(vec![SgHttpRouteRule {
            matches: Some(vec![SgHttpRouteMatch {
                path: Some(SgHttpPathMatch { kind, value: value.to_string() }),
                header: None,
                query: None,
                method: Some(methods.into_iter().map(|m| m.to_string()).collect()),
            }]),
            filters: None,
            backends: Some(vec![SgBackendRef { name_or_host: "b".to_string(), namespace: None, port: 80, timeout_ms: Some(3), protocol: None, weight: Some(2), filters: None }]),
            timeout_ms: Some(100),
        }]),
    }
}

#[test]
fn route_instances() {
    let inst = build_route_inst(&route_with_path(SgHttpPathMatchType::Regular, "/iam/[0-9]+", vec!["GET", "po st", "patch"])).unwrap();
    assert_eq!(inst.hostnames, Some(vec!["sg.idealworld.group".to_string()]));
    let rule = &inst.rules.as_ref().unwrap()[0];
    assert_eq!(rule.timeout_ms, Some(100));
    let m = &rule.matches.as_ref().unwrap()[0];
    assert_eq!(m.method, Some(vec!["GET".to_string(), "patch".to_string()]));
    let p = m.path.as_ref().unwrap();
    assert!(p.regular.is_some());
    assert_eq!(p.regular.as_ref().unwrap().as_str(), "/iam/[0-9]+");
    assert_eq!(rule.backends.as_ref().unwrap()[0].weight, Some(2));
    let exact = build_route_inst(&route_with_path(SgHttpPathMatchType::Exact, "/iam", vec![])).unwrap();
    assert!(exact.rules.as_ref().unwrap()[0].matches.as_ref().unwrap()[0].path.as_ref().unwrap().regular.is_none());
    assert_eq!(build_route_inst(&route_with_path(SgHttpPathMatchType::Regular, "/iam/[0-9", vec![])).err(), Some(SgError::FormatError));
    let all = init_route_insts(&vec![route_with_path(SgHttpPathMatchType::Prefix, "/", vec![]), route_with_path(SgHttpPathMatchType::Regular, "(", vec![])]);
    assert_eq!(all.err(), Some(SgError::FormatError));
}

#[test]
fn static_config_events() {
    let mut c = StaticConfig { items: vec![StaticConfigItem { gateway: gateway(), routes: vec![] }] };
    match c.poll_next() {
        Some(ConfigEvent::GatewayAdd(g, routes)) => {
            assert_eq!(g.name, "gw");
            assert!(routes.is_empty());
        }
        _ => panic!("a gateway was expected"),
    }
    assert!(c.poll_next().is_none());
}

#[test]
fn static_config_as_listener() {
    let mut c = StaticConfig { items: vec![StaticConfigItem { gateway: gateway(), routes: vec![] }] };
    assert_eq!(c.config_listener_name(), "static");
    assert!(matches!(c.next_event(), Some(ConfigEvent::GatewayAdd(g, _)) if g.name == "gw"));
    assert!(c.next_event().is_none());
    c.shutdown();
}

#[test]
fn running_gateways_follow_events() {
    let mut running = RunningGateways::new();
    // a new gateway is started
    let actions = running.on_event(ConfigEvent::GatewayAdd(gateway(), vec![]));
    assert_eq!(actions.len(), 1);
    assert!(matches!(&actions[0], ConfigAction::Start(g, _) if g.name == "gw"));
    assert!(!running.is_running("gw"));
    running.started("gw".to_string());
    assert!(running.is_running("gw"));
    // adding it again stops the running one first
    let actions = running.on_event(ConfigEvent::GatewayAdd(gateway(), vec![]));
    assert_eq!(actions.len(), 2);
    assert!(matches!(&actions[0], ConfigAction::Shutdown(n) if n == "gw"));
    running.started("gw".to_string());
    running.started("other".to_string());
    // a route reload goes to the gateway
    let actions = running.on_event(ConfigEvent::HttpRouteReload("gw".to_string(), vec![]));
    assert!(matches!(&actions[0], ConfigAction::ReloadRoutes(n, _) if n == "gw"));
    // deleting stops it; deleting again does nothing
    assert_eq!(running.on_event(ConfigEvent::GatewayDelete("gw".to_string())).len(), 1);
    assert!(!running.is_running("gw"));
    assert_eq!(running.on_event(ConfigEvent::GatewayDelete("gw".to_string())).len(), 0);
    // deleting all stops every running gateway
    running.started("third".to_string());
    let actions = running.on_event(ConfigEvent::GatewayDeleteAll);
    let mut names: Vec<String> = actions
        .iter()
        .map(|a| match a {
            ConfigAction::Shutdown(n) => n.clone(),
            other => panic!("{other:?}"),
        })
        .collect();
    names.sort();
    assert_eq!(names, vec!["other".to_string(), "third".to_string()]);
    assert!(!running.is_running("other"));
}
