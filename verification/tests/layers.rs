use spacegate_kernel::helper_layers::check::{CheckOutcome, CheckService};
use spacegate_kernel::functions::http_route::header_get;
use spacegate_kernel::plugin::filter::insert_named;
use spacegate_kernel::layers::http_route::builder::{SgHttpBackendLayerBuilder, SgHttpRouteLayerBuilder};
use spacegate_kernel::layers::http_route::{SgHttpBackendLayer, SgHttpRoute, SgHttpRouteRuleLayer};
use std::time::Duration;

#[test]
fn route_builder_keeps_parts() {
    let mut ext = http::Extensions::new();
    ext.insert(7u32);
    let route = SgHttpRoute::<u8, &str>::builder()
        .name("r1".to_string())
        .hostnames(vec!["a.com".to_string(), "b.com".to_string()])
        .rule(1)
        .rules(vec![2, 3])
        .plugin("p1")
        .plugins(vec!["p2"])
        .ext(ext)
        .build()
        .unwrap();
    assert_eq!(route.name, "r1");
    assert_eq!(route.hostnames, vec!["a.com".to_string(), "b.com".to_string()]);
    assert_eq!(route.rules, vec![1, 2, 3]);
    assert_eq!(route.plugins, vec!["p1", "p2"]);
    assert_eq!(route.priority, 1);
    assert_eq!(route.ext.get::<u32>(), Some(&7));
}

#[test]
fn route_builder_wildcard_hostname() {
    let route = SgHttpRouteLayerBuilder::<u8, u8>::new()
        .hostnames(vec!["a.com".to_string(), "*".to_string(), "b.com".to_string()])
        .priority(5)
        .build()
        .unwrap();
    assert_eq!(route.hostnames, vec!["*".to_string()]);
    assert_eq!(route.priority, 5);
    // a hostname that only starts with `*` is no wildcard
    let route = SgHttpRouteLayerBuilder::<u8, u8>::default().hostnames(vec!["*.a.com".to_string()]).build().unwrap();
    assert_eq!(route.hostnames, vec!["*.a.com".to_string()]);
}

#[test]
fn rule_builder_keeps_parts() {
    let rule = SgHttpRouteRuleLayer::<&str, u8, u16>::builder()
        .matches(vec!["m1"])
        .plugin(1)
        .plugins(vec![2])
        .timeout(Duration::from_millis(300))
        .backend(10)
        .backends(vec![11])
        .build()
        .unwrap();
    assert_eq!(rule.matches, Some(vec!["m1"]));
    assert_eq!(rule.plugins, vec![1, 2]);
    assert_eq!(rule.timeouts, Some(Duration::from_millis(300)));
    assert_eq!(rule.backends, vec![10, 11]);
    let all = SgHttpRouteRuleLayer::<&str, u8, u16>::builder().matches(vec!["m1"]).match_all().build().unwrap();
    assert_eq!(all.matches, None);
}

#[test]
fn backend_builder_keeps_parts() {
    let backend = SgHttpBackendLayer::<u8>::builder().build().unwrap();
    assert_eq!(backend.weight, 1);
    assert_eq!(backend.host, None);
    let backend = SgHttpBackendLayerBuilder::<u8>::new()
        .host("svc".to_string())
        .port(8080)
        .protocol("https".to_string())
        .weight(3)
        .timeout(Duration::from_secs(2))
        .plugin(1)
        .plugins(vec![2])
        .build()
        .unwrap();
    assert_eq!(backend.host.as_deref(), Some("svc"));
    assert_eq!(backend.port, Some(8080));
    assert_eq!(backend.scheme.as_deref(), Some("https"));
    assert_eq!(backend.weight, 3);
    assert_eq!(backend.timeout, Some(Duration::from_secs(2)));
    assert_eq!(backend.plugins, vec![1, 2]);
}

#[test]
fn attached_header_is_read_back() {
    let mut headers = vec![("x-trace-id".to_string(), b"old".to_vec()), ("host".to_string(), b"a".to_vec()), ("x-trace-id".to_string(), b"older".to_vec())];
    assert_eq!(header_get(&headers, "X-Trace-Id"), Some(&b"old".to_vec()));
    insert_named(&mut headers, "x-trace-id".to_string(), b"abc".to_vec());
    assert_eq!(headers, vec![("host".to_string(), b"a".to_vec()), ("x-trace-id".to_string(), b"abc".to_vec())]);
    assert_eq!(header_get(&headers, "x-trace-id"), Some(&b"abc".to_vec()));
}

#[test]
fn check_outcomes() {
    type Svc = CheckService<(), (), ()>;
    assert_eq!(Svc::decide(false, true), CheckOutcome::Missing);
    assert_eq!(Svc::decide(true, false), CheckOutcome::Forbidden);
    assert_eq!(Svc::decide(true, true), CheckOutcome::Pass);
    assert_eq!(CheckOutcome::Missing.default_status(), Some(401));
    assert_eq!(CheckOutcome::Forbidden.default_status(), Some(403));
    assert_eq!(CheckOutcome::Pass.default_status(), None);
}
