use spacegate_kernel::functions::http_route::{choose_backend, match_route_insts_with_hostname_priority, match_route_process, match_rule_inst};
use spacegate_kernel::instance::{
    SgBackendInst, SgHttpHeaderMatchInst, SgHttpHeaderMatchType, SgHttpPathMatchInst, SgHttpPathMatchType, SgHttpQueryMatchInst,
    SgHttpQueryMatchType, SgHttpRouteInst, SgHttpRouteMatchInst, SgHttpRouteRuleInst, SgRequestParts,
};
use spacegate_kernel::pattern::SgRegex;

/// The routing view of a request built with the `http` crate.
fn parts(req: http::Request<()>) -> SgRequestParts {
    let uri = req.uri();
    SgRequestParts {
        method: req.method().as_str().to_string(),
        host: uri.host().map(|h| h.to_string()),
        path: uri.path().to_string(),
        query: uri.query().map(|q| q.to_string()),
        headers: req.headers().iter().map(|(k, v)| (k.as_str().to_string(), v.as_bytes().to_vec())).collect(),
    }
}

fn get(uri: &str) -> SgRequestParts {
    parts(http::Request::builder().uri(uri).body(()).unwrap())
}

fn with_header(uri: &str, headers: &[(&str, &str)]) -> SgRequestParts {
    let mut b = http::Request::builder().uri(uri);
    for (k, v) in headers {
        b = b.header(*k, *v);
    }
    parts(b.body(()).unwrap())
}

fn with_method(method: http::Method, uri: &str) -> SgRequestParts {
    parts(http::Request::builder().method(method).uri(uri).body(()).unwrap())
}

fn path_match(kind: SgHttpPathMatchType, value: &str, regular: Option<SgRegex>) -> SgHttpRouteMatchInst {
    SgHttpRouteMatchInst {
        path: Some(SgHttpPathMatchInst { kind, value: value.to_string(), regular }),
        ..Default::default()
    }
}

fn compiled(p: &str) -> Option<SgRegex> {
    Some(SgRegex::new(p).unwrap())
}

fn route(hostnames: Option<Vec<&str>>, rules: Option<Vec<SgHttpRouteRuleInst>>) -> SgHttpRouteInst {
    SgHttpRouteInst {
        hostnames: hostnames.map(|hs| hs.into_iter().map(|h| h.to_string()).collect()),
        rules,
    }
}

fn rule(matches: Option<Vec<SgHttpRouteMatchInst>>) -> SgHttpRouteRuleInst {
    SgHttpRouteRuleInst { matches, ..Default::default() }
}

#[test]
fn test_match_rule_inst() {
    // If there is no matching rule, the match is considered successful
    let (matched, matched_match_inst) = match_rule_inst(&get("https://sg.idealworld.group/"), None);
    assert!(matched);
    assert!(matched_match_inst.is_none());

    // Match exact path
    let match_conds = vec![path_match(SgHttpPathMatchType::Exact, "/iam", None)];
    assert!(!match_rule_inst(&get("https://sg.idealworld.group/"), Some(&match_conds)).0);
    assert!(!match_rule_inst(&get("https://sg.idealworld.group/iam/ct"), Some(&match_conds)).0);
    assert!(!match_rule_inst(&get("https://sg.idealworld.group/iam/"), Some(&match_conds)).0);
    assert!(match_rule_inst(&get("https://sg.idealworld.group/iam"), Some(&match_conds)).0);
    let (matched, matched_match_inst) = match_rule_inst(&get("https://sg.idealworld.group/iam"), Some(&match_conds));
    assert!(matched);
    assert!(matched_match_inst.is_some());

    // Match prefix path
    assert!(match_rule_inst(&get("https://sg.idealworld.group/"), Some(&vec![path_match(SgHttpPathMatchType::Prefix, "/", None)])).0);
    let match_conds = vec![path_match(SgHttpPathMatchType::Prefix, "/iam", None)];
    assert!(!match_rule_inst(&get("https://sg.idealworld.group/"), Some(&match_conds)).0);
    assert!(!match_rule_inst(&get("https://sg.idealworld.group/spi/"), Some(&match_conds)).0);
    let (matched, matched_match_inst) = match_rule_inst(&get("https://sg.idealworld.group/iam/ct"), Some(&match_conds));
    assert!(matched);
    assert!(matched_match_inst.is_some());
    let (matched, matched_match_inst) = match_rule_inst(&get("https://sg.idealworld.group/iam/"), Some(&match_conds));
    assert!(matched);
    assert!(matched_match_inst.is_some());
    let (matched, matched_match_inst) = match_rule_inst(&get("https://sg.idealworld.group/iam"), Some(&match_conds));
    assert!(matched);
    assert!(matched_match_inst.is_some());

    // Match regular path
    let match_conds = vec![path_match(SgHttpPathMatchType::Regular, "/iam/[0-9]+/hi", compiled("/iam/[0-9]+/hi"))];
    assert!(!match_rule_inst(&get("https://sg.idealworld.group/iam/"), Some(&match_conds)).0);
    assert!(!match_rule_inst(&get("https://sg.idealworld.group/iam/ct/hi"), Some(&match_conds)).0);
    assert!(!match_rule_inst(&get("https://sg.idealworld.group/001/hi/hi"), Some(&match_conds)).0);
    assert!(match_rule_inst(&get("https://sg.idealworld.group/iam/001/hi/"), Some(&match_conds)).0);

    // Match method
    let match_conds = vec![SgHttpRouteMatchInst {
        method: Some(vec![http::Method::GET.as_str().to_string()]),
        ..Default::default()
    }];
    assert!(!match_rule_inst(&with_method(http::Method::from_bytes(b"post").unwrap(), "https://sg.idealworld.group/"), Some(&match_conds)).0);
    assert!(match_rule_inst(&get("https://sg.idealworld.group/iam/ct"), Some(&match_conds)).0);

    // Match exact header
    let match_conds = vec![SgHttpRouteMatchInst {
        header: Some(vec![
            SgHttpHeaderMatchInst {
                kind: SgHttpHeaderMatchType::Exact,
                name: "X-Auth-User".to_string(),
                value: "gdxr".to_string(),
                regular: None,
            },
            SgHttpHeaderMatchInst {
                kind: SgHttpHeaderMatchType::Exact,
                name: "App".to_string(),
                value: "a001".to_string(),
                regular: None,
            },
        ]),
        ..Default::default()
    }];
    assert!(!match_rule_inst(&get("https://sg.idealworld.group/"), Some(&match_conds)).0);
    assert!(!match_rule_inst(&with_header("https://sg.idealworld.group/iam/ct", &[("Tenant", "t001")]), Some(&match_conds)).0);
    assert!(!match_rule_inst(&with_header("https://sg.idealworld.group/iam/ct", &[("app", "t001")]), Some(&match_conds)).0);
    assert!(!match_rule_inst(&with_header("https://sg.idealworld.group/iam/ct", &[("app", "a001")]), Some(&match_conds)).0);
    assert!(!match_rule_inst(&with_header("https://sg.idealworld.group/iam/ct", &[("X-Auth-User", "gdxr")]), Some(&match_conds)).0);
    assert!(match_rule_inst(&with_header("https://sg.idealworld.group/iam/ct", &[("app", "a001"), ("X-auTh-User", "gdxr")]), Some(&match_conds)).0);

    // Match regular header
    let match_conds = vec![SgHttpRouteMatchInst {
        header: Some(vec![SgHttpHeaderMatchInst {
            kind: SgHttpHeaderMatchType::Regular,
            name: "X-Id".to_string(),
            value: "^[0-9]+$".to_string(),
            regular: compiled("^[0-9]+$"),
        }]),
        ..Default::default()
    }];
    assert!(!match_rule_inst(&get("https://sg.idealworld.group/"), Some(&match_conds)).0);
    assert!(!match_rule_inst(&with_header("https://sg.idealworld.group/iam/ct", &[("x-iD", "t001")]), Some(&match_conds)).0);
    assert!(match_rule_inst(&with_header("https://sg.idealworld.group/iam/ct", &[("x-iD", "002")]), Some(&match_conds)).0);

    // Match exact query
    let match_conds = vec![SgHttpRouteMatchInst {
        query: Some(vec![
            SgHttpQueryMatchInst {
                kind: SgHttpQueryMatchType::Exact,
                name: "id".to_string(),
                value: "gdxr".to_string(),
                regular: None,
            },
            SgHttpQueryMatchInst {
                kind: SgHttpQueryMatchType::Exact,
                name: "name".to_string(),
                value: "星航".to_string(),
                regular: None,
            },
        ]),
        ..Default::default()
    }];
    assert!(!match_rule_inst(&get("https://sg.idealworld.group/"), Some(&match_conds)).0);
    assert!(!match_rule_inst(&get("https://sg.idealworld.group/?id=gdxr"), Some(&match_conds)).0);
    assert!(!match_rule_inst(&get("https://sg.idealworld.group/?name%3D%E6%98%9F%E8%88%AA"), Some(&match_conds)).0);
    assert!(match_rule_inst(&get("https://sg.idealworld.group/?name%3D%E6%98%9F%E8%88%AA%26id%3Dgdxr"), Some(&match_conds)).0);
    assert!(match_rule_inst(&get("https://sg.idealworld.group/?name%3D%E6%98%9F%E8%88%AA%26id%3Dgdxr%26code%3D1"), Some(&match_conds)).0);

    // Match regular query
    let match_conds = vec![SgHttpRouteMatchInst {
        query: Some(vec![SgHttpQueryMatchInst {
            kind: SgHttpQueryMatchType::Regular,
            name: "id".to_string(),
            value: "id[a-z]+".to_string(),
            regular: compiled("id[a-z]+"),
        }]),
        ..Default::default()
    }];
    assert!(!match_rule_inst(&get("https://sg.idealworld.group/"), Some(&match_conds)).0);
    assert!(!match_rule_inst(&get("https://sg.idealworld.group/?id=gdxr"), Some(&match_conds)).0);
    assert!(!match_rule_inst(&get("https://sg.idealworld.group/?id=idAdef"), Some(&match_conds)).0);
    assert!(match_rule_inst(&get("https://sg.idealworld.group/?id=idadef"), Some(&match_conds)).0);

    // Match multiple
    let match_conds = vec![
        SgHttpRouteMatchInst {
            method: Some(vec![http::Method::PUT.as_str().to_string()]),
            query: Some(vec![SgHttpQueryMatchInst {
                kind: SgHttpQueryMatchType::Regular,
                name: "id".to_string(),
                value: "id[a-z]+".to_string(),
                regular: compiled("id[a-z]+"),
            }]),
            ..Default::default()
        },
        SgHttpRouteMatchInst {
            method: Some(vec![http::Method::POST.as_str().to_string()]),
            ..Default::default()
        },
    ];
    assert!(!match_rule_inst(&get("https://sg.idealworld.group/?id=idAdef"), Some(&match_conds)).0);
    assert!(!match_rule_inst(&get("https://sg.idealworld.group/?id=idadef"), Some(&match_conds)).0);
    assert!(match_rule_inst(&with_method(http::Method::from_bytes("put".as_bytes()).unwrap(), "https://sg.idealworld.group/?id=idadef"), Some(&match_conds)).0);
    assert!(match_rule_inst(&with_method(http::Method::from_bytes("post".as_bytes()).unwrap(), "https://any"), Some(&match_conds)).0);
}

#[test]
fn test_match_route_insts_with_hostname_priority() {
    // Match all hostname
    assert!(!match_route_insts_with_hostname_priority(Some("sg.idealworld.com"), &[route(None, None)]).2.is_empty());
    assert!(!match_route_insts_with_hostname_priority(Some("sg.idealworld.com"), &[route(Some(vec!["*"]), None)]).2.is_empty());
    assert!(!match_route_insts_with_hostname_priority(None, &[route(None, None)]).2.is_empty());
    // Match exact hostname
    assert!(match_route_insts_with_hostname_priority(Some("sg.idealworld.com"), &[route(Some(vec!["sg.idealworld.group"]), None)]).0.is_empty());
    assert!(!match_route_insts_with_hostname_priority(Some("sg.idealworld.group"), &[route(Some(vec!["sg.idealworld.group"]), None)]).0.is_empty());
    // Match wildcard hostname
    assert!(match_route_insts_with_hostname_priority(Some("sg.idealworld.com"), &[route(Some(vec!["*.idealworld.group"]), None)]).1.is_empty());
    assert!(!match_route_insts_with_hostname_priority(Some("sg.idealworld.group"), &[route(Some(vec!["*.idealworld.group"]), None)]).1.is_empty());
    assert!(!match_route_insts_with_hostname_priority(Some("sg.idealworld.group"), &[route(Some(vec!["*.idealworld.*"]), None)]).1.is_empty());

    // Match with priority
    let match_conds = vec![
        route(Some(vec!["*.idealworld.group"]), None),
        route(Some(vec!["sg.idealworld.group", "spacegate.idealworld.group"]), None),
        route(Some(vec!["www.idealworld.group", "idealworld.group"]), None),
        route(Some(vec!["*"]), None),
        route(None, None),
    ];
    let has = |i: &usize, h: &str| match_conds[*i].hostnames.as_ref().unwrap().contains(&h.to_string());
    let (highest, second, lowest) = match_route_insts_with_hostname_priority(Some("sg.idealworld.com"), &match_conds);
    assert!(highest.is_empty() && second.is_empty() && lowest.len() == 2);
    let (highest, second, lowest) = match_route_insts_with_hostname_priority(Some("sg.idealworld.group"), &match_conds);
    assert!(
        highest.len() == 1
            && highest.iter().any(|i| has(i, "sg.idealworld.group"))
            && second.len() == 1
            && second.iter().any(|i| has(i, "*.idealworld.group"))
            && lowest.len() == 2
    );
    let (highest, second, lowest) = match_route_insts_with_hostname_priority(Some("spacegate.idealworld.group"), &match_conds);
    assert!(
        highest.len() == 1
            && highest.iter().any(|i| has(i, "spacegate.idealworld.group"))
            && second.len() == 1
            && second.iter().any(|i| has(i, "*.idealworld.group"))
            && lowest.len() == 2
    );
    let (highest, second, lowest) = match_route_insts_with_hostname_priority(Some("api.idealworld.group"), &match_conds);
    assert!(highest.is_empty() && second.len() == 1 && second.iter().any(|i| has(i, "*.idealworld.group")) && lowest.len() == 2);
    let (highest, second, lowest) = match_route_insts_with_hostname_priority(Some("idealworld.group"), &match_conds);
    assert!(highest.len() == 1 && highest.iter().any(|i| has(i, "idealworld.group")) && second.is_empty() && lowest.len() == 2);
}

/// The path value of the match found, given as (route, rule, match).
fn matched_path(routes: &[SgHttpRouteInst], m: (usize, usize, usize)) -> String {
    routes[m.0].rules.as_ref().unwrap()[m.1].matches.as_ref().unwrap()[m.2].path.as_ref().unwrap().value.clone()
}

#[test]
fn test_match_route_process() {
    // Match all hostname
    let test_routes = vec![route(None, None)];
    let (matched_route, matched_rule, matched_match) = match_route_process(&get("https://sg.idealworld.group/"), &test_routes);
    assert!(matched_route.is_some() && matched_rule.is_none() && matched_match.is_none());

    let test_routes = vec![route(Some(vec!["sg.idealworld.group"]), None)];
    let (matched_route, matched_rule, matched_match) = match_route_process(&get("https://sg.idealworld.group/"), &test_routes);
    assert!(matched_route.is_some() && matched_rule.is_none() && matched_match.is_none());

    let test_routes = vec![route(None, Some(vec![rule(None)]))];
    let (matched_route, matched_rule, matched_match) = match_route_process(&get("https://sg.idealworld.group/"), &test_routes);
    assert!(matched_route.is_some() && matched_rule.is_some() && matched_match.is_none());

    let test_routes = vec![route(None, Some(vec![rule(None), rule(Some(vec![path_match(SgHttpPathMatchType::Exact, "/iam", None)]))]))];
    let (matched_route, matched_rule, matched_match) = match_route_process(&get("https://sg.idealworld.group/iam"), &test_routes);
    assert!(matched_route.is_some() && matched_rule.is_some() && matched_match.is_some());

    let test_routes = vec![route(None, Some(vec![rule(Some(vec![path_match(SgHttpPathMatchType::Prefix, "/", None)]))]))];
    let (matched_route, matched_rule, matched_match) = match_route_process(&get("https://sg.idealworld.group/"), &test_routes);
    assert!(matched_route.is_some() && matched_rule.is_some() && matched_match.is_some());

    //Multiple route matching test
    let test_routes = vec![
        route(Some(vec!["sg.idealworld.group"]), Some(vec![rule(None)])),
        route(Some(vec!["sg.idealworld.group"]), Some(vec![rule(Some(vec![SgHttpRouteMatchInst::default()]))])),
        route(Some(vec!["sg.idealworld.group"]), Some(vec![rule(Some(vec![path_match(SgHttpPathMatchType::Exact, "/iam", None)]))])),
    ];
    let (matched_route, matched_rule, matched_match) = match_route_process(&get("https://sg.idealworld.group/iam"), &test_routes);
    assert!(matched_route.is_some() && matched_rule.is_some() && matched_match.is_some());

    let test_routes = vec![
        route(Some(vec!["sg.idealworld.group"]), None),
        route(Some(vec!["sg.idealworld.group"]), Some(vec![rule(Some(vec![path_match(SgHttpPathMatchType::Exact, "/iam", None)]))])),
    ];
    let (matched_route, matched_rule, matched_match) = match_route_process(&get("https://sg.idealworld.group/iam"), &test_routes);
    assert!(matched_route.is_some() && matched_rule.is_some() && matched_match.is_some());

    // Although the second match is more consistent, the order of matching is still the first one to be matched
    let test_routes = vec![
        route(Some(vec!["sg.idealworld.group"]), Some(vec![rule(Some(vec![path_match(SgHttpPathMatchType::Prefix, "/iam", None)]))])),
        route(Some(vec!["sg.idealworld.group"]), Some(vec![rule(Some(vec![path_match(SgHttpPathMatchType::Prefix, "/iam/a", None)]))])),
    ];
    let (matched_route, matched_rule, matched_match) = match_route_process(&get("https://sg.idealworld.group/iam/a"), &test_routes);
    assert!(matched_route.is_some() && matched_rule.is_some() && matched_match.is_some());
    assert!(matched_path(&test_routes, matched_match.unwrap()) == "/iam");

    let test_routes = vec![
        route(Some(vec!["sg.idealworld.group"]), None),
        route(Some(vec!["*.idealworld.group"]), Some(vec![rule(Some(vec![path_match(SgHttpPathMatchType::Exact, "/iam", None)]))])),
    ];
    let (matched_route, matched_rule, matched_match) = match_route_process(&get("https://sg.idealworld.group/iam"), &test_routes);
    assert!(matched_route.is_some() && matched_rule.is_none() && matched_match.is_none());

    //mix match test
    let test_routes = vec![
        route(None, Some(vec![rule(Some(vec![path_match(SgHttpPathMatchType::Exact, "/backendApi/apis", None)]))])),
        route(
            None,
            Some(vec![SgHttpRouteRuleInst {
                matches: Some(vec![path_match(SgHttpPathMatchType::Prefix, "/", None)]),
                backends: Some(vec![SgBackendInst {
                    name_or_host: "https://sg.idealworld.group".to_string(),
                    ..Default::default()
                }]),
                ..Default::default()
            }]),
        ),
        route(Some(vec!["sg.idealworld.group"]), None),
        route(Some(vec!["sg.idealworld.group"]), Some(vec![rule(Some(vec![path_match(SgHttpPathMatchType::Regular, "/iam/[0-9]+/", None)]))])),
    ];
    let (matched_route, matched_rule, matched_match) = match_route_process(&get("http://192.168.1.1:9000/backendApi/apis"), &test_routes);
    assert!(matched_route.is_some() && matched_rule.is_some() && matched_match.is_some());
    assert!(matched_path(&test_routes, matched_match.unwrap()) == "/backendApi/apis")
}

#[test]
fn test_choose_backend() {
    // Only one backend
    let one = vec![SgBackendInst {
        name_or_host: "iam1".to_string(),
        weight: None,
        ..Default::default()
    }];
    assert!(one[choose_backend(&one).unwrap()].name_or_host == "iam1");

    // Check weight
    let backends = vec![
        SgBackendInst {
            name_or_host: "iam1".to_string(),
            weight: Some(30),
            ..Default::default()
        },
        SgBackendInst {
            name_or_host: "iam2".to_string(),
            weight: Some(70),
            ..Default::default()
        },
    ];
    let mut backend_counts = std::collections::HashMap::new();
    for _ in 0..1000 {
        let backend = choose_backend(&backends);
        *backend_counts.entry(backends[backend.unwrap()].name_or_host.clone()).or_insert(0) += 1;
    }
    println!("backend_counts: {:?}", backend_counts);
    assert!(backend_counts.get("iam1").unwrap() < backend_counts.get("iam2").unwrap());
}

#[test]
fn choose_backend_never_picks_zero_weight() {
    let backends = vec![
        SgBackendInst { name_or_host: "a".to_string(), weight: Some(0), ..Default::default() },
        SgBackendInst { name_or_host: "b".to_string(), weight: Some(5), ..Default::default() },
    ];
    for _ in 0..200 {
        assert_eq!(choose_backend(&backends), Some(1));
    }
    assert_eq!(choose_backend(&[]), None);
}
