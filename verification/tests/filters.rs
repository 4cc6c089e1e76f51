use spacegate_kernel::error::SgError;
use spacegate_kernel::instance::{SgHttpPathMatchInst, SgHttpPathMatchType, SgHttpRouteMatchInst};
use spacegate_kernel::pattern::SgRegex;
use spacegate_kernel::plugins::filters::{
    http_common_modify_path, SgAttachedLevel, SgHttpPathModifier, SgHttpPathModifierType, SgPluginFilterAccept, SgPluginFilterKind,
};

#[test]
fn test_http_common_modify_path() {
    let url = "http://sg.idealworld.group/iam/ct/001?name=sg";

    let path_prefix_modifier = SgHttpPathModifier {
        kind: SgHttpPathModifierType::ReplacePrefixMatch,
        value: "/new_iam".to_string(),
    };

    let path_full_modifier = SgHttpPathModifier {
        kind: SgHttpPathModifierType::ReplaceFullPath,
        value: "/other_iam".to_string(),
    };

    // with nothing
    assert!(http_common_modify_path(url, &None, None).unwrap().is_none());

    // without match inst
    assert_eq!(
        http_common_modify_path(url, &Some(path_prefix_modifier.clone()), None).unwrap().unwrap(),
        "http://sg.idealworld.group/new_iam?name=sg".to_string()
    );
    assert_eq!(
        http_common_modify_path(url, &Some(path_full_modifier), None).unwrap().unwrap(),
        "http://sg.idealworld.group/other_iam?name=sg".to_string()
    );

    // with math inst
    let exact_match_inst = SgHttpRouteMatchInst {
        path: Some(SgHttpPathMatchInst {
            kind: SgHttpPathMatchType::Exact,
            value: "/iam".to_string(),
            regular: None,
        }),
        ..Default::default()
    };
    let prefix_match_inst = SgHttpRouteMatchInst {
        path: Some(SgHttpPathMatchInst {
            kind: SgHttpPathMatchType::Prefix,
            value: "/iam".to_string(),
            regular: None,
        }),
        ..Default::default()
    };
    let regular_match_inst = SgHttpRouteMatchInst {
        path: Some(SgHttpPathMatchInst {
            kind: SgHttpPathMatchType::Regular,
            value: "(/[a-z]+)".to_string(),
            regular: Some(SgRegex::new("(/[a-z]+)").unwrap()),
        }),
        ..Default::default()
    };
    assert_eq!(
        http_common_modify_path(url, &Some(path_prefix_modifier.clone()), Some(&exact_match_inst)).unwrap().unwrap(),
        "http://sg.idealworld.group/new_iam?name=sg".to_string()
    );
    assert_eq!(
        http_common_modify_path(url, &Some(path_prefix_modifier.clone()), Some(&prefix_match_inst)).unwrap().unwrap(),
        "http://sg.idealworld.group/new_iam/ct/001?name=sg".to_string()
    );
    assert_eq!(
        http_common_modify_path(url, &Some(path_prefix_modifier), Some(&regular_match_inst)).unwrap().unwrap(),
        "http://sg.idealworld.group/new_iam/ct/001?name=sg".to_string()
    );
}

#[test]
fn modify_path_errors() {
    let m = SgHttpPathModifier { kind: SgHttpPathModifierType::ReplaceFullPath, value: "/x".to_string() };
    // not an absolute URL
    assert_eq!(http_common_modify_path("/relative/path", &Some(m), None), Err(SgError::FormatError));
    // the path does not start with the matched prefix
    let prefix = SgHttpPathModifier { kind: SgHttpPathModifierType::ReplacePrefixMatch, value: "/n".to_string() };
    let other_prefix = SgHttpRouteMatchInst {
        path: Some(SgHttpPathMatchInst { kind: SgHttpPathMatchType::Prefix, value: "/spi".to_string(), regular: None }),
        ..Default::default()
    };
    assert_eq!(
        http_common_modify_path("http://h/iam/a", &Some(prefix.clone()), Some(&other_prefix)),
        Err(SgError::FormatError)
    );
    // a prefix replaced by a value ending in `/` does not double the slash
    let slash = SgHttpPathModifier { kind: SgHttpPathModifierType::ReplacePrefixMatch, value: "/n/".to_string() };
    let iam = SgHttpRouteMatchInst {
        path: Some(SgHttpPathMatchInst { kind: SgHttpPathMatchType::Prefix, value: "/iam".to_string(), regular: None }),
        ..Default::default()
    };
    assert_eq!(http_common_modify_path("http://h/iam/a", &Some(slash), Some(&iam)).unwrap().unwrap(), "http://h/n/a");
}

#[test]
fn accept_checks_error_responses_and_kinds() {
    let accept = SgPluginFilterAccept::default();
    assert!(accept.before_resp_filter_check(false, SgPluginFilterKind::Http));
    assert!(!accept.before_resp_filter_check(true, SgPluginFilterKind::Http));
    assert!(!accept.before_resp_filter_check(false, SgPluginFilterKind::Ws));
    let all = SgPluginFilterAccept { kind: vec![SgPluginFilterKind::Ws, SgPluginFilterKind::Grpc], accept_error_response: true };
    assert!(all.before_resp_filter_check(true, SgPluginFilterKind::Grpc));
    assert_eq!(SgAttachedLevel::Gateway.as_str(), "GateWay");
    assert_eq!(SgAttachedLevel::Backend.as_str(), "Backend");
}
