use spacegate_kernel::functions::server::{error_response, error_status_of, into_http_error};
use spacegate_kernel::text::parse_u16;

#[test]
fn error_with_status_code() {
    let (status, headers, body) = into_http_error("404", "not found");
    assert_eq!(status, 404);
    assert_eq!(headers, vec![("content-type".to_string(), "application/json".to_string())]);
    assert_eq!(body, r#"{"code":"404","msg":"not found"}"#);
}

#[test]
fn error_message_is_escaped() {
    let (status, _, body) = into_http_error("502", "bad \"gateway\"\n");
    assert_eq!(status, 502);
    assert_eq!(body, r#"{"code":"502","msg":"bad \"gateway\"\n"}"#);
}

#[test]
fn error_codes_that_are_no_status() {
    assert_eq!(error_status_of("2000"), 500);
    assert_eq!(error_status_of("99"), 500);
    assert_eq!(error_status_of("+302"), 302);
    assert_eq!(error_status_of("999"), 999);
    assert_eq!(error_status_of("100"), 100);
}

#[test]
fn error_codes_that_are_no_number() {
    assert_eq!(error_status_of("2xx"), 200);
    assert_eq!(error_status_of("3-redirect"), 200);
    assert_eq!(error_status_of("404-route"), 400);
    assert_eq!(error_status_of("-404"), 500);
    assert_eq!(error_status_of("abc"), 500);
    assert_eq!(error_status_of(""), 500);
    assert_eq!(error_status_of("99999"), 500);
}

#[test]
fn error_response_frames_texts() {
    let (status, _, body) = error_response("400", "1", "2");
    assert_eq!(status, 400);
    assert_eq!(body, r#"{"code":1,"msg":2}"#);
}

#[test]
fn parse_u16_as_std() {
    for s in ["0", "65535", "65536", "+7", "+", "-1", "", " 1", "1 ", "007", "1_0", "x"] {
        assert_eq!(parse_u16(s), s.parse::<u16>().ok(), "{}", s);
    }
}

#[test]
fn error_message_control_characters() {
    let (_, _, body) = into_http_error("500", "a\u{1}b\u{1f}\t\u{7f}é\\");
    assert_eq!(body, "{\"code\":\"500\",\"msg\":\"a\\u0001b\\u001f\\t\u{7f}é\\\\\"}");
}
