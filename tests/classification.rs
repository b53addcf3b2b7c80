use url_tester::outcome::{
    app_error_message, build_app_error_needle, classify_response, transport_failure,
};
use url_tester::plan::Probe;

fn probe() -> Probe {
    Probe {
        environment_name: "dev".to_string(),
        url: "http://d/a?State=s".to_string(),
        state_param: Some("s".to_string()),
    }
}

#[test]
fn success_status_passes() {
    let r = classify_response(probe(), 200, Ok("hello".to_string()), "code", None, None, 7);
    assert!(r.passed);
    assert_eq!(r.status_code, Some(200));
    assert_eq!(r.error_message, None);
    assert_eq!(r.response_body_preview, "hello");
    assert_eq!(r.environment_name, "dev");
    assert_eq!(r.url, "http://d/a?State=s");
    assert_eq!(r.state_param, Some("s".to_string()));
    assert_eq!(r.duration_nanos, 7);
}

#[test]
fn bounds_of_success_range() {
    assert!(classify_response(probe(), 299, Ok(String::new()), "code", None, None, 0).passed);
    assert!(!classify_response(probe(), 199, Ok(String::new()), "code", None, None, 0).passed);
    assert!(!classify_response(probe(), 300, Ok(String::new()), "code", None, None, 0).passed);
}

#[test]
fn failure_status_fails_with_status_text() {
    let body = r#"{"code":"500","message":"x"}"#.to_string();
    let r = classify_response(probe(), 404, Ok(body), "code", Some("500"), None, 0);
    assert!(!r.passed);
    assert_eq!(r.error_message, Some("HTTP Status Error: 404 Not Found".to_string()));
    let r = classify_response(probe(), 503, Ok(String::new()), "code", None, None, 0);
    assert!(r.error_message.unwrap().starts_with("HTTP Status Error: "));
}

#[test]
fn app_error_with_message() {
    let body = r#"{"code":"50000","message":"boom"}"#.to_string();
    let r = classify_response(probe(), 200, Ok(body), "code", Some("50000"), Some("boom".to_string()), 0);
    assert!(!r.passed);
    assert_eq!(r.error_message, Some("App Error (code: 50000): boom".to_string()));
}

#[test]
fn app_error_without_message() {
    let body = r#"xx "errorCode":"7" yy"#.to_string();
    let r = classify_response(probe(), 201, Ok(body), "errorCode", Some("7"), None, 0);
    assert!(!r.passed);
    assert_eq!(r.error_message, Some("App Error (errorCode: 7): message parsing failed.".to_string()));
}

#[test]
fn app_error_not_present_passes() {
    let body = r#"{"code": "50000"}"#.to_string();
    let r = classify_response(probe(), 200, Ok(body), "code", Some("50000"), None, 0);
    assert!(r.passed);
    assert_eq!(r.error_message, None);
}

#[test]
fn body_read_failure_fails_with_its_message() {
    let r = classify_response(probe(), 200, Err("cut".to_string()), "code", Some("1"), None, 0);
    assert!(!r.passed);
    assert_eq!(r.status_code, Some(200));
    assert_eq!(r.response_body_preview, "");
    assert_eq!(r.error_message, Some("Failed to read response body: cut".to_string()));
    let r = classify_response(probe(), 500, Err("cut".to_string()), "code", None, None, 0);
    assert!(!r.passed);
    assert_eq!(r.error_message, Some("HTTP Status Error: 500 Internal Server Error".to_string()));
}

#[test]
fn preview_is_first_hundred_chars() {
    let body: String = "é".repeat(150);
    let r = classify_response(probe(), 200, Ok(body), "code", None, None, 0);
    assert_eq!(r.response_body_preview.chars().count(), 100);
    assert_eq!(r.response_body_preview, "é".repeat(100));
}

#[test]
fn transport_failure_record() {
    let r = transport_failure(probe(), "timed out".to_string(), 10);
    assert!(!r.passed);
    assert_eq!(r.status_code, None);
    assert_eq!(r.error_message, Some("timed out".to_string()));
    assert_eq!(r.response_body_preview, "");
    assert_eq!(r.duration_nanos, 10);
}

#[test]
fn needle_and_message_text() {
    assert_eq!(build_app_error_needle("code", "500"), r#""code":"500""#);
    assert_eq!(app_error_message("k", "c", Some("m".to_string())), "App Error (k: c): m");
    assert_eq!(app_error_message("k", "c", None), "App Error (k: c): message parsing failed.");
}
