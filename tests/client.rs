use canvas_scraper::client::{authorization_value, normalize_domain, USER_AGENT, starts_with_scheme, CanvasScraper, ConfigError, RequestError};
use canvas_scraper::cursor::CursorStep;

#[test]
fn domain_without_scheme_gets_https() {
    assert_eq!(normalize_domain("canvas.ust.hk"), "https://canvas.ust.hk");
    assert_eq!(normalize_domain("localhost:8080"), "https://localhost:8080");
    assert_eq!(normalize_domain(""), "https://");
}

#[test]
fn domain_with_scheme_is_kept() {
    assert_eq!(normalize_domain("https://canvas.ust.hk"), "https://canvas.ust.hk");
    assert_eq!(normalize_domain("http://canvas.test"), "http://canvas.test");
    assert_eq!(normalize_domain("https://"), "https://");
}

#[test]
fn scheme_detection() {
    assert!(starts_with_scheme("https://x"));
    assert!(starts_with_scheme("svn+ssh://x"));
    assert!(!starts_with_scheme("canvas.ust.hk"));
    assert!(!starts_with_scheme("://x"));
    assert!(!starts_with_scheme("1http://x"));
    assert!(!starts_with_scheme("https:/x"));
}

#[test]
fn new_keeps_domain_and_token() {
    let s = CanvasScraper::new("canvas.ust.hk", "SECRET-REDACTED").unwrap();
    assert_eq!(s.domain(), "https://canvas.ust.hk");
    assert_eq!(s.access_token(), "SECRET-REDACTED");
    assert_eq!(s.authorization(), "Bearer SECRET-REDACTED");
    assert_eq!(s.user_agent(), "candroid/6.19.0 (123456)");
    assert_eq!(s.user_agent(), USER_AGENT);
}

#[test]
fn authorization_value_is_bearer_token() {
    assert_eq!(authorization_value("abc"), "Bearer abc");
    assert_eq!(authorization_value(""), "Bearer ");
}

#[test]
fn new_rejects_token_with_control_characters() {
    assert_eq!(CanvasScraper::new("canvas.ust.hk", "abc\ndef").err(), Some(ConfigError::InvalidToken));
    assert_eq!(CanvasScraper::new("canvas.ust.hk", "abc\u{7f}").err(), Some(ConfigError::InvalidToken));
}

#[test]
fn new_accepts_tab_and_non_ascii_in_token() {
    assert!(CanvasScraper::new("canvas.ust.hk", "a\tb").is_ok());
    assert!(CanvasScraper::new("canvas.ust.hk", "t\u{e9}st").is_ok());
}

#[test]
fn new_rejects_unparseable_domain() {
    assert_eq!(CanvasScraper::new("exa mple.com", "tok").err(), Some(ConfigError::InvalidDomain));
    assert_eq!(CanvasScraper::new("", "tok").err(), Some(ConfigError::InvalidDomain));
}

#[test]
fn endpoint_segments_are_appended_in_order() {
    let s = CanvasScraper::new("canvas.ust.hk", "tok").unwrap();
    let ab = s.endpoint_url(vec!["a", "b"]).unwrap();
    let ba = s.endpoint_url(vec!["b", "a"]).unwrap();
    assert_eq!(ab, "https://canvas.ust.hk/a/b");
    assert_eq!(ba, "https://canvas.ust.hk/b/a");
    assert_ne!(ab, ba);
}

#[test]
fn endpoint_segments_are_percent_encoded() {
    let s = CanvasScraper::new("canvas.ust.hk", "tok").unwrap();
    assert_eq!(s.endpoint_url(vec!["a/b", "c d"]).unwrap(), "https://canvas.ust.hk/a%2Fb/c%20d");
}

#[test]
fn profile_url() {
    let s = CanvasScraper::new("https://canvas.ust.hk", "tok").unwrap();
    assert_eq!(s.user_profile_url().unwrap(), "https://canvas.ust.hk/api/v1/users/self");
}

#[test]
fn courses_cursor_starts_at_courses() {
    let s = CanvasScraper::new("canvas.ust.hk", "tok").unwrap();
    let mut c = s.get_courses().unwrap();
    match c.next_step() {
        CursorStep::Fetch(u) => assert_eq!(u, "https://canvas.ust.hk/api/v1/courses"),
        _ => panic!("expected a fetch"),
    }
}

#[test]
fn request_error_is_comparable() {
    assert_eq!(RequestError::NonExtendableBase, RequestError::NonExtendableBase);
}
