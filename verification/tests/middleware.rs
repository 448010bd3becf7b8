use website_screenshot::error::Error;
use website_screenshot::middlewares::{Auth, AuthDecision, GUARDED_PATH};

fn decide(token: Option<&str>, path: &str, header: Option<&str>) -> AuthDecision {
    let layer = Auth.new_transform(());
    layer.call(token, path, header)
}

#[test]
fn test_screenshot_auth() {
    let d = decide(Some("very_secure_token"), "/screenshot", Some("very_secure_token"));
    assert_eq!(d, AuthDecision::Forward);
}

#[test]
fn test_screenshot_auth_missing() {
    let d = decide(Some("very_secure_token"), "/screenshot", None);
    assert_eq!(d, AuthDecision::Reject(Error::MissingAuthToken));
    match d {
        AuthDecision::Reject(e) => {
            assert_eq!(e.status_code(), 400);
            assert_eq!(
                e.to_string(),
                "Authentication was enabled but the \"Authorization\" header was not present."
            );
        },
        AuthDecision::Forward => panic!("expected a refusal"),
    }
}

#[test]
fn test_screenshot_auth_invalid() {
    let d = decide(Some("very_secure_token"), "/screenshot", Some("not_a_valid_token"));
    assert_eq!(d, AuthDecision::Reject(Error::Unauthorized));
    match d {
        AuthDecision::Reject(e) => {
            assert_eq!(e.status_code(), 401);
            assert_eq!(e.to_string(), "Invalid token provided.");
        },
        AuthDecision::Forward => panic!("expected a refusal"),
    }
}

#[test]
fn auth_disabled_without_token() {
    assert_eq!(decide(None, "/screenshot", None), AuthDecision::Forward);
    assert_eq!(decide(None, "/screenshot", Some("anything")), AuthDecision::Forward);
}

#[test]
fn auth_guards_only_the_screenshot_route() {
    assert_eq!(GUARDED_PATH, "/screenshot");
    assert_eq!(decide(Some("t"), "/", None), AuthDecision::Forward);
    assert_eq!(decide(Some("t"), "/s/abc", Some("wrong")), AuthDecision::Forward);
    assert_eq!(decide(Some("t"), "/screenshot/", None), AuthDecision::Forward);
}

#[test]
fn auth_middleware_keeps_the_wrapped_service() {
    let layer = Auth.new_transform(42u32);
    assert_eq!(*layer.service(), 42u32);
}
