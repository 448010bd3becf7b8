use website_screenshot::error::Error;

#[test]
fn error_status_codes() {
    assert_eq!(Error::InvalidUrl.status_code(), 400);
    assert_eq!(Error::MissingAuthToken.status_code(), 400);
    assert_eq!(Error::Unauthorized.status_code(), 401);
    assert_eq!(Error::ScreenshotNotFound.status_code(), 404);
    assert_eq!(Error::UrlNotSafeForWork.status_code(), 403);
    assert_eq!(Error::TooManyRedirects.status_code(), 413);
    assert_eq!(Error::FailedToConnect.status_code(), 400);
    assert_eq!(Error::WebsiteError.status_code(), 400);
}

#[test]
fn error_messages() {
    assert_eq!(Error::InvalidUrl.to_string(), "The url that you provided was invalid.");
    assert_eq!(
        Error::MissingAuthToken.to_string(),
        "Authentication was enabled but the \"Authorization\" header was not present."
    );
    assert_eq!(Error::Unauthorized.to_string(), "Invalid token provided.");
    assert_eq!(Error::ScreenshotNotFound.to_string(), "The screenshot with that slug can't be found.");
    assert_eq!(Error::UrlNotSafeForWork.to_string(), "The url provided is marked as NSFW.");
    assert_eq!(Error::TooManyRedirects.to_string(), "The url provided has too many redirects.");
    assert_eq!(Error::FailedToConnect.to_string(), "Failed to connect to the url provided.");
    assert_eq!(Error::WebsiteError.to_string(), "An error occured when accessing the website.");
    assert_eq!(Error::Unauthorized.message(), "Invalid token provided.");
}

#[test]
fn errors_are_client_errors() {
    let all = [
        Error::InvalidUrl,
        Error::MissingAuthToken,
        Error::Unauthorized,
        Error::ScreenshotNotFound,
        Error::UrlNotSafeForWork,
        Error::TooManyRedirects,
        Error::FailedToConnect,
        Error::WebsiteError,
    ];
    for e in all.iter() {
        let code = e.status_code();
        assert!((400..500).contains(&code));
        assert!(!e.message().is_empty());
    }
}
