use vstd::prelude::*;

verus! {

/// The errors that the service answers a request with.
#[derive(Debug, Clone, Copy, PartialEq, Eq, Structural)]
pub enum Error {
    InvalidUrl,
    MissingAuthToken,
    Unauthorized,
    ScreenshotNotFound,
    UrlNotSafeForWork,
    TooManyRedirects,
    FailedToConnect,
    WebsiteError,
}

/// The HTTP status that answers each error.
pub open spec fn error_status(e: Error) -> u16 {
    match e {
        Error::InvalidUrl | Error::MissingAuthToken | Error::FailedToConnect
        | Error::WebsiteError => 400,
        Error::Unauthorized => 401,
        Error::ScreenshotNotFound => 404,
        Error::UrlNotSafeForWork => 403,
        Error::TooManyRedirects => 413,
    }
}

/// The plain-text body that answers each error.
pub open spec fn error_message(e: Error) -> Seq<char> {
    match e {
        Error::InvalidUrl => "The url that you provided was invalid."@,
        Error::MissingAuthToken =>
            "Authentication was enabled but the \"Authorization\" header was not present."@,
        Error::Unauthorized => "Invalid token provided."@,
        Error::ScreenshotNotFound => "The screenshot with that slug can't be found."@,
        Error::UrlNotSafeForWork => "The url provided is marked as NSFW."@,
        Error::TooManyRedirects => "The url provided has too many redirects."@,
        Error::FailedToConnect => "Failed to connect to the url provided."@,
        Error::WebsiteError => "An error occured when accessing the website."@,
    }
}

impl Error {
    /// The HTTP status code of the answer to this error.
    pub fn status_code(&self) -> (code: u16)
        ensures
            code == error_status(*self),
    {
        match self {
            Error::InvalidUrl | Error::MissingAuthToken | Error::FailedToConnect
            | Error::WebsiteError => 400,
            Error::Unauthorized => 401,
            Error::ScreenshotNotFound => 404,
            Error::UrlNotSafeForWork => 403,
            Error::TooManyRedirects => 413,
        }
    }

    /// The text shown to the client for this error.
    pub fn message(&self) -> (text: &'static str)
        ensures
            text@ == error_message(*self),
    {
        match self {
            Error::InvalidUrl => "The url that you provided was invalid.",
            Error::MissingAuthToken =>
                "Authentication was enabled but the \"Authorization\" header was not present.",
            Error::Unauthorized => "Invalid token provided.",
            Error::ScreenshotNotFound => "The screenshot with that slug can't be found.",
            Error::UrlNotSafeForWork => "The url provided is marked as NSFW.",
            Error::TooManyRedirects => "The url provided has too many redirects.",
            Error::FailedToConnect => "Failed to connect to the url provided.",
            Error::WebsiteError => "An error occured when accessing the website.",
        }
    }

    /// The message as an owned string, as the client receives it.
    pub fn to_string(&self) -> (text: String)
        ensures
            text@ == error_message(*self),
    {
        self.message().to_owned()
    }
}

/// Every error is answered with a client-error status (4xx), and the
/// authentication failures are told apart by status: a missing header is a bad
/// request, a wrong token is unauthorized.
pub proof fn lemma_errors_are_client_errors(e: Error)
    ensures
        400 <= error_status(e) < 500,
        error_status(Error::MissingAuthToken) == 400,
        error_status(Error::Unauthorized) == 401,
        error_message(e).len() > 0,
{
    reveal_strlit("The url that you provided was invalid.");
    reveal_strlit("Authentication was enabled but the \"Authorization\" header was not present.");
    reveal_strlit("Invalid token provided.");
    reveal_strlit("The screenshot with that slug can't be found.");
    reveal_strlit("The url provided is marked as NSFW.");
    reveal_strlit("The url provided has too many redirects.");
    reveal_strlit("Failed to connect to the url provided.");
    reveal_strlit("An error occured when accessing the website.");
}

} // verus!
