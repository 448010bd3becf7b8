use vstd::prelude::*;
use crate::error::Error;

verus! {

/// The only path that authentication guards.
pub const GUARDED_PATH: &'static str = "/screenshot";

/// What the authentication layer does with a request.
#[derive(Debug, Clone, Copy, PartialEq, Eq, Structural)]
pub enum AuthDecision {
    /// Hand the request on to the service.
    Forward,
    /// Answer the request with this error instead.
    Reject(Error),
}

/// The authentication rule: when a token is configured, a request to the
/// guarded path must carry an `Authorization` header equal to it; a missing
/// header and a wrong one are told apart. Every other request goes through.
pub open spec fn auth_decision(
    auth_token: Option<Seq<char>>,
    path: Seq<char>,
    auth_header: Option<Seq<char>>,
) -> AuthDecision {
    match auth_token {
        Some(token) => if path == GUARDED_PATH@ {
            match auth_header {
                Some(h) => if token != h {
                    AuthDecision::Reject(Error::Unauthorized)
                } else {
                    AuthDecision::Forward
                },
                None => AuthDecision::Reject(Error::MissingAuthToken),
            }
        } else {
            AuthDecision::Forward
        },
        None => AuthDecision::Forward,
    }
}

/// The view of an optional string.
pub open spec fn opt_view(s: Option<&str>) -> Option<Seq<char>> {
    match s {
        Some(t) => Some(t@),
        None => None,
    }
}

/// The authentication layer, enabled when an `AUTH_TOKEN` is configured.
#[derive(Debug)]
pub struct Auth;

/// The authentication layer wrapped around a service.
#[derive(Debug)]
pub struct AuthMiddleware<S> {
    service: S,
}

impl Auth {
    /// Wraps `service` in the authentication layer.
    pub fn new_transform<S>(&self, service: S) -> (m: AuthMiddleware<S>)
        ensures
            m.inner() == service,
    {
        AuthMiddleware { service }
    }
}

impl<S> AuthMiddleware<S> {
    /// The wrapped service.
    pub closed spec fn inner(&self) -> S {
        self.service
    }

    /// The wrapped service.
    pub fn service(&self) -> (s: &S)
        ensures
            *s == self.inner(),
    {
        &self.service
    }

    /// Decides a request to `path` that carries `auth_header` (the text of its
    /// `Authorization` header, if any), when the configured token is `auth_token`.
    pub fn call(&self, auth_token: Option<&str>, path: &str, auth_header: Option<&str>) -> (d: AuthDecision)
        ensures
            d == auth_decision(opt_view(auth_token), path@, opt_view(auth_header)),
    {
        match auth_token {
            Some(token) => {
                if path.to_owned() == GUARDED_PATH.to_owned() {
                    match auth_header {
                        Some(h) => {
                            if token.to_owned() != h.to_owned() {
                                AuthDecision::Reject(Error::Unauthorized)
                            } else {
                                AuthDecision::Forward
                            }
                        },
                        None => AuthDecision::Reject(Error::MissingAuthToken),
                    }
                } else {
                    AuthDecision::Forward
                }
            },
            None => AuthDecision::Forward,
        }
    }
}

/// Authentication only ever guards the screenshot route, only when a token is
/// configured, and lets a request through there exactly when its header
/// equals the token; a refused request is answered 400 when the header is
/// missing and 401 when it is wrong.
pub proof fn lemma_auth_guards_only_screenshots(
    auth_token: Option<Seq<char>>,
    path: Seq<char>,
    auth_header: Option<Seq<char>>,
)
    ensures
        auth_token is None ==> auth_decision(auth_token, path, auth_header) == AuthDecision::Forward,
        path != GUARDED_PATH@ ==> auth_decision(auth_token, path, auth_header) == AuthDecision::Forward,
        auth_token is Some && path == GUARDED_PATH@ ==> (auth_decision(auth_token, path, auth_header)
            == AuthDecision::Forward <==> auth_header == auth_token),
        auth_decision(auth_token, path, auth_header) matches AuthDecision::Reject(e) ==> (
            crate::error::error_status(e) == 400 <==> auth_header is None),
{
}

} // verus!
