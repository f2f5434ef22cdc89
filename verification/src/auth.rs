use crate::models::{HubError, Id};
use vstd::prelude::*;

verus! {

/// The principal of a session: who the user is, and the second since the
/// Unix epoch at which the session ends.
#[derive(Debug, PartialEq, Eq)]
pub struct JwtUser {
    pub id: Id,
    pub username: String,
    pub exp: u64,
}

/// How long a session lasts, in seconds: a day.
pub const SESSION_SECONDS: u64 = 86_400;

/// The second at which a session that begins at `now` ends; the last second
/// that can be written, where the day would pass it.
pub open spec fn spec_session_end(now: u64) -> u64 {
    if now + SESSION_SECONDS <= u64::MAX {
        (now + SESSION_SECONDS) as u64
    } else {
        u64::MAX
    }
}

/// The principal of a session that begins at `now`.
pub fn session_claims(user_id: Id, username: String, now: u64) -> (claims: JwtUser)
    ensures
        claims == (JwtUser { id: user_id, username, exp: spec_session_end(now) }),
{
    JwtUser { id: user_id, username, exp: now.saturating_add(SESSION_SECONDS) }
}

/// Whom a request is admitted as. `claims` is what the session cookie holds,
/// `None` where the request has no cookie or its signature is not the hub's.
/// A session that has ended admits nobody.
pub open spec fn spec_admit(claims: Option<JwtUser>, now: u64) -> Result<JwtUser, HubError> {
    match claims {
        Some(principal) if principal.exp > now => Ok(principal),
        _ => Err(HubError::Unauthorized),
    }
}

/// The guard before every request that needs a session.
#[derive(Clone, Copy, Debug, Default)]
pub struct AuthMiddleware;

/// A service behind the guard.
#[derive(Debug)]
pub struct AuthMiddlewareService<S> {
    pub service: S,
}

impl AuthMiddleware {
    /// Puts a service behind the guard.
    pub fn new_transform<S>(&self, service: S) -> (guarded: AuthMiddlewareService<S>)
        ensures
            guarded.service == service,
    {
        AuthMiddlewareService { service }
    }
}

impl<S> AuthMiddlewareService<S> {
    /// Admits a request as the principal of its session, or rejects it as
    /// unauthorized.
    pub fn call(&self, claims: Option<JwtUser>, now: u64) -> (admitted: Result<JwtUser, HubError>)
        ensures
            admitted == spec_admit(claims, now),
    {
        match claims {
            Some(principal) => if principal.exp > now {
                Ok(principal)
            } else {
                Err(HubError::Unauthorized)
            },
            None => Err(HubError::Unauthorized),
        }
    }
}

/// The cookie that carries a session.
#[derive(Debug, PartialEq, Eq)]
pub struct SessionCookie {
    pub name: &'static str,
    pub value: String,
    pub path: &'static str,
    pub http_only: bool,
    /// How long the client keeps the cookie, in seconds.
    pub max_age: u64,
}

/// The name of the session cookie.
pub const SESSION_COOKIE: &'static str = "session";

/// The cookie for a session token: named `session`, for every path, hidden
/// from scripts, kept for a day.
pub fn session_cookie(token: String) -> (cookie: SessionCookie)
    ensures
        cookie.name@ == SESSION_COOKIE@,
        cookie.value == token,
        cookie.path@ == "/"@,
        cookie.http_only,
        cookie.max_age == SESSION_SECONDS,
{
    SessionCookie {
        name: SESSION_COOKIE,
        value: token,
        path: "/",
        http_only: true,
        max_age: SESSION_SECONDS,
    }
}

} // verus!
