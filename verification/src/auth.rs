//! Identity of a sync server caller: the bearer token of the request, the
//! claims of a verified Stack Auth token, and the identity a route gets.

use vstd::prelude::*;
use crate::access::ApiError;
use crate::text::{starts_with_seq, strip_prefix};

verus! {

/// Claims carried by a Stack Auth token that the server relies on.
#[derive(Debug, Clone)]
pub struct StackAuthClaims {
    pub sub: String,
    pub iss: String,
    /// The caller's email, when the token carries one at the top level.
    pub email: Option<String>,
    pub exp: i64,
}

/// The `Authorization` header of a request.
pub enum AuthHeader {
    Missing,
    /// Present, but not made of visible ASCII characters only.
    Unreadable,
    Text(String),
}

/// The token after `Bearer ` in a header value.
pub open spec fn spec_bearer(v: Seq<char>) -> Option<Seq<char>> {
    if starts_with_seq(v, "Bearer "@) {
        Some(v.subrange(7, v.len() as int))
    } else {
        None
    }
}

/// What a header yields: the token, or the message of the `401` refusal.
pub open spec fn spec_bearer_token(h: AuthHeader, unreadable: Seq<char>) -> Result<Seq<char>, Seq<char>> {
    match h {
        AuthHeader::Missing => Err("missing Authorization header"@),
        AuthHeader::Unreadable => Err(unreadable),
        AuthHeader::Text(v) => match spec_bearer(v@) {
            Some(t) => Ok(t),
            None => Err("expected Bearer token"@),
        },
    }
}

/// `r` is the outcome `o`: the same token, or `Unauthorized` with the message.
pub open spec fn token_outcome(r: Result<String, ApiError>, o: Result<Seq<char>, Seq<char>>) -> bool {
    match o {
        Ok(t) => r matches Ok(s) && s@ == t,
        Err(m) => r matches Err(ApiError::Unauthorized(e)) && e@ == m,
    }
}

fn unauthorized(msg: &str) -> (e: ApiError)
    ensures
        e matches ApiError::Unauthorized(m) && m@ == msg@,
{
    ApiError::Unauthorized(String::from_str(msg))
}

fn bearer_token(h: AuthHeader, unreadable: &str) -> (r: Result<String, ApiError>)
    ensures
        token_outcome(r, spec_bearer_token(h, unreadable@)),
{
    proof {
        reveal_strlit("Bearer ");
    }
    match h {
        AuthHeader::Missing => Err(unauthorized("missing Authorization header")),
        AuthHeader::Unreadable => Err(unauthorized(unreadable)),
        AuthHeader::Text(v) => match strip_prefix(v.as_str(), "Bearer ") {
            Some(t) => Ok(t),
            None => Err(unauthorized("expected Bearer token")),
        },
    }
}

/// The bearer token of a request to an authenticated route.
pub fn caller_bearer_token(h: AuthHeader) -> (r: Result<String, ApiError>)
    ensures
        token_outcome(r, spec_bearer_token(h, "bad Authorization header"@)),
{
    bearer_token(h, "bad Authorization header")
}

/// The bearer token of a first sign-in request.
pub fn pre_signup_bearer_token(h: AuthHeader) -> (r: Result<String, ApiError>)
    ensures
        token_outcome(r, spec_bearer_token(h, "bad header"@)),
{
    bearer_token(h, "bad header")
}

/// The caller's email from verified claims; a token without one is refused.
pub fn claims_email(claims: &StackAuthClaims) -> (r: Result<String, ApiError>)
    ensures
        match claims.email {
            Some(e) => r == Ok::<String, ApiError>(e),
            None => r matches Err(ApiError::Unauthorized(m)) && m@ == "token missing email claim"@,
        },
{
    match &claims.email {
        Some(e) => Ok(e.clone()),
        None => Err(unauthorized("token missing email claim")),
    }
}

/// The caller's profile row, which a first sign-in creates; a caller
/// without one is refused.
pub fn require_profile<T>(row: Option<T>) -> (r: Result<T, ApiError>)
    ensures
        match row {
            Some(x) => r == Ok::<T, ApiError>(x),
            None => r matches Err(ApiError::SignupRequired(m))
                && m@ == "no audire profile yet — POST /v1/users/me first"@,
        },
{
    match row {
        Some(x) => Ok(x),
        None => Err(ApiError::SignupRequired(String::from_str("no audire profile yet — POST /v1/users/me first"))),
    }
}

/// The verified identity of a first sign-in request.
#[derive(Debug)]
pub struct PreSignupIdentity {
    /// The Stack Auth user id, as the 16 bytes of a UUID.
    pub stack_user_id: [u8; 16],
    pub email: String,
}

/// The 16 bytes of the UUID that `uuid::Uuid::parse_str` reads from the
/// text, or `None` where it refuses it.
pub uninterp spec fn uuid_parsed(s: Seq<char>) -> Option<Seq<u8>>;

/// Calls `uuid::Uuid::parse_str`. Claimed: the result is the UUID that the
/// function reads from the text, as a function of the text alone.
#[verifier::external_body]
fn parse_uuid(s: &str) -> (r: Option<[u8; 16]>)
    ensures
        match r {
            Some(b) => uuid_parsed(s@) == Some(b@),
            None => uuid_parsed(s@) is None,
        },
{
    match uuid::Uuid::parse_str(s) {
        Ok(u) => Some(*u.as_bytes()),
        Err(_) => None,
    }
}

/// The identity from the parsed `sub` claim and the email claim: the
/// `sub` must be a UUID, then an email must be present.
pub fn identity_from(parsed_sub: Option<[u8; 16]>, email: Option<String>) -> (r: Result<PreSignupIdentity, ApiError>)
    ensures
        match (parsed_sub, email) {
            (None, _) => r matches Err(ApiError::Unauthorized(m)) && m@ == "sub claim is not a UUID"@,
            (Some(_), None) => r matches Err(ApiError::Unauthorized(m)) && m@ == "token missing email claim"@,
            (Some(id), Some(e)) => r matches Ok(p) && p.stack_user_id@ == id@ && p.email == e,
        },
{
    match parsed_sub {
        None => Err(unauthorized("sub claim is not a UUID")),
        Some(id) => match email {
            None => Err(unauthorized("token missing email claim")),
            Some(e) => Ok(PreSignupIdentity { stack_user_id: id, email: e }),
        },
    }
}

/// The identity of a first sign-in from verified claims.
pub fn pre_signup_identity(claims: StackAuthClaims) -> (r: Result<PreSignupIdentity, ApiError>)
    ensures
        match (uuid_parsed(claims.sub@), claims.email) {
            (None, _) => r matches Err(ApiError::Unauthorized(m)) && m@ == "sub claim is not a UUID"@,
            (Some(_), None) => r matches Err(ApiError::Unauthorized(m)) && m@ == "token missing email claim"@,
            (Some(id), Some(e)) => r matches Ok(p) && p.stack_user_id@ == id && p.email == e,
        },
{
    let parsed = parse_uuid(claims.sub.as_str());
    identity_from(parsed, claims.email)
}

} // verus!
