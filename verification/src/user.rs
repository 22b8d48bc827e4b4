//! Accounts and session claims: what the sign-up, sign-in and identity
//! endpoints decide once the store and the token library have done their part.

use vstd::prelude::*;
use vstd::string::StringExecFns;
use crate::error::ApiError;

verus! {

/// The body of a sign-up or sign-in request.
pub struct UserRequest {
    pub username: String,
    pub password: String,
}

/// The answer to a sign-up.
pub struct UserResponse {
    pub id: String,
}

/// The answer to a sign-in.
pub struct SigninResponse {
    token: String,
}

/// The claims that a session token carries.
pub struct Claims {
    /// The identifier of the user the token was issued to.
    pub sub: String,
    /// When the token expires, in seconds since the epoch.
    pub exp: u64,
}

/// The claims of the token that a request came with.
pub struct JwtClaims(pub Claims);

/// What became of the credentials that a request came with.
pub enum Credentials {
    /// The request had no usable `Authorization` header.
    Missing,
    /// The header held a token that did not verify.
    Rejected,
    /// The header held a token that verified, with these claims.
    Verified(Claims),
}

/// The expiry given to every session token.
pub const SESSION_EXPIRY: u64 = 10000000000000000000;

impl Claims {
    /// The claims of a session token for the user `sub`.
    pub fn new(sub: String) -> (claims: Self)
        ensures
            claims.sub@ == sub@,
            claims.exp == SESSION_EXPIRY,
    {
        Self { sub, exp: SESSION_EXPIRY }
    }
}

impl SigninResponse {
    /// The answer that carries `token`.
    pub fn new(token: String) -> (response: Self)
        ensures
            response.spec_token() == token@,
    {
        SigninResponse { token }
    }

    pub closed spec fn spec_token(&self) -> Seq<char> {
        self.token@
    }

    /// The session token.
    pub fn token(&self) -> (token: &String)
        ensures
            token@ == self.spec_token(),
    {
        &self.token
    }
}

impl JwtClaims {
    /// The claims that a request is taken to come with: those of a verified
    /// token. A request without a usable header, or with a token that did not
    /// verify, is unauthorized.
    pub fn from_request(credentials: Credentials) -> (claims: Result<JwtClaims, ApiError>)
        ensures
            match credentials {
                Credentials::Verified(verified) => claims matches Ok(found) && found.0
                    == verified,
                Credentials::Rejected => claims matches Err(ApiError::Unauthorized(reason))
                    && reason@ == "Invalid JWT token"@,
                Credentials::Missing => claims matches Err(ApiError::Unauthorized(reason))
                    && reason@ == "Authorization header missing or invalid"@,
            },
    {
        match credentials {
            Credentials::Verified(verified) => Ok(JwtClaims(verified)),
            Credentials::Rejected => Err(ApiError::Unauthorized("Invalid JWT token".to_owned())),
            Credentials::Missing => Err(
                ApiError::Unauthorized("Authorization header missing or invalid".to_owned()),
            ),
        }
    }
}

/// Lets a request through to a protected endpoint with the claims it came
/// with, or refuses it as unauthorized, whatever the reason was.
pub fn check_user(extracted: Result<JwtClaims, ApiError>) -> (claims: Result<Claims, ApiError>)
    ensures
        match extracted {
            Ok(found) => claims == Ok::<Claims, ApiError>(found.0),
            Err(_) => claims matches Err(ApiError::Unauthorized(reason)) && reason@
                == "Invalid or missing token"@,
        },
{
    match extracted {
        Ok(found) => Ok(found.0),
        Err(_) => Err(ApiError::Unauthorized("Invalid or missing token".to_owned())),
    }
}

/// Answers a sign-up, given the identifier under which the store created the
/// user or the reason why it did not.
pub fn create_user(created: Result<String, String>) -> (response: Result<UserResponse, ApiError>)
    ensures
        match created {
            Ok(id) => response matches Ok(user) && user.id@ == id@,
            Err(reason) => response matches Err(ApiError::Conflict(given)) && given@ == reason@,
        },
{
    match created {
        Ok(id) => Ok(UserResponse { id }),
        Err(reason) => Err(ApiError::Conflict(reason)),
    }
}

/// What the store keeps of a user, as far as a sign-in reads it.
pub struct StoredUser {
    pub id: String,
    pub password: String,
}

/// Decides a sign-in, given what the store holds for the user named in the
/// request, or the reason why it found none: the claims to issue a token for,
/// if the user is there and the request's password is the stored one.
pub fn sign_in(found: Result<StoredUser, String>, body: &UserRequest) -> (claims: Result<
    Claims,
    ApiError,
>)
    ensures
        match found {
            Err(reason) => claims matches Err(ApiError::Unauthorized(given)) && given@
                == reason@,
            Ok(user) => if user.password@ == body.password@ {
                claims matches Ok(issued) && issued.sub@ == user.id@ && issued.exp
                    == SESSION_EXPIRY
            } else {
                claims matches Err(ApiError::Unauthorized(given)) && given@
                    == "Incorrect password"@
            },
        },
{
    match found {
        Err(reason) => Err(ApiError::Unauthorized(reason)),
        Ok(user) => {
            if user.password != body.password {
                return Err(ApiError::Unauthorized("Incorrect password".to_owned()));
            }
            Ok(Claims::new(user.id))
        },
    }
}

/// Answers a sign-in, given the token that was issued or the reason why none
/// could be.
pub fn signed_in(issued: Result<String, String>) -> (response: Result<SigninResponse, ApiError>)
    ensures
        match issued {
            Ok(token) => response matches Ok(answer) && answer.spec_token() == token@,
            Err(reason) => response matches Err(ApiError::Internal(given)) && given@ == reason@,
        },
{
    match issued {
        Ok(token) => Ok(SigninResponse::new(token)),
        Err(reason) => Err(ApiError::Internal(reason)),
    }
}

/// What a user is greeted with.
pub open spec fn hello_text(sub: Seq<char>) -> Seq<char> {
    "Hello User, "@ + sub
}

/// Greets the user that a request's claims name. A request that reached the
/// endpoint without claims is unauthorized.
pub fn me(claims: Option<&Claims>) -> (body: Result<String, ApiError>)
    ensures
        match claims {
            Some(found) => body matches Ok(text) && text@ == hello_text(found.sub@),
            None => body matches Err(ApiError::Unauthorized(reason)) && reason@
                == "No Claims From Jwt"@,
        },
{
    match claims {
        Some(found) => {
            let mut text = "Hello User, ".to_owned();
            text.append(found.sub.as_str());
            Ok(text)
        },
        None => Err(ApiError::Unauthorized("No Claims From Jwt".to_owned())),
    }
}

} // verus!
