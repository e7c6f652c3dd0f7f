//! Authentication-facing data: token claims, the JWT service's
//! configuration holder, and the request and response bodies of the
//! authentication endpoints.
//!
//! Token signing and verification themselves happen in the surrounding
//! program; the core only defines the shapes it exchanges with it.

use vstd::prelude::*;
use crate::config::JwtConfig;

verus! {

/// Claims carried by an access token.
#[derive(Debug)]
pub struct Claims {
    pub sub: String,
    pub email: String,
    pub role: String,
    pub exp: i64,
    pub iat: i64,
}

/// Holds the JWT configuration for the token operations the surrounding
/// program performs.
#[derive(Debug, Clone)]
pub struct JwtService {
    pub config: JwtConfig,
}

impl JwtService {
    pub fn new(config: JwtConfig) -> (s: Self)
        ensures
            s.config.secret@ == config.secret@,
            s.config.access_expiry == config.access_expiry,
            s.config.refresh_expiry == config.refresh_expiry,
    {
        Self { config }
    }
}

#[derive(Debug)]
pub struct RegisterRequest {
    pub email: String,
    pub password: String,
    pub full_name: String,
    pub city: String,
    pub country: String,
}

#[derive(Debug)]
pub struct MessageResponse {
    pub message: String,
}

#[derive(Debug)]
pub struct RefreshTokenRequest {
    pub refresh_token: String,
}

#[derive(Debug)]
pub struct RefreshTokenResponse {
    pub access_token: String,
}

#[derive(Debug)]
pub struct VerifyEmailRequest {
    pub token: String,
}

#[derive(Debug)]
pub struct ResendVerificationRequest {
    pub email: String,
}

#[derive(Debug)]
pub struct ForgotPasswordRequest {
    pub email: String,
}

#[derive(Debug)]
pub struct ResetPasswordRequest {
    pub token: String,
    pub new_password: String,
}

#[derive(Debug)]
pub struct OAuthCallback {
    pub code: String,
    pub state: String,
}

#[derive(Debug)]
pub struct OAuthLoginResponse {
    pub auth_url: String,
}

#[derive(Debug, Clone)]
pub struct OAuthUserInfo {
    pub email: String,
    pub name: Option<String>,
    pub picture: Option<String>,
    pub email_verified: bool,
    pub oauth_subject: String,
}

} // verus!
