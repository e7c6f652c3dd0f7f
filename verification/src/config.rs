//! Configuration records for the service.
//!
//! Only `ScoringConfig` carries rules the core computes with; the remaining
//! records configure collaborators (server, store, mail, rate limits, object
//! storage) and are plain data that the surrounding program fills in.

use vstd::prelude::*;

verus! {

#[derive(Debug, Clone)]
pub struct ServerConfig {
    pub host: String,
    pub port: u16,
}

#[derive(Debug, Clone)]
pub struct DatabaseConfig {
    pub url: String,
}

#[derive(Debug, Clone)]
pub struct JwtConfig {
    pub secret: String,
    pub access_expiry: i64,
    pub refresh_expiry: i64,
}

#[derive(Debug, Clone)]
pub struct OAuthConfig {
    pub google_client_id: String,
    pub google_client_secret: String,
    pub google_redirect_uri: String,
}

#[derive(Debug, Clone)]
pub struct EmailConfig {
    pub smtp_host: String,
    pub smtp_port: u16,
    pub smtp_username: String,
    pub smtp_password: String,
    pub smtp_from_email: String,
    pub smtp_from_name: String,
    pub verification_expiry_hours: i64,
    pub password_reset_expiry_hours: i64,
    pub frontend_url: String,
}

#[derive(Debug, Clone, Copy, PartialEq, Eq, Structural)]
pub struct RateLimitConfig {
    pub auth_per_min: u32,
    pub reports_per_hour: u32,
    pub verifications_per_hour: u32,
    pub general_per_min: u32,
    pub email_verification_per_hour: u32,
    pub password_reset_per_hour: u32,
}

/// The scoring rules: thresholds for the verification quorum and the point
/// values of the bonuses.
#[derive(Debug, Clone, Copy, PartialEq, Eq, Structural)]
pub struct ScoringConfig {
    pub min_clears_to_verify: i32,
    pub min_verifications_needed: i32,
    pub base_points_per_clear: i32,
    pub streak_bonus_points: i32,
    pub first_in_area_bonus: i32,
    pub verification_bonus: i32,
    pub verified_report_bonus: i32,
}

impl ScoringConfig {
    /// Thresholds and bonuses are non-negative counts of points or reports.
    pub open spec fn wf(self) -> bool {
        &&& self.min_clears_to_verify >= 0
        &&& self.min_verifications_needed >= 0
        &&& self.base_points_per_clear >= 0
        &&& self.streak_bonus_points >= 0
        &&& self.first_in_area_bonus >= 0
        &&& self.verification_bonus >= 0
        &&& self.verified_report_bonus >= 0
    }
}

#[derive(Debug, Clone)]
pub struct S3Config {
    pub endpoint: String,
    pub region: String,
    pub bucket: String,
    pub access_key: String,
    pub secret_key: String,
    pub public_url: String,
}

} // verus!
