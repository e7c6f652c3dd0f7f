//! The user directory as the core consumes it, and user-facing request
//! bodies.
//!
//! Account management itself - registration, login, email round trips - is a
//! collaborator outside the core; the core only asks whether a user exists,
//! whether their email is verified, and how to label them on a leaderboard.

use vstd::prelude::*;

verus! {

#[derive(Debug, Clone, Copy, PartialEq, Eq, Structural)]
pub enum UserRole {
    Admin,
    User,
}

/// What the user directory knows about one user, as the core reads it.
#[derive(Debug)]
pub struct UserRecord {
    pub id: u64,
    pub email_verified: bool,
    pub full_name: String,
    pub city: String,
    pub country: String,
    pub role: UserRole,
}

/// Mathematical image of a directory entry.
pub ghost struct UserV {
    pub id: u64,
    pub email_verified: bool,
    pub full_name: Seq<char>,
    pub city: Seq<char>,
    pub country: Seq<char>,
    pub role: UserRole,
}

impl View for UserRecord {
    type V = UserV;

    open spec fn view(&self) -> UserV {
        UserV {
            id: self.id,
            email_verified: self.email_verified,
            full_name: self.full_name@,
            city: self.city@,
            country: self.country@,
            role: self.role,
        }
    }
}

#[derive(Debug)]
pub struct CreateUserRequest {
    pub email: String,
    pub password: String,
    pub full_name: String,
    pub city: String,
    pub country: String,
}

#[derive(Debug)]
pub struct LoginRequest {
    pub email: String,
    pub password: String,
}

#[derive(Debug)]
pub struct UpdateUserRequest {
    pub full_name: Option<String>,
    pub city: Option<String>,
    pub country: Option<String>,
    pub search_radius_km: Option<i32>,
}

} // verus!
