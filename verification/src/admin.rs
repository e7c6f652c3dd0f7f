//! Request and response bodies of the administrative and test-support
//! endpoints, which live in the surrounding program.

use vstd::prelude::*;

verus! {

#[derive(Debug, Clone, Copy, PartialEq, Eq, Structural)]
pub struct ListUsersQuery {
    pub page: Option<i64>,
    pub limit: Option<i64>,
}

#[derive(Debug, Clone, Copy, PartialEq, Eq, Structural)]
pub struct BanUserRequest {
    pub is_active: bool,
}

#[derive(Debug)]
pub struct TestHelperResponse {
    pub success: bool,
    pub message: String,
}

#[derive(Debug)]
pub struct CleanupRequest {
    pub email: String,
}

} // verus!
