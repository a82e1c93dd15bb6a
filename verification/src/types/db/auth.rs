//! Types of authentication.

use vstd::prelude::*;

verus! {

/// What a user sends to log in.
#[derive(Debug)]
pub struct LoginRequest {
    pub email: String,
    pub password: String,
}

/// How tokens are signed and how long they last.
#[derive(Debug)]
pub struct AuthConfig {
    pub jwt_secret: String,
    pub token_expiry_hours: i64,
}

} // verus!
