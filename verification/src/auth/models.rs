//! Payloads, rows and responses of authentication.

use vstd::prelude::*;

verus! {

/// What a session token says: who the user is, when it was issued and when
/// it expires (seconds since the Unix epoch).
pub struct Claims {
    pub uid: String,
    pub name: String,
    pub iat: usize,
    pub exp: usize,
}

/// The authenticated user that a valid `x-token` stands for.
pub struct AuthUser {
    pub uid: String,
    pub name: String,
}

pub struct LoginPayload {
    pub email: String,
    pub password: String,
}

pub struct RegisterPayload {
    pub name: String,
    pub email: String,
    pub password: String,
}

pub struct AuthResponse {
    pub ok: bool,
    pub uid: String,
    pub name: String,
    pub token: String,
}

pub struct UserRow {
    pub id: String,
    pub name: String,
    pub password_hash: String,
}

/// The account that registration stores.
pub struct NewUser {
    pub id: String,
    pub name: String,
    pub email: String,
    pub password_hash: String,
}

} // verus!
