//! The user a request's `x-token` header stands for.

use vstd::prelude::*;

use crate::auth::jwt::{hs256_signed_with, jwt_payload, read_back_as, serde_claims, verify_token};
use crate::auth::jwt::TokenError;
use crate::auth::models::{AuthUser, Claims};
use crate::error::AppError;

verus! {

impl AuthUser {
    /// The user of a request whose `x-token` header holds `token` (`None`
    /// when the header is missing or is not visible ASCII text).
    pub fn from_token_header(token: Option<&str>, secret: &str) -> (r: Result<AuthUser, AppError>)
        ensures
            match token {
                None => r matches Err(e) && e.is_unauthorized("No hay token en la petición"@),
                Some(t) => if t@.len() == 0 {
                    r matches Err(e) && e.is_unauthorized("No hay token en la petición"@)
                } else {
                    match r {
                        Ok(u) => {
                            &&& hs256_signed_with(t@, secret@)
                            &&& serde_claims(jwt_payload(t@)) matches Some(read) && u.uid@
                                == read.0 && u.name@ == read.1
                            &&& exists|c: crate::auth::models::Claims|
                                read_back_as(t@, c) && c.uid == u.uid && c.name == u.name
                        },
                        Err(e) => e.is_unauthorized("Token no válido"@),
                    }
                },
            },
    {
        let t = match token {
            Some(t) => t,
            None => {
                return Err(AppError::Unauthorized("No hay token en la petición".to_string()));
            },
        };
        if t.is_empty() {
            return Err(AppError::Unauthorized("No hay token en la petición".to_string()));
        }
        AuthUser::from_verified_token(verify_token(t, secret))
    }

    /// The user that `verify_token`'s answer stands for: every token it
    /// accepts gives the user its claims name, and every token it refuses
    /// is answered `Unauthorized("Token no válido")`.
    pub fn from_verified_token(verified: Result<Claims, TokenError>) -> (r: Result<AuthUser, AppError>)
        ensures
            match verified {
                Ok(c) => r matches Ok(u) && u.uid == c.uid && u.name == c.name,
                Err(_) => r matches Err(e) && e.is_unauthorized("Token no válido"@),
            },
    {
        match verified {
            Ok(claims) => Ok(AuthUser { uid: claims.uid, name: claims.name }),
            Err(_) => Err(AppError::Unauthorized("Token no válido".to_string())),
        }
    }
}

} // verus!
