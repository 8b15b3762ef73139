//! What sign-in, registration and token renewal decide.

use vstd::prelude::*;

use crate::auth::claims::claims_json;
use crate::auth::jwt::{
    generate_token, hs256_signed_with, issued_claims, jwt_hs256_token, jwt_payload, read_back_as,
};
use crate::auth::models::{AuthResponse, LoginPayload, NewUser, RegisterPayload, UserRow};
use crate::error::{rejected, AppError};
use crate::ids::{is_uuid_v4_text, new_id};
use crate::text::{byte_len, lowercase, to_lowercase, trim, trim_string, utf8_len};

verus! {

pub const MIN_PASSWORD_LEN: usize = 6;

#[verifier::external_type_specification]
#[verifier::external_body]
pub struct ExBcryptError(bcrypt::BcryptError);

/// What bcrypt's `verify(password, hash)` answers: `None` when the hash is
/// not a bcrypt hash it can read, else whether the password matches it.
pub uninterp spec fn bcrypt_verify_outcome(password: Seq<char>, hash: Seq<char>) -> Option<bool>;

/// `bcrypt::verify`. Claimed: its answer is the named outcome of the
/// password and the hash (it re-hashes the password with the hash's salt
/// and cost and compares).
#[verifier::external_body]
fn bcrypt_verify(password: &str, hash: &str) -> (r: Result<bool, bcrypt::BcryptError>)
    ensures
        match r {
            Ok(b) => bcrypt_verify_outcome(password@, hash@) == Some(b),
            Err(_) => bcrypt_verify_outcome(password@, hash@) is None,
        },
{
    bcrypt::verify(password, hash)
}

/// `bcrypt::hash(password, DEFAULT_COST)`, with a random salt. Claimed: a
/// hash it gives verifies the same password (bcrypt's `verify` recomputes
/// the hash with the stored salt and cost); which salt is drawn is not
/// stated.
#[verifier::external_body]
fn bcrypt_hash(password: &str) -> (r: Result<String, bcrypt::BcryptError>)
    ensures
        r matches Ok(h) ==> bcrypt_verify_outcome(password@, h@) == Some(true),
{
    bcrypt::hash(password, bcrypt::DEFAULT_COST)
}

/// The text of a bcrypt error (`to_string`).
#[verifier::external_body]
fn bcrypt_error_text(e: &bcrypt::BcryptError) -> String {
    e.to_string()
}

/// An email as it is stored and looked up: trimmed and lower-cased.
pub open spec fn normalized_email(email: Seq<char>) -> Seq<char> {
    lowercase(trim(email))
}

pub fn normalize_email(email: &str) -> (r: String)
    ensures
        r@ == normalized_email(email@),
        r@.len() == 0 <==> trim(email@).len() == 0,
{
    let t = trim_string(email);
    to_lowercase(t.as_str())
}

/// A session answered to the user: `ok`, who they are, and a fresh token.
pub open spec fn is_session_for(
    resp: AuthResponse,
    uid: Seq<char>,
    name: Seq<char>,
    secret: Seq<char>,
    expires_seconds: i64,
) -> bool {
    &&& resp.ok
    &&& resp.uid@ == uid
    &&& resp.name@ == name
    &&& hs256_signed_with(resp.token@, secret)
    &&& exists|c: crate::auth::models::Claims|
        #![trigger claims_json(c)]
        issued_claims(c, uid, name, expires_seconds) && resp.token@ == jwt_hs256_token(
            claims_json(c),
            secret,
        ) && jwt_payload(resp.token@) == claims_json(c)
}

/// The answer carrying a new session for the user (sign-in, registration, renewal).
pub fn issue_session(uid: String, name: String, secret: &str, expires_seconds: i64) -> (r: Result<
    AuthResponse,
    AppError,
>)
    ensures
        r matches Ok(resp) && is_session_for(resp, uid@, name@, secret@, expires_seconds),
{
    match generate_token(uid.as_str(), name.as_str(), secret, expires_seconds) {
        Ok(token) => Ok(AuthResponse { ok: true, uid, name, token }),
        Err(e) => Err(AppError::Internal(e.text())),
    }
}

/// `POST /auth`: the answer for the user whose email matched (`None` when none did).
pub fn login_response(
    payload: &LoginPayload,
    user: Option<UserRow>,
    secret: &str,
    expires_seconds: i64,
) -> (r: Result<AuthResponse, AppError>)
    ensures
        match user {
            None => rejected(r, "Usuario / Password no son correctos"@),
            Some(u) => match bcrypt_verify_outcome(payload.password@, u.password_hash@) {
                None => r matches Err(e) && e is Internal,
                Some(false) => rejected(r, "Usuario / Password no son correctos"@),
                Some(true) => r matches Ok(resp) && is_session_for(
                    resp,
                    u.id@,
                    u.name@,
                    secret@,
                    expires_seconds,
                ),
            },
        },
{
    let user = match user {
        Some(u) => u,
        None => {
            return Err(AppError::BadRequest("Usuario / Password no son correctos".to_string()));
        },
    };
    let valid = match bcrypt_verify(payload.password.as_str(), user.password_hash.as_str()) {
        Ok(v) => v,
        Err(e) => {
            return Err(AppError::Internal(bcrypt_error_text(&e)));
        },
    };
    if !valid {
        return Err(AppError::BadRequest("Usuario / Password no son correctos".to_string()));
    }
    issue_session(user.id, user.name, secret, expires_seconds)
}

/// A registration that lacks a name or an email, or whose password is shorter than allowed.
/// (The password's length is counted in UTF-8 bytes, as `str::len` counts it.)
pub open spec fn registration_incomplete(payload: RegisterPayload) -> bool {
    trim(payload.name@).len() == 0 || trim(payload.email@).len() == 0 || utf8_len(
        payload.password@,
    ) < MIN_PASSWORD_LEN
}

/// The name and email that `POST /auth/new` stores: trimmed, and the email lower-cased.
pub fn validate_registration(payload: &RegisterPayload) -> (r: Result<(String, String), AppError>)
    ensures
        registration_incomplete(*payload) ==> rejected(
            r,
            "Nombre y correo son obligatorios y la contraseña debe tener al menos 6 caracteres"@,
        ),
        !registration_incomplete(*payload) ==> (r matches Ok((name, email)) && name@ == trim(
            payload.name@,
        ) && email@ == normalized_email(payload.email@)),
        trim(payload.name@).len() > 0 && trim(payload.email@).len() > 0 && payload.password@.len()
            >= MIN_PASSWORD_LEN ==> r is Ok,
{
    let name = trim_string(payload.name.as_str());
    let email = normalize_email(payload.email.as_str());
    if name.as_str().is_empty() || email.as_str().is_empty() || byte_len(
        payload.password.as_str(),
    ) < MIN_PASSWORD_LEN {
        return Err(
            AppError::BadRequest(
                "Nombre y correo son obligatorios y la contraseña debe tener al menos 6 caracteres".to_string(),
            ),
        );
    }
    Ok((name, email))
}

/// No account may exist yet with the email.
pub fn check_email_free(existing: i64) -> (r: Result<(), AppError>)
    ensures
        r is Ok <==> existing <= 0,
        r is Err ==> rejected(r, "El usuario ya existe"@),
{
    if existing > 0 {
        return Err(AppError::BadRequest("El usuario ya existe".to_string()));
    }
    Ok(())
}

/// The bcrypt hash stored for a new account's password.
pub fn hash_password(password: &str) -> (r: Result<String, AppError>)
    ensures
        r matches Ok(h) ==> bcrypt_verify_outcome(password@, h@) == Some(true),
        r matches Err(e) ==> e is Internal,
{
    match bcrypt_hash(password) {
        Ok(h) => Ok(h),
        Err(e) => Err(AppError::Internal(bcrypt_error_text(&e))),
    }
}

/// The account `POST /auth/new` stores for the validated name and email,
/// given how many accounts already have the email: refused when one does,
/// else a fresh id and the bcrypt hash of the password.
pub fn new_account(name: String, email: String, password: &str, existing: i64) -> (r: Result<
    NewUser,
    AppError,
>)
    ensures
        existing > 0 ==> rejected(r, "El usuario ya existe"@),
        existing <= 0 ==> match r {
            Ok(u) => {
                &&& is_uuid_v4_text(u.id@)
                &&& u.name == name
                &&& u.email == email
                &&& bcrypt_verify_outcome(password@, u.password_hash@) == Some(true)
            },
            Err(e) => e is Internal,
        },
{
    check_email_free(existing)?;
    let password_hash = hash_password(password)?;
    let id = new_id();
    Ok(NewUser { id, name, email, password_hash })
}

/// The token of a session names the session's user: when the token of an
/// answer from `issue_session` or `login_response` is read back (as
/// `verify_token` and `AuthUser::from_token_header` read it), it gives the
/// user's id and name.
pub proof fn law_session_token_names_its_user(
    resp: AuthResponse,
    uid: Seq<char>,
    name: Seq<char>,
    secret: Seq<char>,
    expires_seconds: i64,
    read: crate::auth::models::Claims,
)
    requires
        is_session_for(resp, uid, name, secret, expires_seconds),
        read_back_as(resp.token@, read),
    ensures
        read.uid@ == uid,
        read.name@ == name,
{
    let c = choose|c: crate::auth::models::Claims|
        #![trigger claims_json(c)]
        issued_claims(c, uid, name, expires_seconds) && resp.token@ == jwt_hs256_token(
            claims_json(c),
            secret,
        ) && jwt_payload(resp.token@) == claims_json(c);
    assert(claims_json(c) == jwt_payload(resp.token@));
}

/// The password checks of sign-in pass for a user whose stored hash came
/// from `hash_password` of the same password: what was registered signs in.
pub proof fn law_registered_password_signs_in(password: Seq<char>, user: UserRow)
    requires
        bcrypt_verify_outcome(password, user.password_hash@) == Some(true),
    ensures
        password_accepted(password, Some(user)),
{
}

/// A row of the users table as sign-in sees it: id, name, email, password hash.
pub type UserKey = (Seq<char>, Seq<char>, Seq<char>, Seq<char>);

/// How many users have the email (what registration's query counts).
pub open spec fn email_count(users: Seq<UserKey>, email: Seq<char>) -> nat
    decreases users.len(),
{
    if users.len() == 0 {
        0
    } else {
        email_count(users.drop_last(), email) + if users.last().2 == email {
            1nat
        } else {
            0nat
        }
    }
}

/// The user that sign-in's lookup by email finds: the only one with that
/// email, when exactly one has it.
pub open spec fn user_with_email(users: Seq<UserKey>, email: Seq<char>) -> Option<UserKey> {
    if email_count(users, email) == 1 {
        Some(choose|u: UserKey| users.contains(u) && u.2 == email)
    } else {
        None
    }
}

proof fn lemma_email_count_zero(users: Seq<UserKey>, email: Seq<char>, i: int)
    requires
        email_count(users, email) == 0,
        0 <= i < users.len(),
    ensures
        users[i].2 != email,
    decreases users.len(),
{
    if i < users.len() - 1 {
        lemma_email_count_zero(users.drop_last(), email, i);
    }
}

/// What is registered signs in: when registration stored an account (its
/// email counted on no user before, as `new_account` requires to succeed),
/// a later sign-in with an email that normalizes to the same text finds
/// exactly that account, and the registered password passes its checks,
/// so `login_response` answers a session for the account's id and name.
pub proof fn law_registered_account_signs_in(
    users: Seq<UserKey>,
    account: NewUser,
    password: Seq<char>,
    login_email: Seq<char>,
)
    requires
        email_count(users, account.email@) == 0,
        bcrypt_verify_outcome(password, account.password_hash@) == Some(true),
        normalized_email(login_email) == account.email@,
    ensures
        user_with_email(
            users.push((account.id@, account.name@, account.email@, account.password_hash@)),
            normalized_email(login_email),
        ) == Some((account.id@, account.name@, account.email@, account.password_hash@)),
        forall|u: UserRow| #[trigger]
            u.password_hash@ == account.password_hash@ ==> password_accepted(password, Some(u)),
{
    let row = (account.id@, account.name@, account.email@, account.password_hash@);
    let after = users.push(row);
    assert(after.drop_last() =~= users);
    assert(after.contains(row)) by {
        assert(after[users.len() as int] == row);
    }
    let u = choose|u: UserKey| after.contains(u) && u.2 == account.email@;
    let i = choose|i: int| 0 <= i < after.len() && after[i] == u;
    if i < users.len() {
        lemma_email_count_zero(users, account.email@, i);
        assert(after[i] == users[i]);
    }
}

/// Sign-in gets past the password checks: a user was found and the
/// password matches its hash.
pub open spec fn password_accepted(password: Seq<char>, user: Option<UserRow>) -> bool {
    user matches Some(u) && bcrypt_verify_outcome(password, u.password_hash@) == Some(true)
}

} // verus!
