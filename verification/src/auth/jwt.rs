//! Session tokens: HS256 JWTs whose claims are `{ uid, name, iat, exp }`.

use vstd::prelude::*;

use crate::auth::claims::{claims_json, claims_to_json, lemma_read_claims_json, same_claims};
use crate::auth::models::Claims;

verus! {

#[verifier::external_type_specification]
#[verifier::external_body]
pub struct ExJwtError(jsonwebtoken::errors::Error);

/// The token that jsonwebtoken's `encode` writes for the header
/// `{"typ":"JWT","alg":"HS256"}`, the JSON `payload` as claims, and the
/// HMAC key `secret`.
pub uninterp spec fn jwt_hs256_token(payload: Seq<char>, secret: Seq<char>) -> Seq<char>;

/// The claims JSON that jsonwebtoken's `decode` reads out of a token's
/// middle part.
pub uninterp spec fn jwt_payload(token: Seq<char>) -> Seq<char>;

/// Whether `token` carries a valid HS256 signature under the HMAC key
/// `secret`, as jsonwebtoken's `decode` checks it: three base64url parts,
/// a header that reads as HS256, and a third part that is the
/// HMAC-SHA256 under `secret` of the first two.
pub uninterp spec fn hs256_signed_with(token: Seq<char>, secret: Seq<char>) -> bool;

/// What `serde_json` reads as a session's claims out of a JSON text: the
/// string fields `uid` and `name` and the unsigned integer fields `iat`
/// and `exp`; `None` when it reads no such claims.
pub uninterp spec fn serde_claims(payload: Seq<char>) -> Option<(Seq<char>, Seq<char>, usize, usize)>;

/// Signs `payload` (JSON text) with HS256: `jsonwebtoken::encode` with
/// `Header::new(Algorithm::HS256)` and `EncodingKey::from_secret`, the
/// payload written verbatim through `serde_json`'s `RawValue`.
/// Claimed: a token is the named encoding of the payload and the secret,
/// it carries a valid HS256 signature under the secret, and when the
/// payload opens with `{` and closes with `}` (no surrounding white space
/// for `RawValue` to trim) its middle part reads back as that payload.
/// The call succeeds on the claims text that `claims_json` writes: it is
/// valid JSON, so `RawValue::from_string` takes it, and `encode` with an
/// HMAC key fails on nothing else (the HMAC accepts a key of any length
/// and its signing cannot fail).
#[verifier::external_body]
fn jwt_sign_hs256(payload: String, secret: &str) -> (r: Result<String, jsonwebtoken::errors::Error>)
    ensures
        r matches Ok(token) ==> token@ == jwt_hs256_token(payload@, secret@),
        r matches Ok(token) ==> (payload@.len() > 0 && payload@[0] == '{' && payload@.last()
            == '}' ==> jwt_payload(token@) == payload@),
        r matches Ok(token) ==> hs256_signed_with(token@, secret@),
        (exists|c: Claims| #[trigger] claims_json(c) == payload@) ==> r is Ok,
{
    let claims = serde_json::value::RawValue::from_string(payload)?;
    jsonwebtoken::encode(
        &jsonwebtoken::Header::new(jsonwebtoken::Algorithm::HS256),
        &claims,
        &jsonwebtoken::EncodingKey::from_secret(secret.as_bytes()),
    )
}

/// Checks an HS256 token against `secret` with `Validation::new(HS256)`
/// (signature, and `exp` against the clock with 60 s of leeway) and hands
/// back the claims JSON of its middle part: `jsonwebtoken::decode` into a
/// `RawValue`. Claimed: when it passes, the token carries a valid HS256
/// signature under `secret`, and what comes back is the named payload of
/// the token. Whether the expiry check passes depends on the clock and is
/// not stated.
#[verifier::external_body]
fn jwt_verify_hs256(token: &str, secret: &str) -> (r: Result<String, jsonwebtoken::errors::Error>)
    ensures
        r is Ok ==> hs256_signed_with(token@, secret@),
        r matches Ok(payload) ==> payload@ == jwt_payload(token@),
{
    let data = jsonwebtoken::decode::<Box<serde_json::value::RawValue>>(
        token,
        &jsonwebtoken::DecodingKey::from_secret(secret.as_bytes()),
        &jsonwebtoken::Validation::new(jsonwebtoken::Algorithm::HS256),
    )?;
    Ok(data.claims.get().to_string())
}

/// Reads a session's claims out of their JSON text through `serde_json`:
/// `serde_json::from_str` into a `Value`, then the string fields `uid` and
/// `name` and the unsigned integer fields `iat` and `exp` (that fit in
/// `usize`), in any order and layout, other fields ignored. Claimed: the
/// result is the named reading of the text, and the text that
/// `claims_json` writes is read as those very claims (serde_json undoes
/// its own string escapes and reads its decimal integers). Where a
/// derived `Deserialize` would differ (a repeated key, which `Value` keeps
/// the last of; the array form of a struct, which is not read here),
/// nothing is stated.
#[verifier::external_body]
fn serde_read_claims(payload: &str) -> (r: Option<Claims>)
    ensures
        match r {
            Some(c) => serde_claims(payload@) == Some((c.uid@, c.name@, c.iat, c.exp)),
            None => serde_claims(payload@) is None,
        },
        (exists|c: Claims| #[trigger] claims_json(c) == payload@) ==> r is Some,
        r matches Some(d) ==> forall|c: Claims|
            #![trigger claims_json(c)]
            claims_json(c) == payload@ ==> same_claims(d, c),
{
    let v: serde_json::Value = serde_json::from_str(payload).ok()?;
    Some(Claims {
        uid: v.get("uid")?.as_str()?.to_string(),
        name: v.get("name")?.as_str()?.to_string(),
        iat: usize::try_from(v.get("iat")?.as_u64()?).ok()?,
        exp: usize::try_from(v.get("exp")?.as_u64()?).ok()?,
    })
}

/// The seconds since the Unix epoch on the system clock (`Utc::now().timestamp()`).
#[verifier::external_body]
fn now_timestamp() -> i64 {
    chrono::Utc::now().timestamp()
}

/// The text of a jsonwebtoken error (`to_string`). Claimed: it is not
/// empty; every arm of the crate's `Display` writes the kind's name or a
/// fixed prefix. Which text each kind gets is not stated.
#[verifier::external_body]
pub(crate) fn jwt_error_text(e: &jsonwebtoken::errors::Error) -> (t: String)
    ensures
        t@.len() > 0,
{
    e.to_string()
}

/// Why a token could not be made or read.
#[derive(Debug)]
pub enum TokenError {
    /// jsonwebtoken refused it (bad signature, expired, malformed, ...).
    Jwt(jsonwebtoken::errors::Error),
    /// The signature holds but the claims are not the claims of a session token.
    Claims,
}

/// The text of `TokenError::Claims`.
pub open spec fn claims_error_text() -> Seq<char> {
    "the token's claims are not a session's claims"@
}

impl TokenError {
    /// The text of the error: jsonwebtoken's own text for its errors, a
    /// fixed sentence for claims that are not a session's.
    pub fn text(&self) -> (t: String)
        ensures
            self is Claims ==> t@ == claims_error_text(),
            self is Jwt ==> t@.len() > 0,
    {
        match self {
            TokenError::Jwt(e) => jwt_error_text(e),
            TokenError::Claims => "the token's claims are not a session's claims".to_string(),
        }
    }
}

/// The token signed with `secret` for the given claims; signing cannot fail.
pub fn encode_claims(claims: &Claims, secret: &str) -> (r: Result<String, TokenError>)
    ensures
        r is Ok,
        r matches Ok(token) ==> token@ == jwt_hs256_token(claims_json(*claims), secret@),
        r matches Ok(token) ==> jwt_payload(token@) == claims_json(*claims),
        r matches Ok(token) ==> hs256_signed_with(token@, secret@),
{
    let payload = claims_to_json(claims);
    assert(payload@[0] == '{');
    assert(payload@.last() == '}');
    assert(claims_json(*claims) == payload@);
    match jwt_sign_hs256(payload, secret) {
        Ok(token) => Ok(token),
        Err(e) => Err(TokenError::Jwt(e)),
    }
}

/// Claims issued at `iat` that expire `expires_seconds` later; the sum
/// wraps around `usize` as the release build's `+` does.
pub open spec fn issued_claims(c: Claims, uid: Seq<char>, name: Seq<char>, expires_seconds: i64) -> bool {
    &&& c.uid@ == uid
    &&& c.name@ == name
    &&& c.exp == vstd::wrapping::usize_specs::wrapping_add(c.iat, expires_seconds as usize)
}

/// The claims of a token issued to the user at `issued_at` (seconds since
/// the Unix epoch, as `Utc::now().timestamp()` reads the clock) that
/// expires `expires_seconds` later: `iat` is `issued_at` and `exp` is
/// `issued_at + expires_seconds`, both as `usize` with the release
/// build's wrapping `+`.
pub open spec fn claims_issued_at(
    c: Claims,
    uid: Seq<char>,
    name: Seq<char>,
    issued_at: i64,
    expires_seconds: i64,
) -> bool {
    &&& c.uid@ == uid
    &&& c.name@ == name
    &&& c.iat == issued_at as usize
    &&& c.exp == vstd::wrapping::usize_specs::wrapping_add(
        issued_at as usize,
        expires_seconds as usize,
    )
}

/// A token whose payload is the JSON text of claims issued at `issued_at`,
/// signed with `secret`.
pub open spec fn token_issued_at(
    token: Seq<char>,
    uid: Seq<char>,
    name: Seq<char>,
    secret: Seq<char>,
    issued_at: i64,
    expires_seconds: i64,
) -> bool {
    exists|c: Claims|
        #![trigger claims_json(c)]
        claims_issued_at(c, uid, name, issued_at, expires_seconds) && token == jwt_hs256_token(
            claims_json(c),
            secret,
        ) && jwt_payload(token) == claims_json(c)
}

/// A token for the user, issued at `issued_at`, that expires
/// `expires_seconds` later; signing cannot fail.
pub fn generate_token_at(
    uid: &str,
    name: &str,
    secret: &str,
    issued_at: i64,
    expires_seconds: i64,
) -> (r: Result<String, TokenError>)
    ensures
        r is Ok,
        r matches Ok(token) ==> token_issued_at(
            token@,
            uid@,
            name@,
            secret@,
            issued_at,
            expires_seconds,
        ),
        r matches Ok(token) ==> hs256_signed_with(token@, secret@),
{
    let now = issued_at as usize;
    let claims = Claims {
        uid: uid.to_string(),
        name: name.to_string(),
        iat: now,
        exp: now.wrapping_add(expires_seconds as usize),
    };
    let r = encode_claims(&claims, secret);
    assert(claims_issued_at(claims, uid@, name@, issued_at, expires_seconds));
    r
}

/// A token for the user, issued now (at the clock's reading), that expires
/// `expires_seconds` later; signing cannot fail. Which time the clock
/// reads is not stated; `generate_token_at` states the token for each.
pub fn generate_token(uid: &str, name: &str, secret: &str, expires_seconds: i64) -> (r: Result<
    String,
    TokenError,
>)
    ensures
        r is Ok,
        r matches Ok(token) ==> exists|c: Claims|
            #![trigger claims_json(c)]
            issued_claims(c, uid@, name@, expires_seconds) && token@ == jwt_hs256_token(
                claims_json(c),
                secret@,
            ) && jwt_payload(token@) == claims_json(c),
        r matches Ok(token) ==> exists|t: i64|
            token_issued_at(token@, uid@, name@, secret@, t, expires_seconds),
        r matches Ok(token) ==> hs256_signed_with(token@, secret@),
{
    let now = now_timestamp();
    let r = generate_token_at(uid, name, secret, now, expires_seconds);
    proof {
        if r is Ok {
            let token = r->Ok_0;
            let c = choose|c: Claims|
                #![trigger claims_json(c)]
                claims_issued_at(c, uid@, name@, now, expires_seconds) && token@
                    == jwt_hs256_token(claims_json(c), secret@) && jwt_payload(token@)
                    == claims_json(c);
            assert(issued_claims(c, uid@, name@, expires_seconds));
        }
    }
    r
}

/// What a verified token was read as: whenever the token's payload is the
/// JSON text of some claims, these are those claims.
pub open spec fn read_back_as(token: Seq<char>, c: Claims) -> bool {
    forall|i: Claims| #[trigger] claims_json(i) == jwt_payload(token) ==> same_claims(c, i)
}

/// The claims of a token that carries a valid signature under `secret` and
/// has not expired.
pub fn verify_token(token: &str, secret: &str) -> (r: Result<Claims, TokenError>)
    ensures
        r is Ok ==> hs256_signed_with(token@, secret@),
        r matches Ok(c) ==> serde_claims(jwt_payload(token@)) == Some(
            (c.uid@, c.name@, c.iat, c.exp),
        ),
        r matches Ok(c) ==> read_back_as(token@, c),
        r matches Err(TokenError::Claims) ==> hs256_signed_with(token@, secret@) && serde_claims(
            jwt_payload(token@),
        ) is None,
{
    match jwt_verify_hs256(token, secret) {
        Ok(payload) => match serde_read_claims(payload.as_str()) {
            Some(c) => Ok(c),
            None => Err(TokenError::Claims),
        },
        Err(e) => Err(TokenError::Jwt(e)),
    }
}

/// A token verifies back to the claims it was made for: when `token` was
/// made from `issued` (what `encode_claims` and `generate_token` ensure of
/// the token's payload) and `verify_token` accepted it with `read`, the two
/// claims are the same.
pub proof fn law_token_round_trip(issued: Claims, token: Seq<char>, read: Claims)
    requires
        jwt_payload(token) == claims_json(issued),
        read_back_as(token, read),
    ensures
        read.uid@ == issued.uid@,
        read.name@ == issued.name@,
        read.iat == issued.iat,
        read.exp == issued.exp,
{
    assert(claims_json(issued) == jwt_payload(token));
}

/// A token issued at a given time carries that time: when `token` came
/// from `generate_token_at(uid, name, secret, issued_at, expires_seconds)`
/// and `verify_token` read it back as `read`, then `read` names the user,
/// `read.iat` is `issued_at` and `read.exp` is `expires_seconds` after it
/// (wrapping as `usize` addition does in a release build).
pub proof fn law_token_carries_its_issue_time(
    token: Seq<char>,
    uid: Seq<char>,
    name: Seq<char>,
    secret: Seq<char>,
    issued_at: i64,
    expires_seconds: i64,
    read: Claims,
)
    requires
        token_issued_at(token, uid, name, secret, issued_at, expires_seconds),
        read_back_as(token, read),
    ensures
        read.uid@ == uid,
        read.name@ == name,
        read.iat == issued_at as usize,
        read.exp == vstd::wrapping::usize_specs::wrapping_add(
            issued_at as usize,
            expires_seconds as usize,
        ),
{
    let c = choose|c: Claims|
        #![trigger claims_json(c)]
        claims_issued_at(c, uid, name, issued_at, expires_seconds) && token == jwt_hs256_token(
            claims_json(c),
            secret,
        ) && jwt_payload(token) == claims_json(c);
    assert(claims_json(c) == jwt_payload(token));
}

/// Two claims with the same JSON text are the same claims: the text of a
/// token's payload determines whom it names.
pub proof fn law_claims_json_injective(a: Claims, b: Claims)
    requires
        claims_json(a) == claims_json(b),
    ensures
        a.uid@ == b.uid@,
        a.name@ == b.name@,
        a.iat == b.iat,
        a.exp == b.exp,
{
    lemma_read_claims_json(a);
    lemma_read_claims_json(b);
}

/// The claims of a token that `generate_token` made last `expires_seconds`
/// (wrapping as `usize` addition does in a release build).
pub proof fn law_generated_token_lifetime(c: Claims, uid: Seq<char>, name: Seq<char>, expires_seconds: i64)
    requires
        issued_claims(c, uid, name, expires_seconds),
        0 <= expires_seconds,
        c.iat + expires_seconds <= usize::MAX,
    ensures
        c.exp == c.iat + expires_seconds,
{
}

} // verus!
