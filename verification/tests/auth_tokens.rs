use calendar_backend::auth::claims::claims_to_json;
use calendar_backend::auth::handlers::{
    check_email_free, issue_session, new_account, login_response, normalize_email,
    validate_registration,
};
use calendar_backend::auth::jwt::{encode_claims, generate_token, verify_token, TokenError};
use calendar_backend::auth::models::{AuthUser, Claims, LoginPayload, RegisterPayload, UserRow};
use calendar_backend::error::AppError;

#[test]
fn generates_a_token_that_verifies_back_to_the_same_claims() {
    let token = generate_token("uid-123", "Fernando", "secreto", 3600).unwrap();
    let claims = verify_token(&token, "secreto").unwrap();

    assert_eq!(claims.uid, "uid-123");
    assert_eq!(claims.name, "Fernando");
    assert_eq!(claims.exp - claims.iat, 3600);
}

#[test]
fn rejects_a_token_signed_with_a_different_secret() {
    let token = generate_token("uid-123", "Fernando", "secreto", 3600).unwrap();
    assert!(verify_token(&token, "otro-secreto").is_err());
}

#[test]
fn rejects_an_expired_token() {
    let claims = Claims {
        uid: "uid-123".to_string(),
        name: "Fernando".to_string(),
        iat: 0,
        exp: 1,
    };
    let token = encode_claims(&claims, "secreto").unwrap();

    assert!(verify_token(&token, "secreto").is_err());
}

// ---------- The claims' JSON ----------

#[test]
fn claims_are_written_as_serde_json_writes_them() {
    let claims = Claims { uid: "u-1".to_string(), name: "Ana \"la\" \\ \u{1}\n".to_string(), iat: 10, exp: 0 };
    assert_eq!(
        claims_to_json(&claims),
        "{\"uid\":\"u-1\",\"name\":\"Ana \\\"la\\\" \\\\ \\u0001\\n\",\"iat\":10,\"exp\":0}"
    );
}

fn far_future() -> usize {
    4_000_000_000
}

/// Signs an arbitrary JSON text as the claims of an HS256 token.
fn sign_raw(json: &str, secret: &str) -> String {
    let claims: serde_json::Value = serde_json::from_str(json).unwrap();
    jsonwebtoken::encode(
        &jsonwebtoken::Header::new(jsonwebtoken::Algorithm::HS256),
        &claims,
        &jsonwebtoken::EncodingKey::from_secret(secret.as_bytes()),
    )
    .unwrap()
}

#[test]
fn claims_json_reads_back() {
    let claims = Claims {
        uid: "uid-ñ-\u{7f}".to_string(),
        name: "Línea\t\u{8}\u{c}\r\u{1f}é \"x\" \\".to_string(),
        iat: 1_700_000_000,
        exp: far_future(),
    };
    let token = encode_claims(&claims, "k").unwrap();
    let back = verify_token(&token, "k").unwrap();
    assert_eq!(back.uid, claims.uid);
    assert_eq!(back.name, claims.name);
    assert_eq!(back.iat, claims.iat);
    assert_eq!(back.exp, claims.exp);
}

#[test]
fn claims_are_read_in_any_json_layout() {
    let exp = far_future();
    let text = format!("{{ \"exp\" : {exp}, \"name\":\"B\\u00e9a\", \"extra\": [1, 2.5],\n \"iat\":7, \"uid\":\"u\" }}");
    let back = verify_token(&sign_raw(&text, "k"), "k").unwrap();
    assert_eq!(back.uid, "u");
    assert_eq!(back.name, "Béa");
    assert_eq!(back.iat, 7);
    assert_eq!(back.exp, exp);
    // signed, not expired, but not a session's claims
    for text in [
        format!("{{\"name\":\"b\",\"iat\":1,\"exp\":{exp}}}"),
        format!("{{\"uid\":1,\"name\":\"b\",\"iat\":1,\"exp\":{exp}}}"),
        format!("{{\"uid\":\"a\",\"name\":\"b\",\"iat\":-1,\"exp\":{exp}}}"),
        format!("{{\"uid\":\"a\",\"name\":\"b\",\"iat\":1.5,\"exp\":{exp}}}"),
    ] {
        match verify_token(&sign_raw(&text, "k"), "k") {
            Err(TokenError::Claims) => {}
            _ => panic!("expected claims to be refused: {text}"),
        }
    }
}

#[test]
fn the_token_carries_the_expiry() {
    let token = generate_token("u", "n", "k", 0).ok().unwrap();
    match verify_token(&token, "k") {
        Ok(c) => assert_eq!(c.exp, c.iat),
        Err(_) => {}
    }
    assert!(verify_token("not-a-token", "k").is_err());
    match verify_token(&token, "other") {
        Err(TokenError::Jwt(_)) => {}
        _ => panic!("a foreign secret must be refused by the signature check"),
    }
}

// ---------- The x-token header ----------

#[test]
fn the_header_must_hold_a_valid_token() {
    match AuthUser::from_token_header(None, "secreto") {
        Err(AppError::Unauthorized(m)) => assert_eq!(m, "No hay token en la petición"),
        _ => panic!("expected Unauthorized"),
    }
    match AuthUser::from_token_header(Some(""), "secreto") {
        Err(AppError::Unauthorized(m)) => assert_eq!(m, "No hay token en la petición"),
        _ => panic!("expected Unauthorized"),
    }
    match AuthUser::from_token_header(Some("abc.def.ghi"), "secreto") {
        Err(AppError::Unauthorized(m)) => assert_eq!(m, "Token no válido"),
        _ => panic!("expected Unauthorized"),
    }
    let token = generate_token("uid-9", "Eva", "secreto", 600).ok().unwrap();
    let user = AuthUser::from_token_header(Some(&token), "secreto").ok().unwrap();
    assert_eq!(user.uid, "uid-9");
    assert_eq!(user.name, "Eva");
}

// ---------- Sign-in and registration ----------

#[test]
fn registration_normalizes_name_and_email() {
    let payload = RegisterPayload {
        name: "  Ana  ".to_string(),
        email: " Ana@Example.COM ".to_string(),
        password: "secreto1".to_string(),
    };
    let (name, email) = validate_registration(&payload).ok().unwrap();
    assert_eq!(name, "Ana");
    assert_eq!(email, "ana@example.com");
    assert_eq!(normalize_email("  ÉVA@X.ES"), "éva@x.es");
}

#[test]
fn registration_requires_name_email_and_a_long_password() {
    let msg = "Nombre y correo son obligatorios y la contraseña debe tener al menos 6 caracteres";
    for (name, email, password) in [("", "a@b.c", "123456"), ("Ana", "  ", "123456"), ("Ana", "a@b.c", "12345")] {
        let payload = RegisterPayload { name: name.to_string(), email: email.to_string(), password: password.to_string() };
        match validate_registration(&payload) {
            Err(AppError::BadRequest(m)) => assert_eq!(m, msg),
            _ => panic!("expected BadRequest"),
        }
    }
    // the password length counts bytes: three two-byte characters are enough
    let payload = RegisterPayload { name: "Ana".to_string(), email: "a@b.c".to_string(), password: "ñññ".to_string() };
    assert!(validate_registration(&payload).is_ok());
    match check_email_free(1) {
        Err(AppError::BadRequest(m)) => assert_eq!(m, "El usuario ya existe"),
        _ => panic!("expected BadRequest"),
    }
    assert!(check_email_free(0).is_ok());
}

#[test]
fn a_registered_password_signs_in() {
    match new_account("Ana".to_string(), "ana@example.com".to_string(), "secreto1", 1) {
        Err(AppError::BadRequest(m)) => assert_eq!(m, "El usuario ya existe"),
        _ => panic!("expected BadRequest"),
    }
    let account = new_account("Ana".to_string(), "ana@example.com".to_string(), "secreto1", 0).ok().unwrap();
    assert_eq!(account.id.len(), 36);
    assert_eq!(account.name, "Ana");
    assert_eq!(account.email, "ana@example.com");
    assert_ne!(account.password_hash, "secreto1");
    let hash = account.password_hash;
    let user = UserRow { id: "uid-1".to_string(), name: "Ana".to_string(), password_hash: hash.clone() };
    let payload = LoginPayload { email: "ana@example.com".to_string(), password: "secreto1".to_string() };
    let resp = login_response(&payload, Some(user), "k", 60).ok().unwrap();
    assert!(resp.ok);
    assert_eq!(resp.uid, "uid-1");
    assert_eq!(resp.name, "Ana");
    let claims = verify_token(&resp.token, "k").ok().unwrap();
    assert_eq!(claims.uid, "uid-1");

    let user = UserRow { id: "uid-1".to_string(), name: "Ana".to_string(), password_hash: hash };
    let wrong = LoginPayload { email: "ana@example.com".to_string(), password: "otra".to_string() };
    match login_response(&wrong, Some(user), "k", 60) {
        Err(AppError::BadRequest(m)) => assert_eq!(m, "Usuario / Password no son correctos"),
        _ => panic!("expected BadRequest"),
    }
    match login_response(&wrong, None, "k", 60) {
        Err(AppError::BadRequest(m)) => assert_eq!(m, "Usuario / Password no son correctos"),
        _ => panic!("expected BadRequest"),
    }
    let broken = UserRow { id: "u".to_string(), name: "n".to_string(), password_hash: "not-bcrypt".to_string() };
    assert!(matches!(login_response(&wrong, Some(broken), "k", 60), Err(AppError::Internal(_))));
}

#[test]
fn renewal_issues_a_session_for_the_same_user() {
    let resp = issue_session("uid-7".to_string(), "Luis".to_string(), "k", 86_400).ok().unwrap();
    assert!(resp.ok);
    let claims = verify_token(&resp.token, "k").ok().unwrap();
    assert_eq!(claims.name, "Luis");
    assert_eq!(claims.exp - claims.iat, 86_400);
}


#[test]
fn token_errors_have_a_text() {
    assert_eq!(TokenError::Claims.text(), "the token's claims are not a session's claims");
    let err = verify_token("not-a-token", "k").err().unwrap();
    assert!(!err.text().is_empty());
}
