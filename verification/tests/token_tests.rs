use blog_api::claims::Claims;
use blog_api::errors::{Role, TokenError};
use blog_api::jwt::{generate_jwt, verify_jwt, SESSION_SECONDS};

const NOW: u64 = 1_700_000_000;

fn secret() -> Vec<u8> {
    b"a process wide signing secret".to_vec()
}

#[test]
fn issue_then_verify_round_trips() {
    let s = secret();
    let token = generate_jwt(7, Role::User, &s, NOW);
    let claims = verify_jwt(&token, &s, NOW).expect("fresh token must verify");
    assert_eq!(
        claims,
        Claims { sub: 7, exp: NOW + SESSION_SECONDS, iat: NOW, role: Role::User }
    );
}

#[test]
fn expiry_is_issue_time_plus_seven_days() {
    let s = secret();
    let token = generate_jwt(42, Role::Admin, &s, NOW);
    let claims = verify_jwt(&token, &s, NOW).unwrap();
    assert_eq!(claims.exp, claims.iat + 604_800);
    assert_eq!(claims.sub, 42);
    assert_eq!(claims.role, Role::Admin);
}

#[test]
fn token_still_valid_one_second_before_expiry() {
    let s = secret();
    let token = generate_jwt(7, Role::User, &s, NOW);
    assert!(verify_jwt(&token, &s, NOW + SESSION_SECONDS - 1).is_ok());
}

#[test]
fn expired_token_rejected_even_with_valid_signature() {
    let s = secret();
    let token = generate_jwt(7, Role::User, &s, NOW);
    assert_eq!(
        verify_jwt(&token, &s, NOW + SESSION_SECONDS),
        Err(TokenError::Expired)
    );
    assert_eq!(
        verify_jwt(&token, &s, u64::MAX),
        Err(TokenError::Expired)
    );
}

#[test]
fn token_signed_with_other_secret_rejected() {
    let issuing = b"one secret".to_vec();
    let verifying = b"another secret".to_vec();
    let token = generate_jwt(7, Role::User, &issuing, NOW);
    assert_eq!(
        verify_jwt(&token, &verifying, NOW),
        Err(TokenError::SignatureInvalid)
    );
}

#[test]
fn tampered_payload_rejected() {
    let s = secret();
    let token = generate_jwt(7, Role::User, &s, NOW);
    let mut parts: Vec<&str> = token.split('.').collect();
    assert_eq!(parts.len(), 3);
    // swap the payload for the payload of a token about another subject
    let other = generate_jwt(8, Role::User, &s, NOW);
    let other_parts: Vec<&str> = other.split('.').collect();
    parts[1] = other_parts[1];
    let forged = parts.join(".");
    assert_eq!(verify_jwt(&forged, &s, NOW), Err(TokenError::SignatureInvalid));
}

#[test]
fn truncated_and_garbage_tokens_rejected_without_fault() {
    let s = secret();
    for bad in [
        "",
        ".",
        "..",
        "...",
        "abc",
        "a.b",
        "a.b.c",
        "!!!.###.$$$",
        "eyJ0eXAiOiJKV1QiLCJhbGciOiJIUzI1NiJ9",
        "eyJ0eXAiOiJKV1QiLCJhbGciOiJIUzI1NiJ9.",
        "eyJ0eXAiOiJKV1QiLCJhbGciOiJIUzI1NiJ9..",
        "\u{00fc}.\u{00fc}.\u{00fc}",
    ] {
        assert_eq!(verify_jwt(bad, &s, NOW), Err(TokenError::Malformed));
    }
    let token = generate_jwt(7, Role::User, &s, NOW);
    let truncated = &token[..token.len() - 10];
    assert!(verify_jwt(truncated, &s, NOW).is_err());
}

#[test]
fn token_matches_reference_crypto() {
    // Rebuild the token with the base64 and jsonwebtoken crates directly:
    // the issued token must be byte-for-byte what the reference crypto
    // produces over the canonical claims text.
    let s = secret();
    let token = generate_jwt(5, Role::Admin, &s, NOW);
    let header = "{\"typ\":\"JWT\",\"alg\":\"HS256\"}";
    let payload = format!(
        "{{\"sub\":\"5\",\"exp\":{},\"iat\":{},\"role\":\"admin\"}}",
        NOW + SESSION_SECONDS,
        NOW
    );
    let engine = &base64::engine::general_purpose::URL_SAFE_NO_PAD;
    let msg = format!(
        "{}.{}",
        base64::Engine::encode(engine, header),
        base64::Engine::encode(engine, &payload)
    );
    let key = jsonwebtoken::EncodingKey::from_secret(&s);
    let sig =
        jsonwebtoken::crypto::sign(msg.as_bytes(), &key, jsonwebtoken::Algorithm::HS256).unwrap();
    let expected = format!("{}.{}", msg, sig);
    assert_eq!(token, expected);
}

#[test]
fn verify_accepts_reference_token() {
    // A token assembled by the reference crypto over the canonical claims
    // text is accepted with exactly those claims.
    let s = secret();
    let header = "{\"typ\":\"JWT\",\"alg\":\"HS256\"}";
    let payload = format!(
        "{{\"sub\":\"11\",\"exp\":{},\"iat\":{},\"role\":\"user\"}}",
        NOW + SESSION_SECONDS,
        NOW
    );
    let engine = &base64::engine::general_purpose::URL_SAFE_NO_PAD;
    let msg = format!(
        "{}.{}",
        base64::Engine::encode(engine, header),
        base64::Engine::encode(engine, &payload)
    );
    let key = jsonwebtoken::EncodingKey::from_secret(&s);
    let sig =
        jsonwebtoken::crypto::sign(msg.as_bytes(), &key, jsonwebtoken::Algorithm::HS256).unwrap();
    let token = format!("{}.{}", msg, sig);
    let claims = verify_jwt(&token, &s, NOW).unwrap();
    assert_eq!(
        claims,
        Claims { sub: 11, exp: NOW + SESSION_SECONDS, iat: NOW, role: Role::User }
    );
}

#[test]
fn distinct_subjects_get_distinct_tokens() {
    let s = secret();
    let a = generate_jwt(1, Role::User, &s, NOW);
    let b = generate_jwt(2, Role::User, &s, NOW);
    assert_ne!(a, b);
}
