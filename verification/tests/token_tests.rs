use todo_auth::codec::scan_dec_u64;
use todo_auth::codec::u64_to_dec_bytes;
use todo_auth::domain::Claims;
use todo_auth::domain::Role;
use todo_auth::errors::TokenError;
use todo_auth::token::issue_token;
use todo_auth::token::render_claims;
use todo_auth::token::verify_token;

const SECRET: &str = "a-very-secret-signing-key";

fn sample_claims() -> Claims {
    Claims { user_id: 7, role: Role::User, exp: 1000 }
}

#[test]
fn decimal_render_is_canonical() {
    assert_eq!(u64_to_dec_bytes(0), vec![48u8]);
    assert_eq!(u64_to_dec_bytes(7), vec![55u8]);
    assert_eq!(u64_to_dec_bytes(1203), vec![49u8, 50u8, 48u8, 51u8]);
    assert_eq!(
        u64_to_dec_bytes(u64::MAX),
        "18446744073709551615".as_bytes().to_vec()
    );
}

#[test]
fn decimal_scan_round_trips() {
    let bytes = "1203,".as_bytes();
    assert_eq!(scan_dec_u64(bytes, 0), Some((1203, 4)));
    // A redundant leading zero is not canonical.
    assert_eq!(scan_dec_u64("0123".as_bytes(), 0), None);
    // A value beyond u64 is rejected.
    assert_eq!(scan_dec_u64("18446744073709551616".as_bytes(), 0), None);
    // Scanning stops at the first non-digit.
    assert_eq!(scan_dec_u64("42}".as_bytes(), 0), Some((42, 2)));
}

#[test]
fn rendered_payload_is_the_expected_json() {
    let payload = render_claims(&sample_claims());
    assert_eq!(
        String::from_utf8(payload).unwrap(),
        "{\"user_id\":7,\"role\":\"user\",\"exp\":1000}"
    );
    let admin = Claims { user_id: 2, role: Role::Admin, exp: 42 };
    assert_eq!(
        String::from_utf8(render_claims(&admin)).unwrap(),
        "{\"user_id\":2,\"role\":\"admin\",\"exp\":42}"
    );
}

#[test]
fn issue_then_verify_before_expiry_accepts() {
    let claims = sample_claims();
    let token = issue_token(&claims, SECRET).unwrap();
    let got = verify_token(&token, SECRET, 999).unwrap();
    assert_eq!(got, claims);
    let got = verify_token(&token, SECRET, 0).unwrap();
    assert_eq!(got, claims);
}

#[test]
fn verify_at_or_after_expiry_reports_expired() {
    let claims = sample_claims();
    let token = issue_token(&claims, SECRET).unwrap();
    // A token expiring exactly now is rejected: no leeway window.
    assert_eq!(verify_token(&token, SECRET, 1000), Err(TokenError::Expired));
    assert_eq!(verify_token(&token, SECRET, 5000), Err(TokenError::Expired));
}

#[test]
fn wrong_secret_is_a_signature_error() {
    let token = issue_token(&sample_claims(), SECRET).unwrap();
    assert_eq!(
        verify_token(&token, "another-secret", 0),
        Err(TokenError::InvalidSignature)
    );
}

#[test]
fn tampering_with_any_byte_is_rejected() {
    let claims = sample_claims();
    let token = issue_token(&claims, SECRET).unwrap();
    let bytes = token.as_bytes();
    for i in 0..bytes.len() {
        let mut mutated = bytes.to_vec();
        mutated[i] = if mutated[i] == b'A' { b'B' } else { b'A' };
        let mutated = String::from_utf8(mutated).unwrap();
        if mutated == token {
            continue;
        }
        let r = verify_token(&mutated, SECRET, 0);
        assert!(r.is_err(), "byte {} accepted after tampering", i);
        assert!(
            matches!(r, Err(TokenError::InvalidSignature) | Err(TokenError::Malformed)),
            "byte {} gave an unexpected error", i
        );
    }
}

#[test]
fn truncated_and_garbled_tokens_are_malformed() {
    let token = issue_token(&sample_claims(), SECRET).unwrap();
    assert_eq!(verify_token("", SECRET, 0), Err(TokenError::Malformed));
    assert_eq!(verify_token("abc", SECRET, 0), Err(TokenError::Malformed));
    assert_eq!(
        verify_token("a.b.c.d", SECRET, 0),
        Err(TokenError::Malformed)
    );
    let no_sig = &token[..token.rfind('.').unwrap()];
    assert_eq!(verify_token(no_sig, SECRET, 0), Err(TokenError::Malformed));
}

#[test]
fn issued_token_is_a_standard_jwt() {
    // The middle part is the base64url of the claims JSON, and the whole
    // token passes jsonwebtoken's own decoding under the same secret.
    let claims = Claims { user_id: 9, role: Role::Admin, exp: 32503680000 };
    let token = issue_token(&claims, SECRET).unwrap();
    let parts: Vec<&str> = token.split('.').collect();
    assert_eq!(parts.len(), 3);
    let engine = &base64::engine::general_purpose::URL_SAFE_NO_PAD;
    let header = base64::Engine::decode(engine, parts[0]).unwrap();
    assert_eq!(
        String::from_utf8(header).unwrap(),
        "{\"alg\":\"HS256\",\"typ\":\"JWT\"}"
    );
    let payload = base64::Engine::decode(engine, parts[1]).unwrap();
    assert_eq!(
        String::from_utf8(payload).unwrap(),
        "{\"user_id\":9,\"role\":\"admin\",\"exp\":32503680000}"
    );
    let key = jsonwebtoken::DecodingKey::from_secret(SECRET.as_bytes());
    let validation = jsonwebtoken::Validation::new(jsonwebtoken::Algorithm::HS256);
    let decoded =
        jsonwebtoken::decode::<serde_json::Value>(&token, &key, &validation).unwrap();
    assert_eq!(
        decoded.claims.get("user_id").and_then(|v| v.as_u64()),
        Some(9)
    );
    assert_eq!(
        decoded.claims.get("role").and_then(|v| v.as_str()),
        Some("admin")
    );
}
