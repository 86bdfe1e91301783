use conduit::auth::cookie::{extract_token, session_cookie, REMOVE_COOKIE};
use conduit::auth::guard::{classify_path, guard, route_guard, GuardAction, PathKind};
use conduit::auth::token::{
    decode_token, encode_token, issue, issue_with_ttl, read_claims, TokenClaims, TokenError, RESET_TTL,
    SESSION_TTL,
};

const SECRET: &[u8] = b"hello darkness my old friend";
const NOW: u64 = 1_700_000_000;

fn redirect_of(a: &GuardAction) -> Option<(String, bool)> {
    match a {
        GuardAction::Forward => None,
        GuardAction::Redirect { location, clear_cookie } => Some((location.clone(), *clear_cookie)),
    }
}

#[test]
fn issue_then_verify_round_trip() {
    let token = issue("alice", SECRET, NOW);
    let claims = decode_token(&token, SECRET, NOW + 10).unwrap();
    assert_eq!(claims.sub, "alice");
    assert_eq!(claims.exp, NOW + SESSION_TTL);
}

#[test]
fn session_token_is_a_signed_jwt_not_the_subject() {
    let token = issue("alice", SECRET, NOW);
    assert_ne!(token, "alice");
    assert_eq!(token.split('.').count(), 3);
}

#[test]
fn verify_rejects_other_secret() {
    let token = issue("alice", b"another secret", NOW);
    assert!(matches!(decode_token(&token, SECRET, NOW), Err(TokenError::Invalid)));
}

#[test]
fn verify_rejects_expired_token() {
    let token = issue("alice", SECRET, NOW);
    assert!(matches!(decode_token(&token, SECRET, NOW + SESSION_TTL + 1), Err(TokenError::Expired)));
}

#[test]
fn verify_accepts_token_at_its_expiry() {
    let token = issue("alice", SECRET, NOW);
    assert_eq!(decode_token(&token, SECRET, NOW + SESSION_TTL).unwrap().sub, "alice");
}

#[test]
fn verify_rejects_garbage() {
    assert!(matches!(decode_token("not.a.token", SECRET, NOW), Err(TokenError::Invalid)));
    assert!(matches!(decode_token("", SECRET, NOW), Err(TokenError::Invalid)));
}

#[test]
fn verify_rejects_tampered_token() {
    let token = issue("alice", SECRET, NOW);
    let other = issue("mallory", SECRET, NOW);
    let parts: Vec<&str> = token.split('.').collect();
    let other_parts: Vec<&str> = other.split('.').collect();
    let forged = format!("{}.{}.{}", parts[0], other_parts[1], parts[2]);
    assert!(matches!(decode_token(&forged, SECRET, NOW), Err(TokenError::Invalid)));
}

#[test]
fn encode_and_decode_claims() {
    let claims = TokenClaims { sub: "bob@example.com".to_string(), exp: 42 };
    let token = encode_token(&claims, SECRET);
    let back = read_claims(&token, SECRET).unwrap();
    assert_eq!(back.sub, "bob@example.com");
    assert_eq!(back.exp, 42);
    assert!(read_claims(&token, b"wrong").is_none());
}

#[test]
fn reset_token_lives_one_hour() {
    let token = issue_with_ttl("a@x.com", SECRET, NOW, RESET_TTL);
    assert_eq!(decode_token(&token, SECRET, NOW + 3_600).unwrap().exp, NOW + 3_600);
    assert!(matches!(decode_token(&token, SECRET, NOW + 3_601), Err(TokenError::Expired)));
}

#[test]
fn extract_token_finds_session_entry() {
    assert_eq!(extract_token("a=1; token=abc; b=2"), Some("abc".to_string()));
    assert_eq!(extract_token("token=xyz"), Some("xyz".to_string()));
    assert_eq!(extract_token("a=1; token="), Some(String::new()));
}

#[test]
fn extract_token_takes_first_match() {
    assert_eq!(extract_token("token=first; token=second"), Some("first".to_string()));
}

#[test]
fn extract_token_absent() {
    assert_eq!(extract_token(""), None);
    assert_eq!(extract_token("a=1; b=2"), None);
    assert_eq!(extract_token("tokens=1; mytoken=2"), None);
    assert_eq!(extract_token("a=1;token=2"), None);
}

#[test]
fn session_cookie_format() {
    assert_eq!(session_cookie("abc"), "token=abc; path=/; HttpOnly");
    assert_eq!(REMOVE_COOKIE, "token=; path=/; expires=Thu, 01 Jan 1970 00:00:00 GMT");
}

#[test]
fn classify_paths() {
    assert_eq!(classify_path("/login"), PathKind::AuthOnly);
    assert_eq!(classify_path("/signup?x=1"), PathKind::AuthOnly);
    assert_eq!(classify_path("/settings"), PathKind::AuthRequired);
    assert_eq!(classify_path("/editor/my-slug"), PathKind::AuthRequired);
    assert_eq!(classify_path("/"), PathKind::Public);
    assert_eq!(classify_path("/article/hello"), PathKind::Public);
    assert_eq!(classify_path(""), PathKind::Public);
}

#[test]
fn anonymous_settings_redirects_to_login() {
    let a = route_guard(&None, "/settings");
    assert_eq!(redirect_of(&a), Some(("/login".to_string(), true)));
}

#[test]
fn authenticated_login_redirects_home() {
    let a = route_guard(&Some("alice".to_string()), "/login");
    assert_eq!(redirect_of(&a), Some(("/".to_string(), false)));
}

#[test]
fn guard_policy_table() {
    assert_eq!(redirect_of(&guard(true, PathKind::AuthRequired)), None);
    assert_eq!(redirect_of(&guard(true, PathKind::Public)), None);
    assert_eq!(redirect_of(&guard(false, PathKind::AuthOnly)), None);
    assert_eq!(redirect_of(&guard(false, PathKind::Public)), None);
    assert_eq!(redirect_of(&guard(false, PathKind::AuthRequired)), Some(("/login".to_string(), true)));
    assert_eq!(redirect_of(&guard(true, PathKind::AuthOnly)), Some(("/".to_string(), false)));
    assert_eq!(
        redirect_of(&route_guard(&None, "/editor")),
        Some(("/login".to_string(), true))
    );
    assert_eq!(redirect_of(&route_guard(&Some("a".to_string()), "/signup")), Some(("/".to_string(), false)));
}

#[test]
fn decode_token_refuses_past_expiry() {
    let claims = TokenClaims { sub: "alice".to_string(), exp: NOW - 1 };
    let token = encode_token(&claims, SECRET);
    assert!(matches!(decode_token(&token, SECRET, NOW), Err(TokenError::Expired)));
    assert_eq!(read_claims(&token, SECRET).unwrap().exp, NOW - 1);
}
