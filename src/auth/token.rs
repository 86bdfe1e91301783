//! Signed session tokens (HS256 JSON web tokens) holding a subject and an expiry.
use vstd::prelude::*;

use jsonwebtoken::{Algorithm, DecodingKey, EncodingKey, Header, Validation};
use serde_json::Value;

use crate::text::owned;

verus! {

/// Lifetime of a session token, in seconds.
pub const SESSION_TTL: u64 = 3_600_000;

/// Lifetime of a password-reset token, in seconds.
pub const RESET_TTL: u64 = 3_600;

/// The claims a token carries: whom it refers to and when it stops being valid
/// (seconds since the Unix epoch).
#[derive(Clone, Debug)]
pub struct TokenClaims {
    pub sub: String,
    pub exp: u64,
}

/// Why a token was refused.
#[derive(Clone, Copy, Debug, PartialEq, Eq, Structural)]
pub enum TokenError {
    /// Bad signature, wrong secret, or not a token with a subject and an expiry.
    Invalid,
    /// The expiry has passed.
    Expired,
}

/// The subject and expiry that `jsonwebtoken::decode` recovers from `token`
/// with `secret` (HS256, signature checked, expiry not checked), or `None`
/// where it refuses the token or the claims lack a text `sub` or an integer `exp`.
pub uninterp spec fn jwt_claims_of(token: Seq<char>, secret: Seq<u8>) -> Option<(Seq<char>, u64)>;

pub open spec fn claims_view(c: Option<(String, u64)>) -> Option<(Seq<char>, u64)> {
    match c {
        Some((s, e)) => Some((s@, e)),
        None => None,
    }
}

/// Relies on `jsonwebtoken::encode` with the default HS256 header and an HMAC
/// key: it fails only where serializing the claims fails, which `serde_json`
/// rules out for a map with text keys, and the token decodes with the same
/// secret to the claims it was given.
#[verifier::external_body]
fn jwt_encode(sub: &str, exp: u64, secret: &[u8]) -> (r: String)
    ensures
        jwt_claims_of(r@, secret@) == Some((sub@, exp)),
{
    let mut claims = std::collections::BTreeMap::new();
    claims.insert("sub", Value::from(sub));
    claims.insert("exp", Value::from(exp));
    match jsonwebtoken::encode(&Header::default(), &claims, &EncodingKey::from_secret(secret)) {
        Ok(token) => token,
        Err(_) => String::new(),
    }
}

/// Relies on `jsonwebtoken::decode` with HS256 and expiry validation off, which
/// then does not read the clock: the result depends on the token and the secret alone.
#[verifier::external_body]
fn jwt_decode(token: &str, secret: &[u8]) -> (r: Option<(String, u64)>)
    ensures
        claims_view(r) == jwt_claims_of(token@, secret@),
{
    let mut validation = Validation::new(Algorithm::HS256);
    validation.validate_exp = false;
    let key = DecodingKey::from_secret(secret);
    let claims = jsonwebtoken::decode::<serde_json::Map<String, Value>>(token, &key, &validation).ok()?.claims;
    let sub = claims.get("sub")?.as_str()?;
    let exp = claims.get("exp")?.as_u64()?;
    Some((sub.to_string(), exp))
}

/// Signs the claims with `secret`.
pub fn encode_token(claims: &TokenClaims, secret: &[u8]) -> (r: String)
    ensures
        jwt_claims_of(r@, secret@) == Some((claims.sub@, claims.exp)),
{
    jwt_encode(claims.sub.as_str(), claims.exp, secret)
}

/// Checks the signature with `secret` and reads the claims, without looking at
/// the expiry; `decode_token` is the reader that also refuses expired tokens.
pub fn read_claims(token: &str, secret: &[u8]) -> (r: Option<TokenClaims>)
    ensures
        match r {
            Some(c) => jwt_claims_of(token@, secret@) == Some((c.sub@, c.exp)),
            None => jwt_claims_of(token@, secret@) is None,
        },
{
    match jwt_decode(token, secret) {
        Some((sub, exp)) => Some(TokenClaims { sub, exp }),
        None => None,
    }
}

/// `token` was signed with `secret` for `subject`, expiring `ttl` seconds after `at`.
pub open spec fn issued_for(token: Seq<char>, subject: Seq<char>, secret: Seq<u8>, at: u64, ttl: u64) -> bool {
    jwt_claims_of(token, secret) == Some((subject, (at + ttl) as u64))
}

/// A token for `subject`, valid for `ttl` seconds from `now`.
pub fn issue_with_ttl(subject: &str, secret: &[u8], now: u64, ttl: u64) -> (r: String)
    requires
        now + ttl <= u64::MAX,
    ensures
        issued_for(r@, subject@, secret@, now, ttl),
{
    let claims = TokenClaims { sub: owned(subject), exp: now + ttl };
    encode_token(&claims, secret)
}

/// A session token for `subject`, valid for `SESSION_TTL` seconds from `now`.
pub fn issue(subject: &str, secret: &[u8], now: u64) -> (r: String)
    requires
        now + SESSION_TTL <= u64::MAX,
    ensures
        issued_for(r@, subject@, secret@, now, SESSION_TTL),
{
    issue_with_ttl(subject, secret, now, SESSION_TTL)
}

/// What `decode_token` decides for a token at time `now`.
pub open spec fn verdict(token: Seq<char>, secret: Seq<u8>, now: u64) -> Result<(Seq<char>, u64), TokenError> {
    match jwt_claims_of(token, secret) {
        None => Err(TokenError::Invalid),
        Some((sub, exp)) => if exp < now {
            Err(TokenError::Expired)
        } else {
            Ok((sub, exp))
        },
    }
}

pub open spec fn verified_view(r: Result<TokenClaims, TokenError>) -> Result<(Seq<char>, u64), TokenError> {
    match r {
        Ok(c) => Ok((c.sub@, c.exp)),
        Err(e) => Err(e),
    }
}

/// Accepts a token that `jsonwebtoken` reads with `secret` and whose expiry is
/// not before `now`; a token it refuses is `Invalid`, a past expiry `Expired`.
pub fn decode_token(token: &str, secret: &[u8], now: u64) -> (r: Result<TokenClaims, TokenError>)
    ensures
        verified_view(r) == verdict(token@, secret@, now),
{
    match read_claims(token, secret) {
        None => Err(TokenError::Invalid),
        Some(c) => if c.exp < now {
            Err(TokenError::Expired)
        } else {
            Ok(c)
        },
    }
}

/// A token issued for `subject` verifies, with that subject, at any time up to its expiry.
pub proof fn lemma_issue_then_decode(token: Seq<char>, subject: Seq<char>, secret: Seq<u8>, at: u64, now: u64)
    requires
        at + SESSION_TTL <= u64::MAX,
        issued_for(token, subject, secret, at, SESSION_TTL),
        now <= at + SESSION_TTL,
    ensures
        verdict(token, secret, now) == Ok::<(Seq<char>, u64), TokenError>((subject, (at + SESSION_TTL) as u64)),
{
}

/// A correctly signed token whose expiry lies before `now` is refused as expired.
pub proof fn lemma_expired_refused(token: Seq<char>, secret: Seq<u8>, now: u64)
    requires
        jwt_claims_of(token, secret) matches Some((_, exp)) && exp < now,
    ensures
        verdict(token, secret, now) == Err::<(Seq<char>, u64), TokenError>(TokenError::Expired),
{
}

} // verus!
