//! Token minting and password hashing: session-token claims, the signed
//! token calls, the password-hash calls, the sign-in decision and the
//! process-wide secret's lifecycle.

use vstd::prelude::*;
use crate::models::UserData;
use crate::store::{kv_idx, DbState};
use pbkdf2::password_hash::{PasswordHash, PasswordHasher, PasswordVerifier, Salt, SaltString};
use rand::distr::{Alphanumeric, SampleString};
use rand::RngExt;

verus! {

/// The claims of one session token.
#[derive(Debug, Clone)]
pub struct Claims {
    /// Expiry time of the token, in seconds since the Unix epoch.
    pub exp: u64,
    /// Issue time of the token, in seconds since the Unix epoch.
    pub iat: u64,
    /// The user the token names.
    pub user: String,
}

/// A sign-in request: the entered name and password.
#[derive(Debug, Clone)]
pub struct SignInData {
    pub username: String,
    pub password: String,
}

/// An operator-facing authorization failure: a message and the status code
/// the front end returns.
#[derive(Debug, Clone)]
pub struct AuthError {
    pub message: String,
    pub status_code: u16,
}

/// How long a session token lives, in seconds.
pub const TOKEN_LIFETIME_SECS: u64 = 86400;

/// The claims of a token issued at `now_secs`: expiry one lifetime later.
pub fn claims_for(user: String, now_secs: u64) -> (r: Claims)
    requires
        now_secs + TOKEN_LIFETIME_SECS <= u64::MAX,
    ensures
        r.iat == now_secs,
        r.exp == now_secs + TOKEN_LIFETIME_SECS,
        r.user == user,
{
    Claims { iat: now_secs, exp: now_secs + TOKEN_LIFETIME_SECS, user }
}

/// A name for the claims a signed token carries: they are a function of the
/// token text alone.
pub uninterp spec fn jwt_payload_of(token: Seq<char>) -> Option<(u64, u64, Seq<char>)>;

/// Signs the claims into a compact token.
///
/// Relies on jsonwebtoken::encode with the default header: the token's
/// payload part carries exactly the given claims, and decoding recovers
/// them.
#[verifier::external_body]
pub fn encode_jwt(secret: &str, claims: &Claims) -> (r: Result<String, ()>)
    ensures
        r matches Ok(t) ==> jwt_payload_of(t@) == Some((claims.iat, claims.exp, claims.user@)),
{
    let mut m = serde_json::Map::new();
    m.insert("iat".to_string(), serde_json::Value::from(claims.iat));
    m.insert("exp".to_string(), serde_json::Value::from(claims.exp));
    m.insert("user".to_string(), serde_json::Value::from(claims.user.clone()));
    jsonwebtoken::encode(
        &jsonwebtoken::Header::default(),
        &serde_json::Value::Object(m),
        &jsonwebtoken::EncodingKey::from_secret(secret.as_bytes()),
    ).map_err(|_| ())
}

/// Verifies a token and returns its claims.
///
/// Relies on jsonwebtoken::decode with the default validation: a token it
/// accepts yields exactly the claims its payload part carries. Whether an
/// unexpired, well-signed token is accepted depends on the clock, so only
/// the accepted case is promised.
#[verifier::external_body]
pub fn decode_jwt(secret: &str, token: &str) -> (r: Result<Claims, ()>)
    ensures
        r matches Ok(c) ==> jwt_payload_of(token@) == Some((c.iat, c.exp, c.user@)),
{
    let data = jsonwebtoken::decode::<serde_json::Value>(
        token,
        &jsonwebtoken::DecodingKey::from_secret(secret.as_bytes()),
        &jsonwebtoken::Validation::default(),
    ).map_err(|_| ())?;
    let iat = data.claims.get("iat").and_then(|v| v.as_u64()).ok_or(())?;
    let exp = data.claims.get("exp").and_then(|v| v.as_u64()).ok_or(())?;
    let user = data.claims.get("user").and_then(|v| v.as_str()).ok_or(())?.to_string();
    Ok(Claims { iat, exp, user })
}

/// Tokens signed and then accepted carry the claims they were signed with.
pub proof fn lemma_token_claims_round_trip(t: Seq<char>, signed: Claims, decoded: Claims)
    requires
        jwt_payload_of(t) == Some((signed.iat, signed.exp, signed.user@)),
        jwt_payload_of(t) == Some((decoded.iat, decoded.exp, decoded.user@)),
    ensures
        decoded.iat == signed.iat,
        decoded.exp == signed.exp,
        decoded.user@ == signed.user@,
{
}

/// Hashes a password for storage.
///
/// Relies on the key-derivation crate's hasher with a fresh random 16-byte
/// salt and one thousand rounds; the result is the self-describing hash
/// string. Whatever salt was drawn, the verifier re-derives with the
/// parameters the string carries, so the result matches the password it
/// hashed; nothing else is promised of the random value.
#[verifier::external_body]
pub fn hash_password(password: &str) -> (r: String)
    ensures
        r@.len() > 0,
        password_matches(r@, password@),
{
    let mut rng = rand::rng();
    let mut bytes = [0u8; Salt::RECOMMENDED_LENGTH];
    rng.fill(&mut bytes);
    let salt = SaltString::encode_b64(&bytes).unwrap();
    let params = pbkdf2::Params { rounds: 1000, ..Default::default() };
    pbkdf2::Pbkdf2.hash_password_customized(password.as_bytes(), None, None, params, &salt)
        .unwrap()
        .to_string()
}

/// A name for the password check: whether a password matches a stored hash
/// is a function of the two strings alone.
pub uninterp spec fn password_matches(stored: Seq<char>, password: Seq<char>) -> bool;

/// Checks a password against a stored hash string.
///
/// Relies on the key-derivation crate's verifier: the outcome depends on
/// the stored hash and the password alone. A stored string that does not
/// parse as a hash fails the check.
#[verifier::external_body]
pub fn verify_password(stored: &str, password: &str) -> (r: bool)
    ensures
        r == password_matches(stored@, password@),
{
    match PasswordHash::new(stored) {
        Ok(parsed) => pbkdf2::Pbkdf2.verify_password(password.as_bytes(), &parsed).is_ok(),
        Err(_) => false,
    }
}

/// The sign-in decision: an unknown user and a failing password check are
/// both rejected as unauthorized; a passing check names the user a token is
/// minted for.
pub fn check_credentials(user: Option<UserData>, password: &str) -> (r: Result<String, AuthError>)
    ensures
        match user {
            Some(ref u) => if password_matches(u.password@, password@) {
                r matches Ok(name) && name@ == u.username@
            } else {
                r matches Err(e) && e.status_code == 401
            },
            None => r matches Err(e) && e.status_code == 401,
        },
{
    match user {
        Some(u) => {
            if verify_password(u.password.as_str(), password) {
                Ok(u.username)
            } else {
                Err(AuthError { message: String::from_str("Invalid password"), status_code: 401 })
            }
        },
        None => Err(AuthError { message: String::from_str("User not found"), status_code: 401 }),
    }
}

/// A fresh alphanumeric secret of sixteen characters.
///
/// Relies on the random crate's alphanumeric distribution: the sampled
/// string has exactly the requested length. The value is random, so nothing
/// else is promised.
#[verifier::external_body]
pub fn fresh_secret() -> (r: String)
    ensures
        r@.len() == 16,
{
    Alphanumeric.sample_string(&mut rand::rng(), 16)
}

/// The process-wide signing secret: the stored one, or — on first boot — a
/// freshly generated one, stored under its key before use.
pub fn get_server_secret(db: &mut DbState) -> (r: String)
    requires
        old(db).wf(),
    ensures
        final(db).wf(),
        match kv_idx(old(db).kvp@, "auth_server_secret"@, 0) {
            Some(i) => r@ == old(db).kvp@[i].value@ && final(db).kvp@ == old(db).kvp@,
            None => r@.len() == 16 && (kv_idx(
                final(db).kvp@,
                "auth_server_secret"@,
                0,
            ) matches Some(j) && final(db).kvp@[j].value@ == r@),
        },
        final(db).videos == old(db).videos,
        final(db).playlists == old(db).playlists,
        final(db).playlist_configs == old(db).playlist_configs,
        final(db).ytdata == old(db).ytdata,
        final(db).brainz_rows == old(db).brainz_rows,
        final(db).auth == old(db).auth,
        final(db).users == old(db).users,
{
    match db.get_key("auth_server_secret") {
        Some(secret) => secret,
        None => {
            let secret = fresh_secret();
            db.set_key("auth_server_secret", secret.as_str());
            proof {
                let key = "auth_server_secret"@;
                crate::store::lemma_kv_idx_none(old(db).kvp@, key, 0);
                let i = db.kvp@.len() - 1;
                assert(db.kvp@[i].key@ == key);
                assert forall|j: int| 0 <= j < i implies (#[trigger] db.kvp@[j]).key@ != key by {
                    assert(db.kvp@[j] == old(db).kvp@[j]);
                }
                lemma_kv_exact(db.kvp@, key, i);
            }
            secret
        },
    }
}

proof fn lemma_kv_exact(rows: Seq<crate::store::KvpRow>, key: Seq<char>, i: int)
    requires
        0 <= i < rows.len(),
        rows[i].key@ == key,
        forall|j: int| 0 <= j < i ==> (#[trigger] rows[j]).key@ != key,
    ensures
        kv_idx(rows, key, 0) == Some(i),
{
    lemma_kv_exact_from(rows, key, i, 0);
}

proof fn lemma_kv_exact_from(rows: Seq<crate::store::KvpRow>, key: Seq<char>, i: int, from: int)
    requires
        0 <= from <= i < rows.len(),
        rows[i].key@ == key,
        forall|j: int| from <= j < i ==> (#[trigger] rows[j]).key@ != key,
    ensures
        kv_idx(rows, key, from) == Some(i),
    decreases i - from,
{
    if from < i {
        lemma_kv_exact_from(rows, key, i, from + 1);
    }
}

} // verus!
