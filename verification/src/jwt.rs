//! Access-token claims and opaque refresh tokens.
//!
//! A refresh token is 32 random bytes in base64url; only its SHA-256 digest (in
//! base64url) is stored, so a stored value cannot be turned back into a token.
use vstd::prelude::*;
use vstd::utf8::encode_utf8;

use crate::error::IdmError;
use crate::ids::{id_text, parse_id, uuid_parse, uuid_text};
use crate::repo::{copy_opt_string, lemma_string_views_push, opt_string_view, string_views};
use crate::token::{TokenClaims, VerifiedToken};

verus! {

/// The base64url encoding without padding of `bytes`.
pub uninterp spec fn base64url(bytes: Seq<u8>) -> Seq<char>;

/// The SHA-256 digest of `bytes`.
pub uninterp spec fn sha256(bytes: Seq<u8>) -> Seq<u8>;

/// The number of characters of the unpadded base64 form of `n` bytes: four per
/// whole group of three, and one more than the rest for a partial group.
pub open spec fn base64_len(n: int) -> int {
    4 * (n / 3) + if n % 3 == 0 {
        0
    } else {
        n % 3 + 1
    }
}

/// A character of the URL-safe base64 alphabet (`A-Z`, `a-z`, `0-9`, `-`, `_`).
pub open spec fn url_safe_char(c: char) -> bool {
    ('A' <= c && c <= 'Z') || ('a' <= c && c <= 'z') || ('0' <= c && c <= '9') || c == '-' || c
        == '_'
}

/// Every character of `s` is in the URL-safe base64 alphabet.
pub open spec fn url_safe(s: Seq<char>) -> bool {
    forall|i: int| 0 <= i < s.len() ==> url_safe_char(#[trigger] s[i])
}

/// Encodes `bytes` in base64url without padding.
///
/// Trusted: calls `base64::Engine::encode` with
/// `base64::engine::general_purpose::URL_SAFE_NO_PAD`; the result is named
/// `base64url(bytes)`. Its length is what `base64::encoded_len(len, false)`
/// computes, and `URL_SAFE` writes only its alphabet's characters; both are
/// claimed.
#[verifier::external_body]
fn base64url_encode(bytes: &[u8]) -> (r: String)
    ensures
        r@ == base64url(bytes@),
        r@.len() == base64_len(bytes@.len() as int),
        url_safe(r@),
{
    base64::Engine::encode(&base64::engine::general_purpose::URL_SAFE_NO_PAD, bytes)
}

/// The SHA-256 digest of `bytes`.
///
/// Trusted: calls `<sha2::Sha256 as sha2::Digest>::digest`; the result is named
/// `sha256(bytes)`, and it is 32 bytes long as the digest's output size says.
#[verifier::external_body]
fn sha256_digest(bytes: &[u8]) -> (r: Vec<u8>)
    ensures
        r@ == sha256(bytes@),
        r@.len() == 32,
{
    <sha2::Sha256 as sha2::Digest>::digest(bytes).to_vec()
}

/// 32 bytes from the operating system's random source.
///
/// Trusted: calls `rand::RngCore::fill_bytes` on `rand::rngs::OsRng`. The bytes are
/// random; only their number is claimed.
#[verifier::external_body]
fn random_bytes() -> (r: Vec<u8>)
    ensures
        r@.len() == 32,
{
    let mut bytes = [0u8; 32];
    rand::RngCore::fill_bytes(&mut rand::rngs::OsRng, &mut bytes);
    bytes.to_vec()
}

/// The stored form of the refresh token `token`: base64url of the SHA-256 of its UTF-8 bytes.
pub open spec fn refresh_digest(token: Seq<char>) -> Seq<char> {
    base64url(sha256(encode_utf8(token)))
}

/// The stored form of a refresh token.
pub fn hash_refresh(token: &str) -> (r: String)
    ensures
        r@ == refresh_digest(token@),
        r@.len() == 43,
        url_safe(r@),
{
    let digest = sha256_digest(token.as_bytes());
    base64url_encode(digest.as_slice())
}

/// A fresh opaque refresh token and its stored form: (token for the client, digest
/// for the store). The token encodes 32 random bytes.
pub fn generate_refresh() -> (r: (String, String))
    ensures
        r.1@ == refresh_digest(r.0@),
        exists|bytes: Seq<u8>| bytes.len() == 32 && r.0@ == base64url(bytes),
        r.0@.len() == 43,
        url_safe(r.0@),
{
    let bytes = random_bytes();
    let token = base64url_encode(bytes.as_slice());
    let hash = hash_refresh(token.as_str());
    (token, hash)
}

/// The JWT claims of an access token: `sub` is the user id, `jti` the session id,
/// `iat` / `exp` Unix seconds.
#[derive(Debug)]
pub struct Claims {
    pub sub: String,
    pub jti: String,
    pub username: String,
    pub email: Option<String>,
    pub email_verified: bool,
    pub roles: Vec<String>,
    pub iat: i64,
    pub exp: i64,
}

/// A copy of a list of strings with the same views.
pub fn copy_strings(v: &Vec<String>) -> (r: Vec<String>)
    ensures
        string_views(r@) == string_views(v@),
{
    let mut out: Vec<String> = Vec::new();
    let mut i: usize = 0;
    while i < v.len()
        invariant
            i <= v@.len(),
            string_views(out@) == string_views(v@.take(i as int)),
        decreases v@.len() - i,
    {
        let ghost prev = out@;
        out.push(v[i].clone());
        proof {
            assert(v@.take(i + 1) =~= v@.take(i as int).push(v@[i as int]));
            assert(out@ == prev.push(v@[i as int]));
            lemma_string_views_push(prev, v@[i as int]);
            lemma_string_views_push(v@.take(i as int), v@[i as int]);
        }
        i = i + 1;
    }
    proof {
        assert(v@.take(v@.len() as int) =~= v@);
    }
    out
}

impl Claims {
    /// The claims of an access token for `c`: ids as UUID text, times as Unix seconds.
    pub fn from_token_claims(c: &TokenClaims) -> (r: Claims)
        ensures
            r.sub@ == uuid_text(c.user_id),
            uuid_parse(r.sub@) == Some(c.user_id),
            r.jti@ == uuid_text(c.session_id),
            r.username@ == c.username@,
            opt_string_view(r.email) == opt_string_view(c.email),
            r.email_verified == c.email_verified,
            string_views(r.roles@) == string_views(c.roles@),
            r.iat == c.issued_at.secs(),
            r.exp == c.expires_at.secs(),
    {
        Claims {
            sub: id_text(c.user_id),
            jti: id_text(c.session_id),
            username: c.username.clone(),
            email: copy_opt_string(&c.email),
            email_verified: c.email_verified,
            roles: copy_strings(&c.roles),
            iat: c.issued_at.unix_timestamp(),
            exp: c.expires_at.unix_timestamp(),
        }
    }

    /// The core identity of decoded claims; `Unauthorized` when `sub` is not a UUID.
    pub fn into_verified(self) -> (r: Result<VerifiedToken, IdmError>)
        ensures
            uuid_parse(self.sub@) is None ==> r matches Err(IdmError::Unauthorized),
            uuid_parse(self.sub@) matches Some(id) ==> (r matches Ok(v) && v.user_id == id
                && v.username@ == self.username@ && string_views(v.roles@) == string_views(
                self.roles@,
            )),
    {
        match parse_id(self.sub.as_str()) {
            Some(user_id) => Ok(VerifiedToken { user_id, username: self.username, roles: self.roles }),
            None => Err(IdmError::Unauthorized),
        }
    }
}

} // verus!
