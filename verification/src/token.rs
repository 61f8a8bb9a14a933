//! Access-token port. What goes into a token (claim shape, algorithm, key) and
//! how it is checked are both pluggable: the service hands the identity facts to
//! a signer and reads the core identity back from a verifier. The default
//! HS256 implementation serialises claims with serde and lives with the HTTP
//! layer.
use vstd::prelude::*;

use crate::clock::Timestamp;
use crate::error::IdmError;
use crate::repo::{copy_opt_string, opt_string_view, string_views, User, UserView};

verus! {

/// The identity facts an access token is signed over.
#[derive(Debug)]
pub struct TokenClaims {
    pub user_id: u128,
    /// The session id, carried as `jti` so that the session can be revoked.
    pub session_id: u128,
    pub username: String,
    pub email: Option<String>,
    pub email_verified: bool,
    pub roles: Vec<String>,
    pub issued_at: Timestamp,
    pub expires_at: Timestamp,
}

/// The mathematical value of [`TokenClaims`]; instants in nanoseconds since the
/// Unix epoch.
pub struct TokenClaimsView {
    pub user_id: u128,
    pub session_id: u128,
    pub username: Seq<char>,
    pub email: Option<Seq<char>>,
    pub email_verified: bool,
    pub roles: Seq<Seq<char>>,
    pub issued_at: int,
    pub expires_at: int,
}

impl View for TokenClaims {
    type V = TokenClaimsView;

    open spec fn view(&self) -> TokenClaimsView {
        TokenClaimsView {
            user_id: self.user_id,
            session_id: self.session_id,
            username: self.username@,
            email: opt_string_view(self.email),
            email_verified: self.email_verified,
            roles: string_views(self.roles@),
            issued_at: self.issued_at.nanos(),
            expires_at: self.expires_at.nanos(),
        }
    }
}

/// The claims of an access token for `user` in session `session_id` with the roles
/// named `roles`, issued at `now` and expiring `ttl_secs` seconds later.
pub open spec fn session_claims(
    user: UserView,
    session_id: u128,
    roles: Seq<Seq<char>>,
    now: Timestamp,
    ttl_secs: i64,
) -> TokenClaimsView {
    TokenClaimsView {
        user_id: user.id,
        session_id,
        username: user.username,
        email: user.email,
        email_verified: user.email_verified,
        roles,
        issued_at: now.nanos(),
        expires_at: now.nanos() + ttl_secs * 1_000_000_000,
    }
}

impl TokenClaims {
    /// The identity facts of an access token for `user` in session `session_id`
    /// with the given roles, issued at `now` and expiring `ttl_secs` seconds later;
    /// `None` when the expiry leaves the range of instants.
    pub fn for_session(user: &User, session_id: u128, roles: Vec<String>, now: Timestamp, ttl_secs: i64) -> (r:
        Option<TokenClaims>)
        ensures
            (i64::MIN <= now.secs() + ttl_secs <= i64::MAX) <==> r is Some,
            r matches Some(c) ==> {
                &&& c.user_id == user.id
                &&& c.session_id == session_id
                &&& c.username@ == user.username@
                &&& opt_string_view(c.email) == opt_string_view(user.email)
                &&& c.email_verified == user.email_verified
                &&& c.roles == roles
                &&& c.issued_at == now
                &&& c.expires_at.secs() == now.secs() + ttl_secs
                &&& c.expires_at.nanos() == now.nanos() + ttl_secs * 1_000_000_000
                &&& c@ == session_claims(user@, session_id, string_views(roles@), now, ttl_secs)
            },
    {
        match now.checked_add_seconds(ttl_secs) {
            Some(expires_at) => Some(
                TokenClaims {
                    user_id: user.id,
                    session_id,
                    username: user.username.clone(),
                    email: copy_opt_string(&user.email),
                    email_verified: user.email_verified,
                    roles,
                    issued_at: now,
                    expires_at,
                },
            ),
            None => None,
        }
    }
}

/// The core identity read back from a valid access token.
#[derive(Debug)]
pub struct VerifiedToken {
    pub user_id: u128,
    pub username: String,
    pub roles: Vec<String>,
}

/// Signing port: turns identity facts into an access token. Implementations
/// report a signing failure as `Internal`.
pub trait TokenSigner {
    /// Whether `token` is what this signer makes of `claims`. An implementation
    /// that does not define it claims nothing about its tokens.
    open spec fn signs(&self, claims: TokenClaimsView, token: Seq<char>) -> bool {
        true
    }

    /// Whether signing never fails. An implementation that does not define it
    /// promises nothing of the kind.
    open spec fn reliable(&self) -> bool {
        false
    }

    fn sign(&self, claims: &TokenClaims) -> (r: Result<String, IdmError>)
        ensures
            r matches Ok(t) ==> self.signs(claims@, t@),
            r is Err ==> r matches Err(IdmError::Internal(_)),
            self.reliable() ==> r is Ok,
    ;
}

/// The mathematical value of a [`VerifiedToken`].
pub struct VerifiedTokenView {
    pub user_id: u128,
    pub username: Seq<char>,
    pub roles: Seq<Seq<char>>,
}

impl View for VerifiedToken {
    type V = VerifiedTokenView;

    open spec fn view(&self) -> VerifiedTokenView {
        VerifiedTokenView { user_id: self.user_id, username: self.username@, roles: string_views(self.roles@) }
    }
}

/// Verification port: checks signature and expiry and returns the core identity.
/// Any failure (signature, expiry, format) is `Unauthorized`, without the reason.
pub trait TokenVerifier {
    /// Whether `v` is an identity this verifier reads from `token` (when the token
    /// is valid at the time of the check). An implementation that does not define
    /// it claims nothing about what it reads.
    open spec fn reads(&self, token: Seq<char>, v: VerifiedTokenView) -> bool {
        true
    }

    fn verify(&self, token: &str) -> (r: Result<VerifiedToken, IdmError>)
        ensures
            r matches Ok(v) ==> self.reads(token@, v@),
            r is Err ==> r matches Err(IdmError::Unauthorized),
    ;
}

} // verus!
