//! The authentication service: registration, login, token refresh and logout,
//! profile reads and changes. It holds the repository, hasher and token ports,
//! validates inputs, normalises identifiers and passes the audit subject down.
//!
//! Against account enumeration, `login` answers an unknown identifier and a
//! wrong password with the same `Unauthorized`. Refresh tokens rotate: a
//! successful refresh revokes the session it used.
use vstd::prelude::*;

use crate::audit::{AuditContext, AuthUser};
use crate::clock::{clock_range, lifetime_fits, now_utc, Timestamp};
use crate::error::{is_internal, IdmError};
use crate::jwt::{copy_strings, generate_refresh, hash_refresh, refresh_digest};
use crate::password::PwHasher;
use crate::repo::{
    after_revoke_all, identity_taken, is_active, is_live, matches_identifier, opt_str_view,
    opt_string_view, revoke_first, role_names_for, string_views, user_of, RoleRepo, SessionRecord,
    SessionRepo, User, UserRecord, UserRepo, UserView,
};
use crate::text::{normalize, normalize_opt, normalized, normalized_opt};
use crate::token::{session_claims, TokenClaims, TokenSigner, TokenVerifier, VerifiedTokenView};
use crate::types::{
    email_form, lemma_byte_len_positive, ChangePasswordRequest, DeleteMeRequest, LoginRequest, RegisterRequest,
    UpdateMeRequest, UserResponse, UserResponseView,
};

verus! {

/// The outcome of an authentication: the user, the tokens to put in http-only
/// cookies (never in the response body) and the cookies' max-age in seconds.
#[derive(Debug)]
pub struct AuthOutcome {
    pub user: UserResponse,
    pub access_token: String,
    pub refresh_token: String,
    pub access_max_age_secs: i64,
    pub refresh_max_age_secs: i64,
}

/// The response for user `u` holding the roles named `roles`.
pub open spec fn response_of(u: UserView, roles: Seq<Seq<char>>) -> UserResponseView {
    UserResponseView { user: u, roles }
}

/// The record of a freshly registered user.
pub open spec fn new_user_record(
    username: Seq<char>,
    email: Option<Seq<char>>,
    password_hash: Seq<char>,
) -> UserRecord {
    UserRecord { username, email, email_verified: false, password_hash, deleted: false }
}

/// `r` with its password hash replaced by `phc`.
pub open spec fn with_password_hash(r: UserRecord, phc: Seq<char>) -> UserRecord {
    UserRecord { password_hash: phc, ..r }
}

/// `after` is `before` plus one unrevoked session of `user_id` whose stored hash is
/// the digest of `refresh_token`.
pub open spec fn issued_session(
    before: Seq<SessionRecord>,
    after: Seq<SessionRecord>,
    user_id: u128,
    refresh_token: Seq<char>,
) -> bool {
    exists|rec: SessionRecord|
        after == #[trigger] before.push(rec) && rec.user_id == user_id && rec.token_hash
            == refresh_digest(refresh_token) && !rec.revoked
}

/// The response shape of a user with its roles.
pub fn to_response(user: &User, roles: Vec<String>) -> (r: UserResponse)
    ensures
        r@ == response_of(user@, string_views(roles@)),
{
    UserResponse {
        id: user.id,
        username: user.username.clone(),
        email: crate::repo::copy_opt_string(&user.email),
        email_verified: user.email_verified,
        roles,
    }
}

/// An optional owned string, borrowed.
fn opt_as_str(o: &Option<String>) -> (r: Option<&str>)
    ensures
        opt_str_view(r) == opt_string_view(*o),
{
    match o {
        Some(s) => Some(s.as_str()),
        None => None,
    }
}

/// What a lookup that must find something answers: the value it found,
/// `Unauthorized` when it found none, and a failed lookup's own error.
pub fn found_or_unauthorized<T>(found: Result<Option<T>, IdmError>) -> (r: Result<T, IdmError>)
    ensures
        found matches Ok(Some(v)) ==> r == Ok::<T, IdmError>(v),
        found matches Ok(None) ==> (r matches Err(IdmError::Unauthorized)),
        found matches Err(e) ==> r == Err::<T, IdmError>(e),
{
    match found {
        Ok(Some(v)) => Ok(v),
        Ok(None) => Err(IdmError::Unauthorized),
        Err(e) => Err(e),
    }
}

/// What a password check answers: `Ok` when the password matched,
/// `Unauthorized` when it did not, and a failed check's own error.
pub fn password_checked(checked: Result<bool, IdmError>) -> (r: Result<(), IdmError>)
    ensures
        checked == Ok::<bool, IdmError>(true) ==> r is Ok,
        checked == Ok::<bool, IdmError>(false) ==> (r matches Err(IdmError::Unauthorized)),
        checked matches Err(e) ==> r == Err::<(), IdmError>(e),
{
    match checked {
        Ok(true) => Ok(()),
        Ok(false) => Err(IdmError::Unauthorized),
        Err(e) => Err(e),
    }
}

/// The authentication service over its ports.
pub struct AuthService<U, S, R, H, T> {
    pub users: U,
    pub sessions: S,
    pub roles: R,
    pub hasher: H,
    pub tokens: T,
    /// Lifetime of access tokens, in seconds.
    pub access_ttl_secs: i64,
    /// Lifetime of refresh sessions, in seconds.
    pub refresh_ttl_secs: i64,
}

impl<U: UserRepo, S: SessionRepo, R: RoleRepo, H: PwHasher, T: TokenSigner + TokenVerifier> AuthService<
    U,
    S,
    R,
    H,
    T,
> {
    /// The repositories are consistent.
    pub open spec fn wf(&self) -> bool {
        &&& self.users.inv()
        &&& self.sessions.inv()
        &&& self.roles.inv()
    }

    /// A service over the given ports and token lifetimes.
    pub fn new(
        users: U,
        sessions: S,
        roles: R,
        hasher: H,
        tokens: T,
        access_ttl_secs: i64,
        refresh_ttl_secs: i64,
    ) -> (r: Self)
        requires
            users.inv(),
            sessions.inv(),
            roles.inv(),
        ensures
            r.wf(),
            r.users == users,
            r.sessions == sessions,
            r.roles == roles,
            r.access_ttl_secs == access_ttl_secs,
            r.refresh_ttl_secs == refresh_ttl_secs,
    {
        AuthService { users, sessions, roles, hasher, tokens, access_ttl_secs, refresh_ttl_secs }
    }

    /// The instant `ttl_secs` seconds after `now` is within the range of instants.
    pub open spec fn expiry_in_range(now: Timestamp, ttl_secs: i64) -> bool {
        i64::MIN <= now.secs() + ttl_secs <= i64::MAX
    }

    /// `after` keeps the hasher, the signer, the lifetimes and how reliable each
    /// repository is.
    pub open spec fn same_ports(self, after: Self) -> bool {
        &&& after.hasher == self.hasher
        &&& after.tokens == self.tokens
        &&& after.access_ttl_secs == self.access_ttl_secs
        &&& after.refresh_ttl_secs == self.refresh_ttl_secs
        &&& after.users.reliable() == self.users.reliable()
        &&& after.sessions.reliable() == self.sessions.reliable()
        &&& after.roles.reliable() == self.roles.reliable()
    }

    /// None of the repositories can fail.
    pub open spec fn stores_reliable(&self) -> bool {
        &&& self.users.reliable()
        &&& self.sessions.reliable()
        &&& self.roles.reliable()
    }

    /// Issuing a session at `now` cannot fail: the repositories and the signer
    /// cannot, and both expiries are within the range of instants.
    pub open spec fn can_issue(&self, now: Timestamp) -> bool {
        &&& self.stores_reliable()
        &&& self.tokens.reliable()
        &&& Self::expiry_in_range(now, self.refresh_ttl_secs)
        &&& Self::expiry_in_range(now, self.access_ttl_secs)
    }

    /// `o` is a session issued at `now` for user `u`, taking the sessions from
    /// `before` to those of `after`: one new unrevoked session of `u` holds the
    /// digest of `o`'s refresh token and expires a refresh lifetime after `now`;
    /// the access token is what the signer makes of `u`'s claims with that
    /// session's id as `jti`, `u`'s roles and the access lifetime; the response
    /// carries `u` with its roles, and the cookies' max-ages are the lifetimes.
    pub open spec fn issued(
        self,
        before: Seq<SessionRecord>,
        after: Self,
        u: UserView,
        now: Timestamp,
        o: AuthOutcome,
    ) -> bool {
        let roles = role_names_for(self.roles.roles(), self.roles.grants(), u.id);
        let s = after.sessions.sessions();
        &&& issued_session(before, s, u.id, o.refresh_token@)
        &&& s.last().expires_at == now.nanos() + self.refresh_ttl_secs * 1_000_000_000
        &&& self.tokens.signs(
            session_claims(u, s.last().id, roles, now, self.access_ttl_secs),
            o.access_token@,
        )
        &&& o.user@ == response_of(u, roles)
        &&& o.access_max_age_secs == self.access_ttl_secs
        &&& o.refresh_max_age_secs == self.refresh_ttl_secs
    }

    /// Issues a session for `user` at `now`: reads its roles, makes a refresh token,
    /// stores the session (expiring after the refresh lifetime) and signs an access
    /// token (expiring after the access lifetime) carrying the roles.
    fn issue_session(&mut self, user: &User, by: Option<String>, now: Timestamp) -> (r: Result<
        AuthOutcome,
        IdmError,
    >)
        requires
            old(self).wf(),
        ensures
            final(self).wf(),
            final(self).users.records() == old(self).users.records(),
            final(self).roles.roles() == old(self).roles.roles(),
            final(self).roles.grants() == old(self).roles.grants(),
            old(self).same_ports(*final(self)),
            r matches Ok(o) ==> old(self).issued(
                old(self).sessions.sessions(),
                *final(self),
                user@,
                now,
                o,
            ),
            r is Err ==> is_internal(r),
            old(self).can_issue(now) ==> r is Ok,
            !(Self::expiry_in_range(now, old(self).refresh_ttl_secs) && Self::expiry_in_range(
                now,
                old(self).access_ttl_secs,
            )) ==> r is Err && final(self).sessions.sessions() == old(self).sessions.sessions(),
    {
        let roles = match self.roles.roles_for_user(user.id) {
            Ok(v) => v,
            Err(e) => {
                return Err(e);
            },
        };
        let expires_at = match now.checked_add_seconds(self.refresh_ttl_secs) {
            Some(t) => t,
            None => {
                return Err(IdmError::Internal(String::from_str("session expiry out of range")));
            },
        };
        // Fail on an out-of-range access expiry before any session is stored.
        match now.checked_add_seconds(self.access_ttl_secs) {
            Some(_) => {},
            None => {
                return Err(IdmError::Internal(String::from_str("token expiry out of range")));
            },
        }
        let (refresh, refresh_hash) = generate_refresh();
        let session = match self.sessions.create(user.id, refresh_hash.as_str(), expires_at, by) {
            Ok(s) => s,
            Err(e) => {
                return Err(e);
            },
        };
        proof {
            let rec = SessionRecord {
                id: session.id,
                user_id: user.id,
                token_hash: refresh_hash@,
                expires_at: expires_at.nanos(),
                revoked: false,
            };
            assert(self.sessions.sessions() == old(self).sessions.sessions().push(rec));
        }
        let claims = match TokenClaims::for_session(
            user,
            session.id,
            copy_strings(&roles),
            now,
            self.access_ttl_secs,
        ) {
            Some(c) => c,
            None => {
                return Err(IdmError::Internal(String::from_str("token expiry out of range")));
            },
        };
        let access = match self.tokens.sign(&claims) {
            Ok(t) => t,
            Err(e) => {
                return Err(e);
            },
        };
        Ok(
            AuthOutcome {
                user: to_response(user, roles),
                access_token: access,
                refresh_token: refresh,
                access_max_age_secs: self.access_ttl_secs,
                refresh_max_age_secs: self.refresh_ttl_secs,
            },
        )
    }

    /// What registering `input` does, from `self` to `after` with result `r`,
    /// whenever it happens.
    pub open spec fn registration(
        self,
        after: Self,
        input: RegisterRequest,
        r: Result<AuthOutcome, IdmError>,
    ) -> bool {
        let un = normalized(input.username@);
        let em = normalized_opt(opt_string_view(input.email));
        let m = self.users.records();
        &&& self.same_ports(after)
        &&& after.roles.roles() == self.roles.roles()
        &&& after.roles.grants() == self.roles.grants()
        &&& (r matches Err(IdmError::Validation(_))) == !input.spec_valid()
        &&& !input.spec_valid() ==> after.users.records() == m && after.sessions.sessions()
            == self.sessions.sessions()
        &&& r matches Err(IdmError::Conflict(_)) ==> input.spec_valid() && identity_taken(
            m,
            un,
            em,
            None,
        )
        &&& input.spec_valid() && identity_taken(m, un, em, None) ==> r is Err && (!is_internal(r)
            ==> after.users.records() == m && after.sessions.sessions() == self.sessions.sessions())
        &&& input.spec_valid() && !identity_taken(m, un, em, None) ==> r is Ok || is_internal(r)
        &&& r matches Ok(o) ==> {
            &&& input.spec_valid()
            &&& (input.email matches Some(e) ==> e@.len() > 0)
            &&& !identity_taken(m, un, em, None)
            &&& !m.contains_key(o.user.id)
            &&& exists|phc: Seq<char>|
                self.hasher.accepts(input.password@, phc) == Some(true)
                    && after.users.records() == m.insert(
                    o.user.id,
                    #[trigger] new_user_record(un, em, phc),
                )
            &&& o.user@ == response_of(
                UserView { id: o.user.id, username: un, email: em, email_verified: false },
                role_names_for(self.roles.roles(), self.roles.grants(), o.user.id),
            )
            &&& issued_session(
                self.sessions.sessions(),
                after.sessions.sessions(),
                o.user.id,
                o.refresh_token@,
            )
        }
    }

    /// What registering `input` at instant `now` does: as `registration`, with
    /// the session issued at `now`, and an `Internal` failure only where the
    /// hasher, a repository or the signer failed, or an expiry left the range of
    /// instants.
    pub open spec fn registration_at(
        self,
        after: Self,
        input: RegisterRequest,
        now: Timestamp,
        r: Result<AuthOutcome, IdmError>,
    ) -> bool {
        &&& self.registration(after, input, r)
        &&& r matches Ok(o) ==> self.issued(
            self.sessions.sessions(),
            after,
            UserView {
                id: o.user.id,
                username: normalized(input.username@),
                email: normalized_opt(opt_string_view(input.email)),
                email_verified: false,
            },
            now,
            o,
        )
        &&& !(Self::expiry_in_range(now, self.refresh_ttl_secs) && Self::expiry_in_range(
            now,
            self.access_ttl_secs,
        )) ==> r is Err
        &&& self.hasher.reliable() && self.can_issue(now) ==> !is_internal(r)
    }

    /// Registration at instant `now`: validate, normalise username and email, hash
    /// the password, create the user, issue a session expiring `refresh_ttl_secs`
    /// after `now`.
    pub fn register_at(&mut self, input: RegisterRequest, ctx: &AuditContext, now: Timestamp) -> (r:
        Result<AuthOutcome, IdmError>)
        requires
            old(self).wf(),
        ensures
            final(self).wf(),
            old(self).registration_at(*final(self), input, now, r),
    {
        match input.validate() {
            Ok(()) => {},
            Err(e) => {
                return Err(e);
            },
        }
        let username = normalize(input.username.as_str());
        let email = normalize_opt(&input.email);
        let hash = match self.hasher.hash(input.password.as_str()) {
            Ok(h) => h,
            Err(e) => {
                return Err(e);
            },
        };
        let user = match self.users.create(
            username.as_str(),
            opt_as_str(&email),
            hash.as_str(),
            ctx.audit_id(),
        ) {
            Ok(u) => u,
            Err(e) => {
                return Err(e);
            },
        };
        proof {
            assert(self.users.records() == old(self).users.records().insert(
                user.id,
                new_user_record(username@, opt_string_view(email), hash@),
            ));
        }
        self.issue_session(&user, ctx.audit_id(), now)
    }

    /// Registration: validate, normalise username and email, hash the password,
    /// create the user, issue a session.
    pub fn register(&mut self, input: RegisterRequest, ctx: &AuditContext) -> (r: Result<
        AuthOutcome,
        IdmError,
    >)
        requires
            old(self).wf(),
        ensures
            final(self).wf(),
            old(self).registration(*final(self), input, r),
            exists|now: Timestamp|
                clock_range(now) && #[trigger] old(self).registration_at(*final(self), input, now, r),
            old(self).hasher.reliable() && old(self).stores_reliable() && old(self).tokens.reliable()
                && lifetime_fits(old(self).access_ttl_secs) && lifetime_fits(old(self).refresh_ttl_secs)
                ==> !is_internal(r),
    {
        let now = now_utc();
        let r = self.register_at(input, ctx, now);
        assert(old(self).registration_at(*self, input, now, r));
        r
    }

    /// What a login with `input` does, from `self` to `after` with result `r`,
    /// whenever it happens. An unknown identifier and a wrong password give the
    /// same `Unauthorized`.
    pub open spec fn login_result(
        self,
        after: Self,
        input: LoginRequest,
        r: Result<AuthOutcome, IdmError>,
    ) -> bool {
        let m = self.users.records();
        let ident = normalized(input.identifier@);
        &&& self.same_ports(after)
        &&& after.users.records() == m
        &&& after.roles.roles() == self.roles.roles()
        &&& after.roles.grants() == self.roles.grants()
        &&& (r matches Err(IdmError::Validation(_))) == !input.spec_valid()
        &&& ((r matches Err(IdmError::Unauthorized)) || (r matches Err(IdmError::Validation(_))))
            ==> after.sessions.sessions() == self.sessions.sessions()
        &&& !is_internal(r) && input.spec_valid() && (forall|id: u128| #[trigger]
            m.contains_key(id) ==> !matches_identifier(m[id], ident)) ==> (r matches Err(
            IdmError::Unauthorized,
        ))
        &&& !is_internal(r) && input.spec_valid() && (forall|id: u128| #[trigger]
            m.contains_key(id) && matches_identifier(m[id], ident) ==> self.hasher.accepts(
                input.password@,
                m[id].password_hash,
            ) == Some(false)) ==> (r matches Err(IdmError::Unauthorized))
        &&& self.users.reliable() && self.hasher.reliable() && input.spec_valid() && (forall|
            id: u128,
        | #[trigger]
            m.contains_key(id) && matches_identifier(m[id], ident) ==> self.hasher.accepts(
                input.password@,
                m[id].password_hash,
            ) == Some(false)) ==> (r matches Err(IdmError::Unauthorized))
        &&& input.spec_valid() && (exists|id: u128| #[trigger]
            m.contains_key(id) && matches_identifier(m[id], ident)) && (forall|id: u128| #[trigger]
            m.contains_key(id) && matches_identifier(m[id], ident) ==> self.hasher.accepts(
                input.password@,
                m[id].password_hash,
            ) == Some(true)) ==> r is Ok || is_internal(r)
        &&& r matches Ok(o) ==> {
            &&& input.spec_valid()
            &&& m.contains_key(o.user.id)
            &&& matches_identifier(m[o.user.id], ident)
            &&& self.hasher.accepts(input.password@, m[o.user.id].password_hash) == Some(true)
            &&& o.user@ == response_of(
                user_of(o.user.id, m[o.user.id]),
                role_names_for(self.roles.roles(), self.roles.grants(), o.user.id),
            )
            &&& issued_session(
                self.sessions.sessions(),
                after.sessions.sessions(),
                o.user.id,
                o.refresh_token@,
            )
        }
    }

    /// What a login with `input` at instant `now` does: as `login_result`, with
    /// the session issued at `now`, and an `Internal` failure only where a port
    /// failed, the stored hash was unreadable, or an expiry left the range of
    /// instants.
    pub open spec fn login_at_result(
        self,
        after: Self,
        input: LoginRequest,
        now: Timestamp,
        r: Result<AuthOutcome, IdmError>,
    ) -> bool {
        let m = self.users.records();
        let ident = normalized(input.identifier@);
        &&& self.login_result(after, input, r)
        &&& r matches Ok(o) ==> self.issued(
            self.sessions.sessions(),
            after,
            user_of(o.user.id, m[o.user.id]),
            now,
            o,
        )
        &&& self.hasher.reliable() && self.can_issue(now) && (forall|id: u128| #[trigger]
            m.contains_key(id) && matches_identifier(m[id], ident) ==> self.hasher.accepts(
                input.password@,
                m[id].password_hash,
            ) is Some) ==> !is_internal(r)
    }

    /// Login at instant `now`: validate, normalise the identifier (a username or an
    /// email), look the user up, check the password, issue a session expiring
    /// `refresh_ttl_secs` after `now`.
    pub fn login_at(&mut self, input: LoginRequest, now: Timestamp) -> (r: Result<AuthOutcome, IdmError>)
        requires
            old(self).wf(),
        ensures
            final(self).wf(),
            old(self).login_at_result(*final(self), input, now, r),
    {
        match input.validate() {
            Ok(()) => {},
            Err(e) => {
                return Err(e);
            },
        }
        let identifier = normalize(input.identifier.as_str());
        let found = match found_or_unauthorized(self.users.find_by_identifier(identifier.as_str())) {
            Ok(f) => f,
            Err(e) => {
                return Err(e);
            },
        };
        match password_checked(self.hasher.verify(input.password.as_str(), found.password_hash.as_str())) {
            Ok(()) => {},
            Err(e) => {
                return Err(e);
            },
        }
        self.issue_session(&found.user, None, now)
    }

    /// Login: validate, normalise the identifier (a username or an email), look the
    /// user up, check the password, issue a session. An unknown identifier and a
    /// wrong password give the same `Unauthorized`.
    pub fn login(&mut self, input: LoginRequest) -> (r: Result<AuthOutcome, IdmError>)
        requires
            old(self).wf(),
        ensures
            final(self).wf(),
            old(self).login_result(*final(self), input, r),
            exists|now: Timestamp|
                clock_range(now) && #[trigger] old(self).login_at_result(*final(self), input, now, r),
            ({
                let m = old(self).users.records();
                old(self).hasher.reliable() && old(self).stores_reliable() && old(self).tokens.reliable()
                    && lifetime_fits(old(self).access_ttl_secs) && lifetime_fits(
                    old(self).refresh_ttl_secs,
                ) && (forall|id: u128| #[trigger]
                    m.contains_key(id) && matches_identifier(m[id], normalized(input.identifier@))
                        ==> old(self).hasher.accepts(input.password@, m[id].password_hash) is Some)
                    ==> !is_internal(r)
            }),
    {
        let now = now_utc();
        let r = self.login_at(input, now);
        assert(old(self).login_at_result(*self, input, now, r));
        r
    }

    /// The identity carried by a valid access token (with roles, for role checks).
    /// Any failure is `Unauthorized`.
    pub fn authenticate_token(&self, token: &str) -> (r: Result<AuthUser, IdmError>)
        ensures
            r is Err ==> r matches Err(IdmError::Unauthorized),
            r matches Ok(u) ==> self.tokens.reads(
                token@,
                VerifiedTokenView { user_id: u.id, username: u.username@, roles: string_views(u.roles@) },
            ),
    {
        match self.tokens.verify(token) {
            Ok(v) => Ok(AuthUser::from_verified(v)),
            Err(e) => Err(e),
        }
    }

    /// The profile of live user `user_id` with its roles; `NotFound` when absent or deleted.
    pub fn me(&self, user_id: u128) -> (r: Result<UserResponse, IdmError>)
        requires
            self.wf(),
        ensures
            !is_internal(r) && is_live(self.users.records(), user_id) ==> (r matches Ok(resp) && resp@
                == response_of(
                user_of(user_id, self.users.records()[user_id]),
                role_names_for(self.roles.roles(), self.roles.grants(), user_id),
            )),
            !is_internal(r) && !is_live(self.users.records(), user_id) ==> r matches Err(
                IdmError::NotFound,
            ),
            self.users.reliable() && self.roles.reliable() ==> !is_internal(r),
    {
        let user = match self.users.find_by_id(user_id) {
            Ok(u) => u,
            Err(e) => {
                return Err(e);
            },
        };
        let roles = match self.roles.roles_for_user(user_id) {
            Ok(v) => v,
            Err(e) => {
                return Err(e);
            },
        };
        Ok(to_response(&user, roles))
    }

    /// What a refresh with `refresh_token` does, from `self` to `after` with result
    /// `r`, whenever it happens.
    pub open spec fn refresh_result(
        self,
        after: Self,
        refresh_token: Seq<char>,
        r: Result<AuthOutcome, IdmError>,
    ) -> bool {
        let s = self.sessions.sessions();
        let digest = refresh_digest(refresh_token);
        &&& self.same_ports(after)
        &&& after.users.records() == self.users.records()
        &&& after.roles.roles() == self.roles.roles()
        &&& after.roles.grants() == self.roles.grants()
        &&& (!is_internal(r) || self.sessions.reliable()) && (forall|i: int|
            0 <= i < s.len() ==> !(#[trigger] s[i].token_hash == digest && !s[i].revoked))
            ==> (r matches Err(IdmError::Unauthorized))
        &&& r matches Err(IdmError::Unauthorized) ==> after.sessions.sessions() == s
        &&& r matches Ok(o) ==> exists|i: int|
            0 <= i < s.len() && {
                let t = #[trigger] s[i];
                &&& t.token_hash == digest
                &&& !t.revoked
                &&& is_live(self.users.records(), t.user_id)
                &&& issued_session(
                    revoke_first(s, t.id),
                    after.sessions.sessions(),
                    t.user_id,
                    o.refresh_token@,
                )
                &&& o.user@ == response_of(
                    user_of(t.user_id, self.users.records()[t.user_id]),
                    role_names_for(self.roles.roles(), self.roles.grants(), t.user_id),
                )
            }
    }

    /// What a refresh with `refresh_token` at instant `now` does: as
    /// `refresh_result`, with the sessions active at `now`. No such session is
    /// `Unauthorized`; when every such session's user is gone, `NotFound`; an
    /// `Internal` failure only where a port failed or an expiry left the range of
    /// instants.
    pub open spec fn refresh_at_result(
        self,
        after: Self,
        refresh_token: Seq<char>,
        now: Timestamp,
        r: Result<AuthOutcome, IdmError>,
    ) -> bool {
        let s = self.sessions.sessions();
        let m = self.users.records();
        let digest = refresh_digest(refresh_token);
        &&& self.refresh_result(after, refresh_token, r)
        &&& (!is_internal(r) || self.sessions.reliable()) && (forall|i: int|
            0 <= i < s.len() ==> !is_active(#[trigger] s[i], digest, now.nanos())) ==> (r matches Err(
            IdmError::Unauthorized,
        ))
        &&& r matches Ok(o) ==> exists|i: int|
            0 <= i < s.len() && is_active(#[trigger] s[i], digest, now.nanos()) && self.issued(
                revoke_first(s, s[i].id),
                after,
                user_of(s[i].user_id, m[s[i].user_id]),
                now,
                o,
            )
        &&& !is_internal(r) && (exists|i: int|
            0 <= i < s.len() && is_active(#[trigger] s[i], digest, now.nanos())) && (forall|i: int|
            0 <= i < s.len() && is_active(#[trigger] s[i], digest, now.nanos()) ==> !is_live(
                m,
                s[i].user_id,
            )) ==> (r matches Err(IdmError::NotFound))
        &&& (exists|i: int| 0 <= i < s.len() && is_active(#[trigger] s[i], digest, now.nanos())) && (
        forall|i: int|
            0 <= i < s.len() && is_active(#[trigger] s[i], digest, now.nanos()) ==> is_live(
                m,
                s[i].user_id,
            )) && Self::expiry_in_range(now, self.refresh_ttl_secs) && Self::expiry_in_range(
            now,
            self.access_ttl_secs,
        ) ==> r is Ok || is_internal(r)
        &&& self.can_issue(now) ==> !is_internal(r)
    }

    /// Refresh at instant `now`: find a session active at `now` holding the token's
    /// digest, revoke it (a refresh token is single-use), then issue a new session
    /// for its user. No such session is `Unauthorized`; a user that is gone is
    /// `NotFound`.
    pub fn refresh_at(&mut self, refresh_token: &str, now: Timestamp) -> (r: Result<AuthOutcome, IdmError>)
        requires
            old(self).wf(),
        ensures
            final(self).wf(),
            old(self).refresh_at_result(*final(self), refresh_token@, now, r),
    {
        let hash = hash_refresh(refresh_token);
        let session = match found_or_unauthorized(self.sessions.find_active(hash.as_str(), now)) {
            Ok(s) => s,
            Err(e) => {
                return Err(e);
            },
        };
        let ghost i = choose|i: int|
            0 <= i < old(self).sessions.sessions().len() && is_active(
                #[trigger] old(self).sessions.sessions()[i],
                hash@,
                now.nanos(),
            ) && old(self).sessions.sessions()[i].id == session.id
                && old(self).sessions.sessions()[i].user_id == session.user_id;
        match self.sessions.revoke(session.id) {
            Ok(()) => {},
            Err(e) => {
                return Err(e);
            },
        }
        let user = match self.users.find_by_id(session.user_id) {
            Ok(u) => u,
            Err(e) => {
                return Err(e);
            },
        };
        let r = self.issue_session(&user, None, now);
        proof {
            let s = old(self).sessions.sessions()[i];
            assert(s.token_hash == refresh_digest(refresh_token@));
        }
        r
    }

    /// Refresh: find the active session holding the token's digest, revoke it (a
    /// refresh token is single-use), then issue a new session for its user. An
    /// unknown, expired or revoked token is `Unauthorized`.
    pub fn refresh(&mut self, refresh_token: &str) -> (r: Result<AuthOutcome, IdmError>)
        requires
            old(self).wf(),
        ensures
            final(self).wf(),
            old(self).refresh_result(*final(self), refresh_token@, r),
            exists|now: Timestamp|
                clock_range(now) && #[trigger] old(self).refresh_at_result(
                    *final(self),
                    refresh_token@,
                    now,
                    r,
                ),
            old(self).stores_reliable() && old(self).tokens.reliable() && lifetime_fits(
                old(self).access_ttl_secs,
            ) && lifetime_fits(old(self).refresh_ttl_secs) ==> !is_internal(r),
    {
        let now = now_utc();
        let r = self.refresh_at(refresh_token, now);
        assert(old(self).refresh_at_result(*self, refresh_token@, now, r));
        r
    }

    /// What a logout with `refresh_token` does, from `self` to `after` with result
    /// `r`, whenever it happens: at most the one session it finds is revoked.
    pub open spec fn logout_result(
        self,
        after: Self,
        refresh_token: Seq<char>,
        r: Result<(), IdmError>,
    ) -> bool {
        let s = self.sessions.sessions();
        &&& self.same_ports(after)
        &&& r is Ok || is_internal(r)
        &&& self.sessions.reliable() ==> r is Ok
        &&& after.users.records() == self.users.records()
        &&& after.roles.roles() == self.roles.roles()
        &&& after.roles.grants() == self.roles.grants()
        &&& !is_internal(r) ==> after.sessions.sessions() == s || exists|i: int|
            0 <= i < s.len() && (#[trigger] s[i]).token_hash == refresh_digest(refresh_token)
                && !s[i].revoked && after.sessions.sessions() == revoke_first(s, s[i].id)
    }

    /// What a logout with `refresh_token` at instant `now` does: as
    /// `logout_result`, revoking a session active at `now` that holds the token's
    /// digest when there is one, and nothing otherwise.
    pub open spec fn logout_at_result(
        self,
        after: Self,
        refresh_token: Seq<char>,
        now: Timestamp,
        r: Result<(), IdmError>,
    ) -> bool {
        let s = self.sessions.sessions();
        let digest = refresh_digest(refresh_token);
        &&& self.logout_result(after, refresh_token, r)
        &&& !is_internal(r) && (forall|i: int|
            0 <= i < s.len() ==> !is_active(#[trigger] s[i], digest, now.nanos()))
            ==> after.sessions.sessions() == s
        &&& !is_internal(r) && (exists|i: int|
            0 <= i < s.len() && is_active(#[trigger] s[i], digest, now.nanos())) ==> exists|i: int|
            0 <= i < s.len() && is_active(#[trigger] s[i], digest, now.nanos())
                && after.sessions.sessions() == revoke_first(s, s[i].id)
    }

    /// Logout at instant `now`: revoke the session active at `now` holding the
    /// token's digest, if any. Always succeeds (logging out twice is fine).
    pub fn logout_at(&mut self, refresh_token: &str, now: Timestamp) -> (r: Result<(), IdmError>)
        requires
            old(self).wf(),
        ensures
            final(self).wf(),
            old(self).logout_at_result(*final(self), refresh_token@, now, r),
    {
        let hash = hash_refresh(refresh_token);
        match self.sessions.find_active(hash.as_str(), now) {
            Ok(Some(session)) => self.sessions.revoke(session.id),
            Ok(None) => Ok(()),
            Err(e) => Err(e),
        }
    }

    /// Logout: revoke the active session holding the token's digest, if any.
    /// Always succeeds (logging out twice is fine).
    pub fn logout(&mut self, refresh_token: &str) -> (r: Result<(), IdmError>)
        requires
            old(self).wf(),
        ensures
            final(self).wf(),
            old(self).logout_result(*final(self), refresh_token@, r),
            exists|now: Timestamp|
                clock_range(now) && #[trigger] old(self).logout_at_result(
                    *final(self),
                    refresh_token@,
                    now,
                    r,
                ),
    {
        let now = now_utc();
        let r = self.logout_at(refresh_token, now);
        assert(old(self).logout_at_result(*self, refresh_token@, now, r));
        r
    }

    /// Logout everywhere: revoke every active session of `user_id`.
    pub fn logout_all(&mut self, user_id: u128) -> (r: Result<(), IdmError>)
        requires
            old(self).wf(),
        ensures
            final(self).wf(),
            old(self).same_ports(*final(self)),
            r is Ok || is_internal(r),
            old(self).sessions.reliable() ==> r is Ok,
            final(self).users.records() == old(self).users.records(),
            final(self).roles.roles() == old(self).roles.roles(),
            final(self).roles.grants() == old(self).roles.grants(),
            !is_internal(r) ==> final(self).sessions.sessions() == old(self).sessions.sessions().map_values(
                |s: SessionRecord| after_revoke_all(s, user_id, None),
            ),
    {
        self.sessions.revoke_all(user_id, None)
    }

    /// Full profile update (PUT): validate, normalise, replace username and email
    /// (an absent email clears it; replacing resets `email_verified`).
    pub fn update_me(&mut self, user_id: u128, input: UpdateMeRequest, ctx: &AuditContext) -> (r:
        Result<UserResponse, IdmError>)
        requires
            old(self).wf(),
        ensures
            final(self).wf(),
            old(self).same_ports(*final(self)),
            final(self).sessions.sessions() == old(self).sessions.sessions(),
            final(self).roles.roles() == old(self).roles.roles(),
            final(self).roles.grants() == old(self).roles.grants(),
            r matches Err(IdmError::Validation(_)) <==> !input.spec_valid(),
            old(self).users.reliable() && old(self).roles.reliable() ==> !is_internal(r),
            input.email matches Some(e) ==> (!email_form(e@) ==> (r matches Err(
                IdmError::Validation(_),
            )) && final(self).users.records() == old(self).users.records()),
            ({
                let un = normalized(input.username@);
                let em = normalized_opt(opt_string_view(input.email));
                let m = old(self).users.records();
                &&& !input.spec_valid() ==> final(self).users.records() == m
                &&& !is_internal(r) && input.spec_valid() && identity_taken(m, un, em, Some(user_id)) ==> {
                    &&& r matches Err(IdmError::Conflict(_))
                    &&& final(self).users.records() == m
                }
                &&& !is_internal(r) && input.spec_valid() && !identity_taken(m, un, em, Some(user_id)) && !is_live(
                    m,
                    user_id,
                ) ==> {
                    &&& r matches Err(IdmError::NotFound)
                    &&& final(self).users.records() == m
                }
                &&& !is_internal(r) && input.spec_valid() && !identity_taken(m, un, em, Some(user_id)) && is_live(
                    m,
                    user_id,
                ) ==> {
                    let rec = UserRecord {
                        username: un,
                        email: em,
                        email_verified: false,
                        ..m[user_id]
                    };
                    &&& final(self).users.records() == m.insert(user_id, rec)
                    &&& r matches Ok(resp) && resp@ == response_of(
                        user_of(user_id, rec),
                        role_names_for(old(self).roles.roles(), old(self).roles.grants(), user_id),
                    )
                }
            }),
    {
        match input.validate() {
            Ok(()) => {},
            Err(e) => {
                return Err(e);
            },
        }
        let username = normalize(input.username.as_str());
        let email = normalize_opt(&input.email);
        let user = match self.users.update(user_id, username.as_str(), opt_as_str(&email), ctx.audit_id()) {
            Ok(u) => u,
            Err(e) => {
                return Err(e);
            },
        };
        let roles = match self.roles.roles_for_user(user_id) {
            Ok(v) => v,
            Err(e) => {
                return Err(e);
            },
        };
        Ok(to_response(&user, roles))
    }

    /// Account deletion: check the password, revoke every session, soft-delete the
    /// user. A wrong password, or a user that is gone, is `Unauthorized`.
    pub fn delete_me(&mut self, user_id: u128, input: DeleteMeRequest, by: Option<String>) -> (r:
        Result<(), IdmError>)
        requires
            old(self).wf(),
        ensures
            final(self).wf(),
            final(self).roles.roles() == old(self).roles.roles(),
            final(self).roles.grants() == old(self).roles.grants(),
            r matches Err(IdmError::Validation(_)) <==> !input.spec_valid(),
            r is Err && !is_internal(r) ==> final(self).users.records() == old(self).users.records()
                && final(self).sessions.sessions() == old(self).sessions.sessions(),
            !is_internal(r) && input.spec_valid() && !is_live(old(self).users.records(), user_id)
                ==> r matches Err(IdmError::Unauthorized),
            input.spec_valid() && is_live(old(self).users.records(), user_id) ==> {
                let m = old(self).users.records();
                match old(self).hasher.accepts(input.password@, m[user_id].password_hash) {
                    Some(true) => !is_internal(r) ==> {
                        &&& r is Ok
                        &&& final(self).users.records() == m.insert(
                            user_id,
                            UserRecord { deleted: true, ..m[user_id] },
                        )
                        &&& final(self).sessions.sessions() == old(
                            self,
                        ).sessions.sessions().map_values(
                            |s: SessionRecord| after_revoke_all(s, user_id, None),
                        )
                    },
                    Some(false) => !is_internal(r) ==> r matches Err(IdmError::Unauthorized),
                    None => is_internal(r),
                }
            },
            old(self).same_ports(*final(self)),
            old(self).users.reliable() && old(self).sessions.reliable() && old(self).hasher.reliable()
                && (is_live(old(self).users.records(), user_id) ==> old(self).hasher.accepts(
                input.password@,
                old(self).users.records()[user_id].password_hash,
            ) is Some) ==> !is_internal(r),
    {
        match input.validate() {
            Ok(()) => {},
            Err(e) => {
                return Err(e);
            },
        }
        let hash = match found_or_unauthorized(self.users.password_hash(user_id)) {
            Ok(h) => h,
            Err(e) => {
                return Err(e);
            },
        };
        match password_checked(self.hasher.verify(input.password.as_str(), hash.as_str())) {
            Ok(()) => {},
            Err(e) => {
                return Err(e);
            },
        }
        match self.sessions.revoke_all(user_id, None) {
            Ok(()) => {},
            Err(e) => {
                return Err(e);
            },
        }
        self.users.soft_delete(user_id, by)
    }

    /// Password change: check the current password, store the hash of the new one,
    /// revoke every session (forcing a new login). A wrong current password, or a
    /// user that is gone, is `Unauthorized`.
    pub fn change_password(&mut self, user_id: u128, input: ChangePasswordRequest) -> (r: Result<
        (),
        IdmError,
    >)
        requires
            old(self).wf(),
        ensures
            final(self).wf(),
            final(self).roles.roles() == old(self).roles.roles(),
            final(self).roles.grants() == old(self).roles.grants(),
            r matches Err(IdmError::Validation(_)) <==> !input.spec_valid(),
            r is Err && !is_internal(r) ==> final(self).users.records() == old(self).users.records()
                && final(self).sessions.sessions() == old(self).sessions.sessions(),
            !is_internal(r) && input.spec_valid() && !is_live(old(self).users.records(), user_id)
                ==> r matches Err(IdmError::Unauthorized),
            input.spec_valid() && is_live(old(self).users.records(), user_id) ==> {
                let m = old(self).users.records();
                match old(self).hasher.accepts(input.current_password@, m[user_id].password_hash) {
                    Some(true) => r is Ok || is_internal(r),
                    Some(false) => !is_internal(r) ==> r matches Err(IdmError::Unauthorized),
                    None => is_internal(r),
                }
            },
            old(self).same_ports(*final(self)),
            old(self).users.reliable() && old(self).sessions.reliable() && old(self).hasher.reliable()
                && (is_live(old(self).users.records(), user_id) ==> old(self).hasher.accepts(
                input.current_password@,
                old(self).users.records()[user_id].password_hash,
            ) is Some) ==> !is_internal(r),
            r is Ok ==> {
                let m = old(self).users.records();
                &&& input.spec_valid()
                &&& is_live(m, user_id)
                &&& old(self).hasher.accepts(input.current_password@, m[user_id].password_hash)
                    == Some(true)
                &&& exists|phc: Seq<char>|
                    old(self).hasher.accepts(input.new_password@, phc) == Some(true)
                        && final(self).users.records() == m.insert(
                        user_id,
                        #[trigger] with_password_hash(m[user_id], phc),
                    )
                &&& final(self).sessions.sessions() == old(self).sessions.sessions().map_values(
                    |s: SessionRecord| after_revoke_all(s, user_id, None),
                )
            },
    {
        match input.validate() {
            Ok(()) => {},
            Err(e) => {
                return Err(e);
            },
        }
        let hash = match found_or_unauthorized(self.users.password_hash(user_id)) {
            Ok(h) => h,
            Err(e) => {
                return Err(e);
            },
        };
        match password_checked(self.hasher.verify(input.current_password.as_str(), hash.as_str())) {
            Ok(()) => {},
            Err(e) => {
                return Err(e);
            },
        }
        let new_hash = match self.hasher.hash(input.new_password.as_str()) {
            Ok(h) => h,
            Err(e) => {
                return Err(e);
            },
        };
        match self.users.update_password(user_id, new_hash.as_str()) {
            Ok(()) => {},
            Err(e) => {
                return Err(e);
            },
        }
        proof {
            let m = old(self).users.records();
            assert(self.users.records() == m.insert(user_id, with_password_hash(m[user_id], new_hash@)));
        }
        self.sessions.revoke_all(user_id, None)
    }
}

/// A user logs in with what it registered: right after a registration of `reg`
/// succeeded (taking the service from `s0` to `s1`), a login at `now` with the
/// same username and password succeeds, unless a port fails; and when no port can
/// fail and the expiries of `now` are in range, it succeeds outright. The login
/// returns the registered user, email included. This holds
/// when no other live user has that username as its email, since a login
/// identifier is matched against usernames and emails alike.
pub proof fn lemma_login_after_register<
    U: UserRepo,
    S: SessionRepo,
    R: RoleRepo,
    H: PwHasher,
    T: TokenSigner + TokenVerifier,
>(
    s0: AuthService<U, S, R, H, T>,
    s1: AuthService<U, S, R, H, T>,
    s2: AuthService<U, S, R, H, T>,
    reg: RegisterRequest,
    registered: AuthOutcome,
    login: LoginRequest,
    now: Timestamp,
    r: Result<AuthOutcome, IdmError>,
)
    requires
        s0.registration(s1, reg, Ok(registered)),
        s1.login_at_result(s2, login, now, r),
        login.identifier@ == reg.username@,
        login.password@ == reg.password@,
        forall|id: u128| #[trigger]
            s0.users.records().contains_key(id) && !s0.users.records()[id].deleted
                ==> s0.users.records()[id].email != Some(normalized(reg.username@)),
    ensures
        r is Ok || is_internal(r),
        s1.hasher.reliable() && s1.can_issue(now) ==> r is Ok,
        r matches Ok(o) ==> o.user@ == registered.user@,
{
    let un = normalized(reg.username@);
    let em = normalized_opt(opt_string_view(reg.email));
    let m0 = s0.users.records();
    let m1 = s1.users.records();
    let uid = registered.user.id;
    let phc = choose|phc: Seq<char>|
        s0.hasher.accepts(reg.password@, phc) == Some(true) && m1 == m0.insert(
            uid,
            #[trigger] new_user_record(un, em, phc),
        );
    assert(login.spec_valid());
    assert(m1.contains_key(uid) && matches_identifier(m1[uid], un));
    assert forall|id: u128| #[trigger]
        m1.contains_key(id) && matches_identifier(m1[id], un) implies s1.hasher.accepts(
        login.password@,
        m1[id].password_hash,
    ) == Some(true) by {
        if id != uid {
            assert(m1[id] == m0[id]);
            if m0[id].username == un {
                assert(identity_taken(m0, un, em, None));
            }
        }
    }
    assert forall|id: u128| #[trigger]
        m1.contains_key(id) && matches_identifier(m1[id], un) implies id == uid by {
        if id != uid {
            assert(m1[id] == m0[id]);
            if m0[id].username == un {
                assert(identity_taken(m0, un, em, None));
            }
        }
    }
    lemma_registered_user_read_back(s0, s1, reg, registered);
}

/// A registered user is read back as it was registered: right after a
/// registration of `reg` succeeded (taking the service from `s0` to `s1`), the
/// new user is live, and the user and roles that `me`, `login` and `refresh`
/// return for its id (the stored record read back, with its role names) are
/// what the registration returned: the normalised username and email of `reg`,
/// the email unverified.
pub proof fn lemma_registered_user_read_back<
    U: UserRepo,
    S: SessionRepo,
    R: RoleRepo,
    H: PwHasher,
    T: TokenSigner + TokenVerifier,
>(
    s0: AuthService<U, S, R, H, T>,
    s1: AuthService<U, S, R, H, T>,
    reg: RegisterRequest,
    registered: AuthOutcome,
)
    requires
        s0.registration(s1, reg, Ok(registered)),
    ensures
        ({
            let uid = registered.user.id;
            let m1 = s1.users.records();
            &&& is_live(m1, uid)
            &&& user_of(uid, m1[uid]).username == normalized(reg.username@)
            &&& user_of(uid, m1[uid]).email == normalized_opt(opt_string_view(reg.email))
            &&& !user_of(uid, m1[uid]).email_verified
            &&& response_of(
                user_of(uid, m1[uid]),
                role_names_for(s1.roles.roles(), s1.roles.grants(), uid),
            ) == registered.user@
        }),
{
    let un = normalized(reg.username@);
    let em = normalized_opt(opt_string_view(reg.email));
    let m0 = s0.users.records();
    let m1 = s1.users.records();
    let uid = registered.user.id;
    let phc = choose|phc: Seq<char>|
        s0.hasher.accepts(reg.password@, phc) == Some(true) && m1 == m0.insert(
            uid,
            #[trigger] new_user_record(un, em, phc),
        );
    assert(m1[uid] == new_user_record(un, em, phc));
}

/// A refresh right after registration gives back the registered user: once a
/// registration of `reg` succeeded (taking the service from `s0` to `s1`), a
/// successful refresh with the refresh token it returned yields the user that the
/// registration returned, username, email and roles alike. This holds when no
/// earlier session held the digest of that token.
pub proof fn lemma_refresh_after_register_same_user<
    U: UserRepo,
    S: SessionRepo,
    R: RoleRepo,
    H: PwHasher,
    T: TokenSigner + TokenVerifier,
>(
    s0: AuthService<U, S, R, H, T>,
    s1: AuthService<U, S, R, H, T>,
    s2: AuthService<U, S, R, H, T>,
    reg: RegisterRequest,
    registered: AuthOutcome,
    r: Result<AuthOutcome, IdmError>,
)
    requires
        s0.registration(s1, reg, Ok(registered)),
        s1.refresh_result(s2, registered.refresh_token@, r),
        forall|i: int|
            0 <= i < s0.sessions.sessions().len() ==> (#[trigger] s0.sessions.sessions()[i]).token_hash
                != refresh_digest(registered.refresh_token@),
    ensures
        r matches Ok(o) ==> o.user@ == registered.user@,
{
    let uid = registered.user.id;
    let s = s1.sessions.sessions();
    let before = s0.sessions.sessions();
    let digest = refresh_digest(registered.refresh_token@);
    let rec = choose|rec: SessionRecord|
        s == #[trigger] before.push(rec) && rec.user_id == uid && rec.token_hash
            == refresh_digest(registered.refresh_token@) && !rec.revoked;
    lemma_registered_user_read_back(s0, s1, reg, registered);
    if r is Ok {
        let i = choose|i: int|
            0 <= i < s.len() && {
                let t = #[trigger] s[i];
                &&& t.token_hash == digest
                &&& !t.revoked
                &&& is_live(s1.users.records(), t.user_id)
                &&& issued_session(
                    revoke_first(s, t.id),
                    s2.sessions.sessions(),
                    t.user_id,
                    r->Ok_0.refresh_token@,
                )
                &&& r->Ok_0.user@ == response_of(
                    user_of(t.user_id, s1.users.records()[t.user_id]),
                    role_names_for(s1.roles.roles(), s1.roles.grants(), t.user_id),
                )
            };
        if i < before.len() {
            assert(s[i] == before[i]);
        }
        assert(i == before.len());
        assert(s[i] == rec);
    }
}

/// A user logs in with its email too, whatever the email's length: right after a
/// registration of `reg` with an email succeeded (taking the service from `s0`
/// to `s1`), a login at `now` whose identifier is that email, with the same
/// password, succeeds unless a port fails, and outright when no port can fail
/// and the expiries of `now` are in range; the login returns the registered
/// user, email included. This holds when no other live user has that email as
/// its username, since a login identifier is matched against usernames and
/// emails alike.
pub proof fn lemma_login_by_email_after_register<
    U: UserRepo,
    S: SessionRepo,
    R: RoleRepo,
    H: PwHasher,
    T: TokenSigner + TokenVerifier,
>(
    s0: AuthService<U, S, R, H, T>,
    s1: AuthService<U, S, R, H, T>,
    s2: AuthService<U, S, R, H, T>,
    reg: RegisterRequest,
    registered: AuthOutcome,
    login: LoginRequest,
    now: Timestamp,
    r: Result<AuthOutcome, IdmError>,
)
    requires
        s0.registration(s1, reg, Ok(registered)),
        s1.login_at_result(s2, login, now, r),
        opt_string_view(reg.email) == Some(login.identifier@),
        login.password@ == reg.password@,
        forall|id: u128| #[trigger]
            s0.users.records().contains_key(id) && !s0.users.records()[id].deleted
                ==> s0.users.records()[id].username != normalized(login.identifier@),
    ensures
        r is Ok || is_internal(r),
        s1.hasher.reliable() && s1.can_issue(now) ==> r is Ok,
        r matches Ok(o) ==> o.user@ == registered.user@,
{
    let un = normalized(reg.username@);
    let ident = normalized(login.identifier@);
    let em = normalized_opt(opt_string_view(reg.email));
    let m0 = s0.users.records();
    let m1 = s1.users.records();
    let uid = registered.user.id;
    let phc = choose|phc: Seq<char>|
        s0.hasher.accepts(reg.password@, phc) == Some(true) && m1 == m0.insert(
            uid,
            #[trigger] new_user_record(un, em, phc),
        );
    assert(em == Some(ident));
    lemma_byte_len_positive(login.identifier@);
    lemma_byte_len_positive(login.password@);
    lemma_byte_len_positive(reg.password@);
    assert(login.spec_valid());
    assert(m1.contains_key(uid) && matches_identifier(m1[uid], ident));
    assert forall|id: u128| #[trigger]
        m1.contains_key(id) && matches_identifier(m1[id], ident) implies id == uid by {
        if id != uid {
            assert(m1[id] == m0[id]);
            if m0[id].email == Some(ident) {
                assert(identity_taken(m0, un, em, None));
            }
        }
    }
    assert forall|id: u128| #[trigger]
        m1.contains_key(id) && matches_identifier(m1[id], ident) implies s1.hasher.accepts(
        login.password@,
        m1[id].password_hash,
    ) == Some(true) by {
        assert(id == uid);
    }
    lemma_registered_user_read_back(s0, s1, reg, registered);
}

/// A deleted account no longer logs in: once user `user_id` is soft-deleted (what
/// a successful `delete_me` does to the users), a valid login whose identifier only
/// that user matched is `Unauthorized` (unless the user repository or the hasher,
/// which may fail, failed).
pub proof fn lemma_deleted_user_cannot_log_in<
    U: UserRepo,
    S: SessionRepo,
    R: RoleRepo,
    H: PwHasher,
    T: TokenSigner + TokenVerifier,
>(
    s0: AuthService<U, S, R, H, T>,
    s1: AuthService<U, S, R, H, T>,
    s2: AuthService<U, S, R, H, T>,
    user_id: u128,
    login: LoginRequest,
    r: Result<AuthOutcome, IdmError>,
)
    requires
        s0.users.records().contains_key(user_id),
        s1.users.records() == s0.users.records().insert(
            user_id,
            UserRecord { deleted: true, ..s0.users.records()[user_id] },
        ),
        s1.login_result(s2, login, r),
        login.spec_valid(),
        forall|id: u128| #[trigger]
            s0.users.records().contains_key(id) && id != user_id ==> !matches_identifier(
                s0.users.records()[id],
                normalized(login.identifier@),
            ),
    ensures
        !is_internal(r) || (s1.users.reliable() && s1.hasher.reliable()) ==> (r matches Err(
            IdmError::Unauthorized,
        )),
{
    let m0 = s0.users.records();
    let m1 = s1.users.records();
    assert forall|id: u128| #[trigger] m1.contains_key(id) implies !matches_identifier(
        m1[id],
        normalized(login.identifier@),
    ) by {
        if id != user_id {
            assert(m1[id] == m0[id]);
        }
    }
}

/// A password change forces a new login with the new password: once the
/// password hash of live user `user_id` is replaced by `phc`, a hash of
/// `new_password` (what a successful `change_password` does to the users), a
/// login at `now` by that user's username with `new_password` succeeds unless a
/// port fails (and outright when none can and the expiries are in range), while a
/// login with `old_password` is `Unauthorized` when the hasher tells the two
/// passwords apart on `phc` (unless the user repository or the hasher, which may
/// fail, failed). Every session was revoked by the same change (see
/// `lemma_revoked_user_cannot_refresh`). This holds when no other live user
/// matches the identifier.
pub proof fn lemma_password_change_forces_relogin<
    U: UserRepo,
    S: SessionRepo,
    R: RoleRepo,
    H: PwHasher,
    T: TokenSigner + TokenVerifier,
>(
    s0: AuthService<U, S, R, H, T>,
    s1: AuthService<U, S, R, H, T>,
    s2: AuthService<U, S, R, H, T>,
    s3: AuthService<U, S, R, H, T>,
    user_id: u128,
    phc: Seq<char>,
    new_login: LoginRequest,
    now: Timestamp,
    r_new: Result<AuthOutcome, IdmError>,
    old_login: LoginRequest,
    r_old: Result<AuthOutcome, IdmError>,
)
    requires
        is_live(s0.users.records(), user_id),
        s1.users.records() == s0.users.records().insert(
            user_id,
            with_password_hash(s0.users.records()[user_id], phc),
        ),
        s1.hasher == s0.hasher,
        s0.hasher.accepts(new_login.password@, phc) == Some(true),
        s0.hasher.accepts(old_login.password@, phc) == Some(false),
        new_login.spec_valid(),
        old_login.spec_valid(),
        normalized(new_login.identifier@) == s0.users.records()[user_id].username,
        normalized(old_login.identifier@) == s0.users.records()[user_id].username,
        forall|id: u128| #[trigger]
            s0.users.records().contains_key(id) && id != user_id ==> !matches_identifier(
                s0.users.records()[id],
                s0.users.records()[user_id].username,
            ),
        s1.login_at_result(s2, new_login, now, r_new),
        s1.login_result(s3, old_login, r_old),
    ensures
        r_new is Ok || is_internal(r_new),
        s1.hasher.reliable() && s1.can_issue(now) ==> r_new is Ok,
        !is_internal(r_old) || (s1.users.reliable() && s1.hasher.reliable()) ==> (r_old matches Err(
            IdmError::Unauthorized,
        )),
{
    let m0 = s0.users.records();
    let m1 = s1.users.records();
    let un = m0[user_id].username;
    assert(m1.contains_key(user_id) && matches_identifier(m1[user_id], un));
    assert forall|id: u128| #[trigger]
        m1.contains_key(id) && matches_identifier(m1[id], un) implies id == user_id by {
        if id != user_id {
            assert(m1[id] == m0[id]);
        }
    }
}

/// Logging out ends a refresh token: after a logout with `token` at `now` that did
/// not fail (taking the service from `s0` to `s1`), a refresh with it at any
/// later instant is `Unauthorized` (unless the session repository, which may
/// fail, failed), and logging out with it again changes nothing. This holds when
/// at most one session held the token's digest.
pub proof fn lemma_logout_ends_refresh<
    U: UserRepo,
    S: SessionRepo,
    R: RoleRepo,
    H: PwHasher,
    T: TokenSigner + TokenVerifier,
>(
    s0: AuthService<U, S, R, H, T>,
    s1: AuthService<U, S, R, H, T>,
    s2: AuthService<U, S, R, H, T>,
    s3: AuthService<U, S, R, H, T>,
    token: Seq<char>,
    now: Timestamp,
    r1: Result<(), IdmError>,
    later: Timestamp,
    r2: Result<AuthOutcome, IdmError>,
    r3: Result<(), IdmError>,
)
    requires
        s0.wf(),
        s0.logout_at_result(s1, token, now, r1),
        !is_internal(r1),
        forall|i: int, j: int|
            0 <= i < s0.sessions.sessions().len() && 0 <= j < s0.sessions.sessions().len() && (
            #[trigger] s0.sessions.sessions()[i]).token_hash == refresh_digest(token) && (
            #[trigger] s0.sessions.sessions()[j]).token_hash == refresh_digest(token) ==> i == j,
        now.nanos() <= later.nanos(),
        s1.refresh_at_result(s2, token, later, r2),
        s1.logout_at_result(s3, token, later, r3),
    ensures
        !is_internal(r2) || s1.sessions.reliable() ==> (r2 matches Err(IdmError::Unauthorized)),
        !is_internal(r3) ==> s3.sessions.sessions() == s1.sessions.sessions(),
{
    let a = s0.sessions.sessions();
    let b = s1.sessions.sessions();
    let d = refresh_digest(token);
    s0.sessions.lemma_ids_distinct();
    if exists|i: int| 0 <= i < a.len() && is_active(#[trigger] a[i], d, now.nanos()) {
        let i = choose|i: int|
            0 <= i < a.len() && is_active(#[trigger] a[i], d, now.nanos()) && b == revoke_first(
                a,
                a[i].id,
            );
        crate::repo::lemma_revoked_session_inactive(a, a[i].id);
        assert forall|j: int| 0 <= j < i implies a[j].id != a[i].id by {
            assert(a[j].id != a[i].id);
        }
        assert forall|k: int| 0 <= k < b.len() implies !is_active(#[trigger] b[k], d, later.nanos()) by {
            if k != i {
                assert(a[k].id != a[i].id);
                assert(b[k] == a[k]);
            }
        }
    } else {
        assert forall|k: int| 0 <= k < b.len() implies !is_active(#[trigger] b[k], d, later.nanos()) by {
            assert(!is_active(a[k], d, now.nanos()));
        }
    }
}

/// After the refresh that used the session at `i`, when that session was the only
/// one holding the token's digest and the only one with its id, and the new token
/// has another digest, no unrevoked session holds the old digest.
proof fn lemma_refreshed_digest_spent(
    before: Seq<SessionRecord>,
    i: int,
    after: Seq<SessionRecord>,
    user_id: u128,
    token: Seq<char>,
    new_token: Seq<char>,
)
    requires
        0 <= i < before.len(),
        before[i].token_hash == refresh_digest(token),
        forall|j: int|
            0 <= j < before.len() && j != i ==> (#[trigger] before[j]).token_hash != refresh_digest(
                token,
            ) && before[j].id != before[i].id,
        issued_session(revoke_first(before, before[i].id), after, user_id, new_token),
        refresh_digest(new_token) != refresh_digest(token),
    ensures
        forall|j: int|
            0 <= j < after.len() ==> !((#[trigger] after[j]).token_hash == refresh_digest(token)
                && !after[j].revoked),
{
    let sid = before[i].id;
    assert forall|j: int| 0 <= j < i implies !(crate::repo::session_id_is(sid))(#[trigger] before[j]) by {}
    crate::repo::lemma_first_index_at(before, crate::repo::session_id_is(sid), i);
    let mid = revoke_first(before, sid);
    let rec = choose|rec: SessionRecord|
        after == #[trigger] mid.push(rec) && rec.user_id == user_id && rec.token_hash
            == refresh_digest(new_token) && !rec.revoked;
    assert forall|j: int| 0 <= j < after.len() implies !((#[trigger] after[j]).token_hash
        == refresh_digest(token) && !after[j].revoked) by {
        if j < before.len() {
            assert(after[j] == mid[j]);
            if j != i {
                assert(mid[j] == before[j]);
            }
        }
    }
}

/// A refresh token works once: after a refresh with `token` succeeded (taking the
/// service from `s0` to `s1`), refreshing with the same token again is
/// `Unauthorized` (unless the session repository, which may fail, failed). This
/// holds when at most one session held the token's digest and the new token's
/// digest differs from the old one (session ids are distinct in every consistent
/// session repository).
pub proof fn lemma_refresh_token_single_use<
    U: UserRepo,
    S: SessionRepo,
    R: RoleRepo,
    H: PwHasher,
    T: TokenSigner + TokenVerifier,
>(
    s0: AuthService<U, S, R, H, T>,
    s1: AuthService<U, S, R, H, T>,
    s2: AuthService<U, S, R, H, T>,
    token: Seq<char>,
    first: AuthOutcome,
    second: Result<AuthOutcome, IdmError>,
)
    requires
        s0.refresh_result(s1, token, Ok(first)),
        s1.refresh_result(s2, token, second),
        s0.wf(),
        forall|i: int, j: int|
            0 <= i < s0.sessions.sessions().len() && 0 <= j < s0.sessions.sessions().len() && (
            #[trigger] s0.sessions.sessions()[i]).token_hash == refresh_digest(token) && (
            #[trigger] s0.sessions.sessions()[j]).token_hash == refresh_digest(token) ==> i == j,
        refresh_digest(first.refresh_token@) != refresh_digest(token),
    ensures
        !is_internal(second) || s0.sessions.reliable() ==> (second matches Err(
            IdmError::Unauthorized,
        )),
{
    let s = s0.sessions.sessions();
    s0.sessions.lemma_ids_distinct();
    let i = choose|i: int|
        0 <= i < s.len() && {
            let t = #[trigger] s[i];
            &&& t.token_hash == refresh_digest(token)
            &&& !t.revoked
            &&& is_live(s0.users.records(), t.user_id)
            &&& issued_session(
                revoke_first(s, t.id),
                s1.sessions.sessions(),
                t.user_id,
                first.refresh_token@,
            )
            &&& first.user@ == response_of(
                user_of(t.user_id, s0.users.records()[t.user_id]),
                role_names_for(s0.roles.roles(), s0.roles.grants(), t.user_id),
            )
        };
    assert forall|j: int| 0 <= j < s.len() && j != i implies (#[trigger] s[j]).token_hash
        != refresh_digest(token) && s[j].id != s[i].id by {
        if j < i {
            assert(s[j].id != s[i].id);
        } else {
            assert(s[i].id != s[j].id);
        }
    }
    lemma_refreshed_digest_spent(s, i, s1.sessions.sessions(), s[i].user_id, token, first.refresh_token@);
}

/// Once every session of `user_id` is revoked (what `logout_all`, `delete_me` and
/// `change_password` do to the sessions), no refresh token of that user refreshes:
/// a refresh with a token whose digest only that user's sessions held is
/// `Unauthorized` (unless the session repository, which may fail, failed).
pub proof fn lemma_revoked_user_cannot_refresh<
    U: UserRepo,
    S: SessionRepo,
    R: RoleRepo,
    H: PwHasher,
    T: TokenSigner + TokenVerifier,
>(
    s0: AuthService<U, S, R, H, T>,
    s1: AuthService<U, S, R, H, T>,
    s2: AuthService<U, S, R, H, T>,
    user_id: u128,
    token: Seq<char>,
    r: Result<AuthOutcome, IdmError>,
)
    requires
        s1.sessions.sessions() == s0.sessions.sessions().map_values(
            |x: SessionRecord| after_revoke_all(x, user_id, None),
        ),
        s1.refresh_result(s2, token, r),
        forall|i: int|
            0 <= i < s0.sessions.sessions().len() && (#[trigger] s0.sessions.sessions()[i]).token_hash
                == refresh_digest(token) ==> s0.sessions.sessions()[i].user_id == user_id,
    ensures
        !is_internal(r) || s1.sessions.reliable() ==> (r matches Err(IdmError::Unauthorized)),
{
    let s = s0.sessions.sessions();
    let t = s1.sessions.sessions();
    assert forall|i: int| 0 <= i < t.len() implies !(#[trigger] t[i].token_hash == refresh_digest(token)
        && !t[i].revoked) by {
        assert(t[i] == after_revoke_all(s[i], user_id, None));
    }
}

} // verus!
