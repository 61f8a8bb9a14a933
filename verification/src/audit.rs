//! Audit context and authenticated identity. The request boundary produces an
//! `AuditContext`; the service passes its subject down to the repositories,
//! where it lands in `created_by` / `updated_by`.
//!
//! The authentication middleware verifies the access token and records an
//! [`AuthUser`]; `AuditContext` and `CurrentUser` only read that record, so token
//! checking stays in one place.
use vstd::prelude::*;

use crate::error::IdmError;
use crate::ids::{id_text, uuid_text};
use crate::repo::{opt_string_view, string_views};
use crate::token::VerifiedToken;

verus! {

/// The authenticated identity that the middleware records after checking a token
/// (with roles, for role checks).
#[derive(Clone, Debug)]
pub struct AuthUser {
    pub id: u128,
    pub username: String,
    pub roles: Vec<String>,
}

impl AuthUser {
    /// The identity carried by a verified token.
    pub fn from_verified(v: VerifiedToken) -> (r: AuthUser)
        ensures
            r.id == v.user_id,
            r.username@ == v.username@,
            string_views(r.roles@) == string_views(v.roles@),
    {
        AuthUser { id: v.user_id, username: v.username, roles: v.roles }
    }
}

/// The subject on whose behalf a write happens.
#[derive(Clone, Debug)]
pub enum Actor {
    /// A system job: seeder, background task, migration (no human behind it).
    System,
    /// A request without a valid token.
    Anonymous,
    /// An authenticated user, by the text of their id.
    User { id: String },
}

/// The value an actor writes to `created_by` / `updated_by`.
pub open spec fn audit_id_of(a: Actor) -> Option<Seq<char>> {
    match a {
        Actor::System => Some("system"@),
        Actor::Anonymous => None,
        Actor::User { id } => Some(id@),
    }
}

impl Actor {
    /// The value written to `created_by` / `updated_by`; `None` (NULL) when nobody is known.
    pub fn audit_id(&self) -> (r: Option<String>)
        ensures
            opt_string_view(r) == audit_id_of(*self),
    {
        match self {
            Actor::System => Some(String::from_str("system")),
            Actor::Anonymous => None,
            Actor::User { id } => Some(id.clone()),
        }
    }
}

/// Request-scoped audit context: writes take their audit subject from it.
#[derive(Clone, Debug)]
pub struct AuditContext {
    pub actor: Actor,
    /// The request id (`x-request-id`), kept for correlating logs.
    pub request_id: Option<String>,
}

impl AuditContext {
    /// The context of a system job (no HTTP request): seeder, background job.
    pub fn system() -> (r: AuditContext)
        ensures
            r.actor is System,
            r.request_id is None,
    {
        AuditContext { actor: Actor::System, request_id: None }
    }

    /// The context of an unauthenticated request.
    pub fn anonymous(request_id: Option<String>) -> (r: AuditContext)
        ensures
            r.actor is Anonymous,
            r.request_id == request_id,
    {
        AuditContext { actor: Actor::Anonymous, request_id }
    }

    /// The audit subject of writes (`created_by` / `updated_by`).
    pub fn audit_id(&self) -> (r: Option<String>)
        ensures
            opt_string_view(r) == audit_id_of(self.actor),
    {
        self.actor.audit_id()
    }

    /// The context of a request: the user the middleware recorded, if any (else
    /// anonymous), and the request id header, if any.
    pub fn from_request(request_id: Option<String>, user: Option<&AuthUser>) -> (r: AuditContext)
        ensures
            r.request_id == request_id,
            user is None ==> r.actor is Anonymous,
            user matches Some(u) ==> (r.actor matches Actor::User { id } && id@ == uuid_text(u.id)),
    {
        let actor = match user {
            Some(u) => Actor::User { id: id_text(u.id) },
            None => Actor::Anonymous,
        };
        AuditContext { actor, request_id }
    }
}

/// The identity of a protected endpoint's caller: the request must be authenticated.
#[derive(Debug)]
pub struct CurrentUser(pub AuthUser);

impl CurrentUser {
    /// The caller the middleware recorded; `Unauthorized` when there is none
    /// (no token, or an invalid one).
    pub fn from_recorded(user: Option<AuthUser>) -> (r: Result<CurrentUser, IdmError>)
        ensures
            user is None ==> r matches Err(IdmError::Unauthorized),
            user matches Some(u) ==> (r matches Ok(c) && c.0 == u),
    {
        match user {
            Some(u) => Ok(CurrentUser(u)),
            None => Err(IdmError::Unauthorized),
        }
    }
}

} // verus!
