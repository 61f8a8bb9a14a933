//! Repository ports: users (with their password hash), sessions and roles.
//!
//! Each port states, over an abstract model of what it stores, what every
//! operation returns and how it changes the store. The in-memory implementations
//! in `memory` are verified against these statements; a database-backed one must
//! behave the same way (the conformance test runs one script against both).
use vstd::prelude::*;

use crate::clock::Timestamp;
use crate::error::{is_internal, IdmError};

pub mod memory;

verus! {

// ---------------------------------------------------------------------------
// Entities
// ---------------------------------------------------------------------------

/// A user as the service sees it (no password hash, no audit columns).
#[derive(Clone, Debug)]
pub struct User {
    pub id: u128,
    pub username: String,
    pub email: Option<String>,
    pub email_verified: bool,
}

/// The mathematical value of a [`User`].
pub struct UserView {
    pub id: u128,
    pub username: Seq<char>,
    pub email: Option<Seq<char>>,
    pub email_verified: bool,
}

/// The view of an optional owned string.
pub open spec fn opt_string_view(o: Option<String>) -> Option<Seq<char>> {
    match o {
        Some(s) => Some(s@),
        None => None,
    }
}

/// The view of an optional borrowed string.
pub open spec fn opt_str_view(o: Option<&str>) -> Option<Seq<char>> {
    match o {
        Some(s) => Some(s@),
        None => None,
    }
}

impl View for User {
    type V = UserView;

    open spec fn view(&self) -> UserView {
        UserView {
            id: self.id,
            username: self.username@,
            email: opt_string_view(self.email),
            email_verified: self.email_verified,
        }
    }
}

/// The error of a failed storage write: the violation of a unique index over live
/// rows (a username, email or role name taken) is a `Conflict` with the message
/// `msg` for the user; any other failure is `Internal` with its `detail`.
pub fn map_unique(unique_violation: bool, msg: &str, detail: String) -> (r: IdmError)
    ensures
        unique_violation ==> (r matches IdmError::Conflict(m) && m@ == msg@),
        !unique_violation ==> r == IdmError::Internal(detail),
{
    if unique_violation {
        IdmError::Conflict(msg.to_owned())
    } else {
        IdmError::Internal(detail)
    }
}

/// The outcome of a write that must touch a live row: `NotFound` when it touched
/// none.
pub fn touched_row(rows_affected: u64) -> (r: Result<(), IdmError>)
    ensures
        rows_affected == 0 ==> (r matches Err(IdmError::NotFound)),
        rows_affected > 0 ==> r is Ok,
{
    if rows_affected == 0 {
        Err(IdmError::NotFound)
    } else {
        Ok(())
    }
}

/// The row a lookup or write of one live row gave back: `NotFound` when there was
/// none.
pub fn required_row<T>(row: Option<T>) -> (r: Result<T, IdmError>)
    ensures
        row matches Some(v) ==> r == Ok::<T, IdmError>(v),
        row is None ==> (r matches Err(IdmError::NotFound)),
{
    match row {
        Some(v) => Ok(v),
        None => Err(IdmError::NotFound),
    }
}

/// A copy of an optional string with the same view.
pub fn copy_opt_string(o: &Option<String>) -> (r: Option<String>)
    ensures
        opt_string_view(r) == opt_string_view(*o),
{
    match o {
        Some(s) => Some(s.clone()),
        None => None,
    }
}

/// An owned copy of an optional borrowed string.
pub fn own_opt_str(o: Option<&str>) -> (r: Option<String>)
    ensures
        opt_string_view(r) == opt_str_view(o),
{
    match o {
        Some(s) => Some(s.to_owned()),
        None => None,
    }
}

/// A live user together with its password hash. Only the login lookup returns
/// it; the hash never reaches a response or a log.
#[derive(Debug)]
pub struct UserWithHash {
    pub user: User,
    pub password_hash: String,
}

/// A session. Its `id` is also the access token's `jti`.
#[derive(Clone, Copy, Debug, PartialEq, Eq, Structural)]
pub struct Session {
    pub id: u128,
    pub user_id: u128,
}

// ---------------------------------------------------------------------------
// Abstract models
// ---------------------------------------------------------------------------

/// What a user repository stores under one id.
pub struct UserRecord {
    pub username: Seq<char>,
    pub email: Option<Seq<char>>,
    pub email_verified: bool,
    pub password_hash: Seq<char>,
    pub deleted: bool,
}

/// The user with id `id` stored as `r`.
pub open spec fn user_of(id: u128, r: UserRecord) -> UserView {
    UserView { id, username: r.username, email: r.email, email_verified: r.email_verified }
}

/// `id` names a user that is stored and not soft-deleted.
pub open spec fn is_live(m: Map<u128, UserRecord>, id: u128) -> bool {
    m.contains_key(id) && !m[id].deleted
}

/// A live user other than `except` already holds `username`, or (when `email` is
/// given) `email`: the two partial unique indexes over live rows.
pub open spec fn identity_taken(
    m: Map<u128, UserRecord>,
    username: Seq<char>,
    email: Option<Seq<char>>,
    except: Option<u128>,
) -> bool {
    exists|id: u128|
        #[trigger] m.contains_key(id) && except != Some(id) && !m[id].deleted && (m[id].username
            == username || (email is Some && m[id].email == email))
}

/// The record `r` is live and `identifier` is its username or its email.
pub open spec fn matches_identifier(r: UserRecord, identifier: Seq<char>) -> bool {
    !r.deleted && (r.username == identifier || r.email == Some(identifier))
}

/// The live users among `ids`, in the order of `ids`; absent or deleted ids are skipped.
pub open spec fn live_users_for(m: Map<u128, UserRecord>, ids: Seq<u128>) -> Seq<UserView>
    decreases ids.len(),
{
    if ids.len() == 0 {
        Seq::empty()
    } else {
        let rest = live_users_for(m, ids.drop_last());
        let id = ids.last();
        if is_live(m, id) {
            rest.push(user_of(id, m[id]))
        } else {
            rest
        }
    }
}

/// No two sessions share an id.
pub open spec fn session_ids_distinct(s: Seq<SessionRecord>) -> bool {
    forall|i: int, j: int| 0 <= i < s.len() && 0 <= j < s.len() && i != j ==> (#[trigger] s[i]).id != (#[trigger] s[j]).id
}

/// What a session repository stores for one session.
pub struct SessionRecord {
    pub id: u128,
    pub user_id: u128,
    pub token_hash: Seq<char>,
    /// Expiry, in nanoseconds since the Unix epoch.
    pub expires_at: int,
    pub revoked: bool,
}

/// The session `r` is unrevoked, unexpired at `now` and holds `token_hash`.
pub open spec fn is_active(r: SessionRecord, token_hash: Seq<char>, now: int) -> bool {
    r.token_hash == token_hash && !r.revoked && r.expires_at > now
}

/// `r` with its revocation set.
pub open spec fn revoked(r: SessionRecord) -> SessionRecord {
    SessionRecord { revoked: true, ..r }
}

/// What `revoke_all(user_id, except)` leaves of the session `r`.
pub open spec fn after_revoke_all(r: SessionRecord, user_id: u128, except: Option<u128>) -> SessionRecord {
    if r.user_id == user_id && except != Some(r.id) && !r.revoked {
        revoked(r)
    } else {
        r
    }
}

/// The first index of `s` whose element satisfies `p`.
pub open spec fn first_index<A>(s: Seq<A>, p: spec_fn(A) -> bool) -> Option<int>
    decreases s.len(),
{
    if s.len() == 0 {
        None
    } else {
        match first_index(s.drop_last(), p) {
            Some(i) => Some(i),
            None => if p(s.last()) {
                Some(s.len() - 1)
            } else {
                None
            },
        }
    }
}

/// `first_index` is the least index whose element satisfies `p`.
pub proof fn lemma_first_index<A>(s: Seq<A>, p: spec_fn(A) -> bool)
    ensures
        first_index(s, p) is None <==> (forall|j: int| 0 <= j < s.len() ==> !p(#[trigger] s[j])),
        first_index(s, p) matches Some(i) ==> 0 <= i < s.len() && p(s[i]) && (forall|j: int|
            0 <= j < i ==> !p(#[trigger] s[j])),
    decreases s.len(),
{
    if s.len() > 0 {
        lemma_first_index(s.drop_last(), p);
        assert forall|j: int| 0 <= j < s.len() - 1 implies s.drop_last()[j] == s[j] by {}
    }
}

/// The index `i` holds the first element satisfying `p`.
pub proof fn lemma_first_index_at<A>(s: Seq<A>, p: spec_fn(A) -> bool, i: int)
    requires
        0 <= i < s.len(),
        p(s[i]),
        forall|j: int| 0 <= j < i ==> !p(#[trigger] s[j]),
    ensures
        first_index(s, p) == Some(i),
{
    lemma_first_index(s, p);
    if let Some(k) = first_index(s, p) {
        if k < i {
            assert(!p(s[k]));
        } else if k > i {
            assert(!p(s[i]));
        }
    }
}

/// The session has id `session_id`.
pub open spec fn session_id_is(session_id: u128) -> spec_fn(SessionRecord) -> bool {
    |r: SessionRecord| r.id == session_id
}

/// The role has name `name`.
pub open spec fn role_name_is(name: Seq<char>) -> spec_fn((u128, Seq<char>)) -> bool {
    |r: (u128, Seq<char>)| r.1 == name
}

/// The role has id `role_id`.
pub open spec fn role_id_is(role_id: u128) -> spec_fn((u128, Seq<char>)) -> bool {
    |r: (u128, Seq<char>)| r.0 == role_id
}

/// The session `s` with the first session of id `session_id` revoked; unchanged when
/// there is none.
pub open spec fn revoke_first(s: Seq<SessionRecord>, session_id: u128) -> Seq<SessionRecord> {
    match first_index(s, session_id_is(session_id)) {
        Some(i) => s.update(i, revoked(s[i])),
        None => s,
    }
}

/// The first role named `name`.
pub open spec fn role_named(roles: Seq<(u128, Seq<char>)>, name: Seq<char>) -> Option<int> {
    first_index(roles, role_name_is(name))
}

/// The name of the first role with id `role_id`.
pub open spec fn role_name_of(roles: Seq<(u128, Seq<char>)>, role_id: u128) -> Option<Seq<char>> {
    match first_index(roles, role_id_is(role_id)) {
        Some(i) => Some(roles[i].1),
        None => None,
    }
}

/// The names of the roles granted to `user_id`, one per grant, in grant order;
/// grants whose role does not exist are skipped.
pub open spec fn role_names_for(
    roles: Seq<(u128, Seq<char>)>,
    grants: Seq<(u128, u128)>,
    user_id: u128,
) -> Seq<Seq<char>>
    decreases grants.len(),
{
    if grants.len() == 0 {
        Seq::empty()
    } else {
        let rest = role_names_for(roles, grants.drop_last(), user_id);
        let g = grants.last();
        if g.0 == user_id {
            match role_name_of(roles, g.1) {
                Some(n) => rest.push(n),
                None => rest,
            }
        } else {
            rest
        }
    }
}

/// The views of a sequence of strings.
pub open spec fn string_views(v: Seq<String>) -> Seq<Seq<char>> {
    v.map_values(|s: String| s@)
}

/// Pushing a string pushes its view.
pub proof fn lemma_string_views_push(v: Seq<String>, x: String)
    ensures
        string_views(v.push(x)) == string_views(v).push(x@),
{
    assert(string_views(v.push(x)) =~= string_views(v).push(x@));
}

// ---------------------------------------------------------------------------
// Ports
// ---------------------------------------------------------------------------

/// User repository. `by` is the audit subject, for implementations that keep
/// `created_by` / `updated_by` columns (the in-memory one keeps none).
///
/// Every method may fail with `Internal` when its backend fails (a database
/// error), unless the implementation is `reliable`; the contracts say what a
/// call that did not fail that way does, and after such a failure only that the
/// repository is still consistent.
pub trait UserRepo {
    /// Whether the implementation never fails with `Internal` (its backend cannot
    /// fail, as in memory).
    spec fn reliable(&self) -> bool;

    /// What the repository stores, by user id.
    spec fn records(&self) -> Map<u128, UserRecord>;

    /// The implementation's internal consistency.
    spec fn inv(&self) -> bool;

    /// Creates a user with its password hash, under an id no stored user has. A
    /// username, or an email when one is given, already held by a live user is a
    /// `Conflict`.
    fn create(
        &mut self,
        username: &str,
        email: Option<&str>,
        password_hash: &str,
        by: Option<String>,
    ) -> (r: Result<User, IdmError>)
        requires
            old(self).inv(),
        ensures
            final(self).reliable() == old(self).reliable(),
            old(self).reliable() ==> !is_internal(r),
            final(self).inv(),
            !is_internal(r) && identity_taken(old(self).records(), username@, opt_str_view(email), None) ==> {
                &&& r matches Err(IdmError::Conflict(_))
                &&& final(self).records() == old(self).records()
            },
            !is_internal(r) && !identity_taken(old(self).records(), username@, opt_str_view(email), None) ==> {
                &&& r matches Ok(u)
                &&& !old(self).records().contains_key(u.id)
                &&& u@.username == username@
                &&& u@.email == opt_str_view(email)
                &&& !u.email_verified
                &&& final(self).records() == old(self).records().insert(
                    u.id,
                    UserRecord {
                        username: username@,
                        email: opt_str_view(email),
                        email_verified: false,
                        password_hash: password_hash@,
                        deleted: false,
                    },
                )
            },
    ;

    /// The live user whose username or email is `identifier`, with its password hash.
    fn find_by_identifier(&self, identifier: &str) -> (r: Result<Option<UserWithHash>, IdmError>)
        requires
            self.inv(),
        ensures
            self.reliable() ==> !is_internal(r),
            !is_internal(r) ==> (r matches Ok(found) && {
                &&& found is None <==> (forall|id: u128| #[trigger]
                    self.records().contains_key(id) ==> !matches_identifier(
                        self.records()[id],
                        identifier@,
                    ))
                &&& found matches Some(uw) ==> {
                    &&& self.records().contains_key(uw.user.id)
                    &&& matches_identifier(self.records()[uw.user.id], identifier@)
                    &&& uw.user@ == user_of(uw.user.id, self.records()[uw.user.id])
                    &&& uw.password_hash@ == self.records()[uw.user.id].password_hash
                }
            }),
    ;

    /// The live user `id`; `NotFound` when it is absent or soft-deleted.
    fn find_by_id(&self, id: u128) -> (r: Result<User, IdmError>)
        requires
            self.inv(),
        ensures
            self.reliable() ==> !is_internal(r),
            !is_internal(r) && is_live(self.records(), id) ==> (r matches Ok(u) && u@ == user_of(
                id,
                self.records()[id],
            )),
            !is_internal(r) && !is_live(self.records(), id) ==> r matches Err(IdmError::NotFound),
    ;

    /// The live users among `ids`, in the order of `ids`; the others are left out.
    fn find_by_ids(&self, ids: &[u128]) -> (r: Result<Vec<User>, IdmError>)
        requires
            self.inv(),
        ensures
            self.reliable() ==> !is_internal(r),
            !is_internal(r) ==> (r matches Ok(v) && v@.map_values(|u: User| u@) == live_users_for(
                self.records(),
                ids@,
            )),
    ;

    /// Replaces the username and email of live user `id` (the email may be cleared)
    /// and resets `email_verified`. A conflict with another live user is a
    /// `Conflict`; otherwise an absent or deleted `id` is `NotFound`.
    fn update(
        &mut self,
        id: u128,
        username: &str,
        email: Option<&str>,
        by: Option<String>,
    ) -> (r: Result<User, IdmError>)
        requires
            old(self).inv(),
        ensures
            final(self).reliable() == old(self).reliable(),
            old(self).reliable() ==> !is_internal(r),
            final(self).inv(),
            !is_internal(r) && identity_taken(old(self).records(), username@, opt_str_view(email), Some(id)) ==> {
                &&& r matches Err(IdmError::Conflict(_))
                &&& final(self).records() == old(self).records()
            },
            !is_internal(r) && !identity_taken(old(self).records(), username@, opt_str_view(email), Some(id))
                && !is_live(old(self).records(), id) ==> {
                &&& r matches Err(IdmError::NotFound)
                &&& final(self).records() == old(self).records()
            },
            !is_internal(r) && !identity_taken(old(self).records(), username@, opt_str_view(email), Some(id))
                && is_live(old(self).records(), id) ==> {
                let rec = UserRecord {
                    username: username@,
                    email: opt_str_view(email),
                    email_verified: false,
                    ..old(self).records()[id]
                };
                &&& r matches Ok(u) && u@ == user_of(id, rec)
                &&& final(self).records() == old(self).records().insert(id, rec)
            },
    ;

    /// Soft-deletes live user `id`; `NotFound` when it is absent or already deleted.
    fn soft_delete(&mut self, id: u128, by: Option<String>) -> (r: Result<(), IdmError>)
        requires
            old(self).inv(),
        ensures
            final(self).reliable() == old(self).reliable(),
            old(self).reliable() ==> !is_internal(r),
            final(self).inv(),
            !is_internal(r) && is_live(old(self).records(), id) ==> {
                &&& r is Ok
                &&& final(self).records() == old(self).records().insert(
                    id,
                    UserRecord { deleted: true, ..old(self).records()[id] },
                )
            },
            !is_internal(r) && !is_live(old(self).records(), id) ==> {
                &&& r matches Err(IdmError::NotFound)
                &&& final(self).records() == old(self).records()
            },
    ;

    /// Replaces the password hash of live user `user_id`; `NotFound` otherwise.
    fn update_password(&mut self, user_id: u128, password_hash: &str) -> (r: Result<(), IdmError>)
        requires
            old(self).inv(),
        ensures
            final(self).reliable() == old(self).reliable(),
            old(self).reliable() ==> !is_internal(r),
            final(self).inv(),
            !is_internal(r) && is_live(old(self).records(), user_id) ==> {
                &&& r is Ok
                &&& final(self).records() == old(self).records().insert(
                    user_id,
                    UserRecord { password_hash: password_hash@, ..old(self).records()[user_id] },
                )
            },
            !is_internal(r) && !is_live(old(self).records(), user_id) ==> {
                &&& r matches Err(IdmError::NotFound)
                &&& final(self).records() == old(self).records()
            },
    ;

    /// The password hash of live user `user_id`; `None` otherwise.
    fn password_hash(&self, user_id: u128) -> (r: Result<Option<String>, IdmError>)
        requires
            self.inv(),
        ensures
            self.reliable() ==> !is_internal(r),
            !is_internal(r) ==> (r matches Ok(h) && opt_string_view(h) == (if is_live(self.records(), user_id) {
                Some(self.records()[user_id].password_hash)
            } else {
                None
            })),
    ;
}

/// Session repository. As with [`UserRepo`], any method may fail with `Internal`
/// when its backend fails.
pub trait SessionRepo {
    /// Whether the implementation never fails with `Internal` (its backend cannot
    /// fail, as in memory).
    spec fn reliable(&self) -> bool;

    /// The stored sessions, oldest first.
    spec fn sessions(&self) -> Seq<SessionRecord>;

    /// The implementation's internal consistency.
    spec fn inv(&self) -> bool;

    /// A consistent repository holds no two sessions with one id.
    proof fn lemma_ids_distinct(&self)
        requires
            self.inv(),
        ensures
            session_ids_distinct(self.sessions()),
    ;

    /// Creates a session holding only the hash of its refresh token, under an id
    /// no stored session has.
    fn create(
        &mut self,
        user_id: u128,
        token_hash: &str,
        expires_at: Timestamp,
        by: Option<String>,
    ) -> (r: Result<Session, IdmError>)
        requires
            old(self).inv(),
        ensures
            final(self).reliable() == old(self).reliable(),
            old(self).reliable() ==> !is_internal(r),
            final(self).inv(),
            !is_internal(r) ==> (r matches Ok(s) && s.user_id == user_id && (forall|i: int|
                0 <= i < old(self).sessions().len() ==> (#[trigger] old(self).sessions()[i]).id != s.id)
                && final(self).sessions() == old(self).sessions().push(
                SessionRecord {
                    id: s.id,
                    user_id,
                    token_hash: token_hash@,
                    expires_at: expires_at.nanos(),
                    revoked: false,
                },
            )),
    ;

    /// An active session (unrevoked, unexpired at `now`) holding `token_hash`.
    fn find_active(&self, token_hash: &str, now: Timestamp) -> (r: Result<Option<Session>, IdmError>)
        requires
            self.inv(),
        ensures
            self.reliable() ==> !is_internal(r),
            !is_internal(r) ==> (r matches Ok(found) && {
                &&& found is None <==> (forall|i: int|
                    0 <= i < self.sessions().len() ==> !is_active(
                        #[trigger] self.sessions()[i],
                        token_hash@,
                        now.nanos(),
                    ))
                &&& found matches Some(s) ==> exists|i: int|
                    0 <= i < self.sessions().len() && is_active(
                        #[trigger] self.sessions()[i],
                        token_hash@,
                        now.nanos(),
                    ) && self.sessions()[i].id == s.id && self.sessions()[i].user_id == s.user_id
            }),
    ;

    /// Revokes session `session_id`. Revoking an unknown or revoked session is fine.
    fn revoke(&mut self, session_id: u128) -> (r: Result<(), IdmError>)
        requires
            old(self).inv(),
        ensures
            final(self).reliable() == old(self).reliable(),
            old(self).reliable() ==> !is_internal(r),
            final(self).inv(),
            !is_internal(r) ==> r is Ok && final(self).sessions() == revoke_first(
                old(self).sessions(),
                session_id,
            ),
    ;

    /// Revokes every active session of `user_id` except `except`.
    fn revoke_all(&mut self, user_id: u128, except: Option<u128>) -> (r: Result<(), IdmError>)
        requires
            old(self).inv(),
        ensures
            final(self).reliable() == old(self).reliable(),
            old(self).reliable() ==> !is_internal(r),
            final(self).inv(),
            !is_internal(r) ==> r is Ok && final(self).sessions() == old(self).sessions().map_values(
                |s: SessionRecord| after_revoke_all(s, user_id, except),
            ),
    ;
}

/// Role repository (seeding and role-based access). As with [`UserRepo`], any
/// method may fail with `Internal` when its backend fails.
pub trait RoleRepo {
    /// Whether the implementation never fails with `Internal` (its backend cannot
    /// fail, as in memory).
    spec fn reliable(&self) -> bool;

    /// The roles, as (id, name), oldest first.
    spec fn roles(&self) -> Seq<(u128, Seq<char>)>;

    /// The grants, as (user id, role id), oldest first.
    spec fn grants(&self) -> Seq<(u128, u128)>;

    /// The implementation's internal consistency.
    spec fn inv(&self) -> bool;

    /// The id of the role named `name`, created (under an id no role has) when
    /// there is none.
    fn upsert(&mut self, name: &str, display_name: &str, by: Option<String>) -> (r: Result<
        u128,
        IdmError,
    >)
        requires
            old(self).inv(),
        ensures
            final(self).reliable() == old(self).reliable(),
            old(self).reliable() ==> !is_internal(r),
            final(self).inv(),
            !is_internal(r) ==> final(self).grants() == old(self).grants(),
            role_named(old(self).roles(), name@) matches Some(i) ==> (!is_internal(r) ==> {
                &&& r == Ok::<u128, IdmError>(old(self).roles()[i].0)
                &&& final(self).roles() == old(self).roles()
            }),
            !is_internal(r) && role_named(old(self).roles(), name@) is None ==> {
                &&& r matches Ok(id)
                &&& forall|i: int|
                    0 <= i < old(self).roles().len() ==> (#[trigger] old(self).roles()[i]).0 != id
                &&& final(self).roles() == old(self).roles().push((id, name@))
            },
    ;

    /// Grants role `role_id` to `user_id`; granting twice records one grant.
    fn grant(&mut self, user_id: u128, role_id: u128, by: Option<String>) -> (r: Result<(), IdmError>)
        requires
            old(self).inv(),
        ensures
            final(self).reliable() == old(self).reliable(),
            old(self).reliable() ==> !is_internal(r),
            final(self).inv(),
            !is_internal(r) ==> r is Ok && final(self).roles() == old(self).roles(),
            !is_internal(r) && old(self).grants().contains((user_id, role_id)) ==> final(self).grants()
                == old(self).grants(),
            !is_internal(r) && !old(self).grants().contains((user_id, role_id)) ==> final(self).grants()
                == old(self).grants().push((user_id, role_id)),
    ;

    /// The names of the roles of `user_id`.
    fn roles_for_user(&self, user_id: u128) -> (r: Result<Vec<String>, IdmError>)
        requires
            self.inv(),
        ensures
            self.reliable() ==> !is_internal(r),
            !is_internal(r) ==> (r matches Ok(v) && string_views(v@) == role_names_for(
                self.roles(),
                self.grants(),
                user_id,
            )),
    ;
}

// ---------------------------------------------------------------------------
// Laws of the ports
// ---------------------------------------------------------------------------

/// A created user is live and found by its username and, when it has one, by its
/// email; creating another user with the same username is then a conflict.
pub proof fn lemma_created_user_found(
    m: Map<u128, UserRecord>,
    id: u128,
    username: Seq<char>,
    email: Option<Seq<char>>,
    password_hash: Seq<char>,
    other_email: Option<Seq<char>>,
)
    ensures
        ({
            let rec = UserRecord {
                username,
                email,
                email_verified: false,
                password_hash,
                deleted: false,
            };
            let m2 = m.insert(id, rec);
            &&& is_live(m2, id)
            &&& matches_identifier(m2[id], username)
            &&& (email matches Some(e) ==> matches_identifier(m2[id], e))
            &&& m2[id].password_hash == password_hash
            &&& identity_taken(m2, username, other_email, None)
        }),
{
    let rec = UserRecord { username, email, email_verified: false, password_hash, deleted: false };
    let m2 = m.insert(id, rec);
    assert(m2.contains_key(id));
}

/// No two live users share a username, nor a present email: the two partial
/// unique indexes over live rows.
pub open spec fn identities_unique(m: Map<u128, UserRecord>) -> bool {
    forall|a: u128, b: u128|
        #[trigger] m.contains_key(a) && #[trigger] m.contains_key(b) && a != b && !m[a].deleted
            && !m[b].deleted ==> m[a].username != m[b].username && (m[a].email is Some ==> m[a].email
            != m[b].email)
}

/// Every write that the user repository's contract lets through keeps live
/// usernames and emails unique: a create or an update that found its identity
/// free, a soft delete, a password change.
pub proof fn lemma_writes_keep_identities_unique(
    m: Map<u128, UserRecord>,
    new_id: u128,
    id: u128,
    username: Seq<char>,
    email: Option<Seq<char>>,
    password_hash: Seq<char>,
)
    requires
        identities_unique(m),
    ensures
        !identity_taken(m, username, email, None) ==> identities_unique(
            m.insert(
                new_id,
                UserRecord { username, email, email_verified: false, password_hash, deleted: false },
            ),
        ),
        is_live(m, id) && !identity_taken(m, username, email, Some(id)) ==> identities_unique(
            m.insert(id, UserRecord { username, email, email_verified: false, ..m[id] }),
        ),
        m.contains_key(id) ==> identities_unique(m.insert(id, UserRecord { deleted: true, ..m[id] })),
        m.contains_key(id) ==> identities_unique(m.insert(id, UserRecord { password_hash, ..m[id] })),
{
    if !identity_taken(m, username, email, None) {
        let rec = UserRecord { username, email, email_verified: false, password_hash, deleted: false };
        let m2 = m.insert(new_id, rec);
        assert forall|a: u128, b: u128|
            #[trigger] m2.contains_key(a) && #[trigger] m2.contains_key(b) && a != b && !m2[a].deleted
                && !m2[b].deleted implies m2[a].username != m2[b].username && (m2[a].email is Some
                ==> m2[a].email != m2[b].email) by {
            if a == new_id {
                assert(m.contains_key(b) && m2[b] == m[b]);
            } else if b == new_id {
                assert(m.contains_key(a) && m2[a] == m[a]);
            } else {
                assert(m2[a] == m[a] && m2[b] == m[b]);
            }
        }
    }
    if is_live(m, id) && !identity_taken(m, username, email, Some(id)) {
        let rec = UserRecord { username, email, email_verified: false, ..m[id] };
        let m2 = m.insert(id, rec);
        assert forall|a: u128, b: u128|
            #[trigger] m2.contains_key(a) && #[trigger] m2.contains_key(b) && a != b && !m2[a].deleted
                && !m2[b].deleted implies m2[a].username != m2[b].username && (m2[a].email is Some
                ==> m2[a].email != m2[b].email) by {
            if a == id {
                assert(m.contains_key(b) && m2[b] == m[b]);
            } else if b == id {
                assert(m.contains_key(a) && m2[a] == m[a]);
            } else {
                assert(m2[a] == m[a] && m2[b] == m[b]);
            }
        }
    }
    if m.contains_key(id) {
        let m2 = m.insert(id, UserRecord { deleted: true, ..m[id] });
        assert forall|a: u128, b: u128|
            #[trigger] m2.contains_key(a) && #[trigger] m2.contains_key(b) && a != b && !m2[a].deleted
                && !m2[b].deleted implies m2[a].username != m2[b].username && (m2[a].email is Some
                ==> m2[a].email != m2[b].email) by {
            assert(m2[a] == m[a] && m2[b] == m[b]);
        }
        let m3 = m.insert(id, UserRecord { password_hash, ..m[id] });
        assert forall|a: u128, b: u128|
            #[trigger] m3.contains_key(a) && #[trigger] m3.contains_key(b) && a != b && !m3[a].deleted
                && !m3[b].deleted implies m3[a].username != m3[b].username && (m3[a].email is Some
                ==> m3[a].email != m3[b].email) by {
            assert(m.contains_key(a) && m.contains_key(b));
            assert(m3[a].username == m[a].username && m3[a].email == m[a].email && m3[a].deleted == m[a].deleted);
            assert(m3[b].username == m[b].username && m3[b].email == m[b].email && m3[b].deleted == m[b].deleted);
        }
    }
}

/// A soft-deleted user is gone: not live, matched by no identifier, left out of
/// batch lookups; deleting it again finds nothing to delete.
pub proof fn lemma_soft_deleted_user_gone(m: Map<u128, UserRecord>, id: u128, identifier: Seq<char>)
    requires
        m.contains_key(id),
    ensures
        ({
            let m2 = m.insert(id, UserRecord { deleted: true, ..m[id] });
            &&& !is_live(m2, id)
            &&& !matches_identifier(m2[id], identifier)
            &&& live_users_for(m2, seq![id]) == Seq::<UserView>::empty()
        }),
{
    let m2 = m.insert(id, UserRecord { deleted: true, ..m[id] });
    let ids = seq![id];
    assert(ids.drop_last() =~= Seq::<u128>::empty());
    assert(live_users_for(m2, ids.drop_last()) == Seq::<UserView>::empty());
}

/// Upserting a role twice under one name gives the same id both times, and the
/// second call leaves the roles as the first left them.
pub proof fn lemma_upsert_twice(roles: Seq<(u128, Seq<char>)>, name: Seq<char>, fresh: u128)
    ensures
        ({
            let (after, id) = match role_named(roles, name) {
                Some(i) => (roles, roles[i].0),
                None => (roles.push((fresh, name)), fresh),
            };
            role_named(after, name) matches Some(j) && after[j].0 == id
        }),
{
    lemma_first_index(roles, role_name_is(name));
    if role_named(roles, name) is None {
        let after = roles.push((fresh, name));
        assert forall|k: int| 0 <= k < roles.len() implies !(role_name_is(name))(
            #[trigger] after[k],
        ) by {
            assert(after[k] == roles[k]);
            assert(!(role_name_is(name))(roles[k]));
        }
        lemma_first_index_at(after, role_name_is(name), roles.len() as int);
    }
}

/// Granting a role twice records it once: the second grant changes nothing.
pub proof fn lemma_grant_twice(grants: Seq<(u128, u128)>, user_id: u128, role_id: u128)
    ensures
        ({
            let once = if grants.contains((user_id, role_id)) {
                grants
            } else {
                grants.push((user_id, role_id))
            };
            once.contains((user_id, role_id))
        }),
{
    if !grants.contains((user_id, role_id)) {
        let once = grants.push((user_id, role_id));
        assert(once[grants.len() as int] == (user_id, role_id));
    }
}

/// A new grant is reported last: granting role `role_id` to `user_id` (a grant
/// the user did not hold) appends that role's name, when the role exists, to the
/// user's role names after all those it had; a grant of a role that does not
/// exist adds nothing; and another user's role names do not change.
pub proof fn lemma_grant_adds_role_name(
    roles: Seq<(u128, Seq<char>)>,
    grants: Seq<(u128, u128)>,
    user_id: u128,
    role_id: u128,
    other: u128,
)
    ensures
        role_name_of(roles, role_id) matches Some(n) ==> role_names_for(
            roles,
            grants.push((user_id, role_id)),
            user_id,
        ) == role_names_for(roles, grants, user_id).push(n),
        role_name_of(roles, role_id) is None ==> role_names_for(
            roles,
            grants.push((user_id, role_id)),
            user_id,
        ) == role_names_for(roles, grants, user_id),
        other != user_id ==> role_names_for(roles, grants.push((user_id, role_id)), other)
            == role_names_for(roles, grants, other),
{
    assert(grants.push((user_id, role_id)).drop_last() =~= grants);
}

/// Every granted role is reported: for each grant to `user_id` of a role that
/// exists, that role's name is among the user's role names.
pub proof fn lemma_every_grant_reported(
    roles: Seq<(u128, Seq<char>)>,
    grants: Seq<(u128, u128)>,
    user_id: u128,
    k: int,
)
    requires
        0 <= k < grants.len(),
        grants[k].0 == user_id,
        role_name_of(roles, grants[k].1) is Some,
    ensures
        role_names_for(roles, grants, user_id).contains(role_name_of(roles, grants[k].1)->0),
    decreases grants.len(),
{
    let n = role_name_of(roles, grants[k].1)->0;
    let rest = role_names_for(roles, grants.drop_last(), user_id);
    if k == grants.len() - 1 {
        assert(rest.push(n)[rest.len() as int] == n);
    } else {
        assert(grants.drop_last()[k] == grants[k]);
        lemma_every_grant_reported(roles, grants.drop_last(), user_id, k);
        let j = choose|j: int| 0 <= j < rest.len() && rest[j] == n;
        let g = grants.last();
        if g.0 == user_id {
            if let Some(m) = role_name_of(roles, g.1) {
                assert(rest.push(m)[j] == n);
            }
        }
    }
}

/// The user's role names have one entry per grant of an existing role, and no more.
pub proof fn lemma_role_names_one_per_grant(
    roles: Seq<(u128, Seq<char>)>,
    grants: Seq<(u128, u128)>,
    user_id: u128,
)
    ensures
        role_names_for(roles, grants, user_id).len() == grants.filter(
            |g: (u128, u128)| g.0 == user_id && role_name_of(roles, g.1) is Some,
        ).len(),
    decreases grants.len(),
{
    reveal(Seq::filter);
    if grants.len() > 0 {
        lemma_role_names_one_per_grant(roles, grants.drop_last(), user_id);
    }
}

/// A role created under an id that no role had is found by that id, under its name.
pub proof fn lemma_new_role_named(roles: Seq<(u128, Seq<char>)>, fresh: u128, name: Seq<char>)
    requires
        forall|i: int| 0 <= i < roles.len() ==> (#[trigger] roles[i]).0 != fresh,
    ensures
        role_name_of(roles.push((fresh, name)), fresh) == Some(name),
{
    let after = roles.push((fresh, name));
    assert forall|j: int| 0 <= j < roles.len() implies !(role_id_is(fresh))(#[trigger] after[j]) by {
        assert(after[j] == roles[j]);
    }
    lemma_first_index_at(after, role_id_is(fresh), roles.len() as int);
}

/// A user read from a stored record carries what the record holds: its username,
/// its email (or none) and whether that email is verified, under the id it was
/// read by.
pub proof fn lemma_user_of_keeps_record(id: u128, r: UserRecord)
    ensures
        user_of(id, r).id == id,
        user_of(id, r).username == r.username,
        user_of(id, r).email == r.email,
        user_of(id, r).email_verified == r.email_verified,
{
}

/// A created session is active until it expires: before `expires_at` a lookup
/// by its hash finds an active session, from `expires_at` on it does not.
pub proof fn lemma_created_session_active(s: Seq<SessionRecord>, rec: SessionRecord, now: int)
    requires
        !rec.revoked,
    ensures
        ({
            let s2 = s.push(rec);
            &&& now < rec.expires_at ==> is_active(s2[s.len() as int], rec.token_hash, now)
            &&& now >= rec.expires_at ==> !is_active(s2[s.len() as int], rec.token_hash, now)
        }),
{
}

/// Revoking a session leaves it inactive for every hash and instant, and touches
/// no other session.
pub proof fn lemma_revoked_session_inactive(s: Seq<SessionRecord>, session_id: u128)
    ensures
        revoke_first(s, session_id).len() == s.len(),
        forall|i: int|
            0 <= i < s.len() && s[i].id == session_id && (forall|j: int|
                0 <= j < i ==> s[j].id != session_id) ==> (#[trigger] revoke_first(s, session_id)[i]).revoked,
        forall|i: int|
            0 <= i < s.len() && s[i].id != session_id ==> #[trigger] revoke_first(s, session_id)[i]
                == s[i],
{
    lemma_first_index(s, session_id_is(session_id));
    assert forall|i: int|
        0 <= i < s.len() && s[i].id == session_id && (forall|j: int|
            0 <= j < i ==> s[j].id != session_id) implies (#[trigger] revoke_first(
        s,
        session_id,
    )[i]).revoked by {
        assert forall|j: int| 0 <= j < i implies !(session_id_is(session_id))(#[trigger] s[j]) by {}
        lemma_first_index_at(s, session_id_is(session_id), i);
    }
}

/// After `revoke_all(user_id, None)` no session of `user_id` is unrevoked, and the
/// sessions of other users are untouched.
pub proof fn lemma_revoke_all_leaves_none(s: Seq<SessionRecord>, user_id: u128)
    ensures
        ({
            let s2 = s.map_values(|r: SessionRecord| after_revoke_all(r, user_id, None));
            &&& s2.len() == s.len()
            &&& forall|i: int| 0 <= i < s2.len() && s2[i].user_id == user_id ==> (#[trigger] s2[i]).revoked
            &&& forall|i: int| 0 <= i < s2.len() && s[i].user_id != user_id ==> #[trigger] s2[i] == s[i]
        }),
{
}

} // verus!
