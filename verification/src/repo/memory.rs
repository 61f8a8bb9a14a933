//! In-memory repositories: run the whole register/login flow without a
//! database. They mirror the database's soft-delete filtering, unique username
//! and unique (when present) email among live users.
use std::collections::HashMap;
use vstd::prelude::*;
use vstd::std_specs::hash::spec_values_iter;
use vstd::std_specs::iter::IteratorSpec;

use super::{
    after_revoke_all, identity_taken, session_ids_distinct, is_active, lemma_first_index,
    lemma_first_index_at, live_users_for, matches_identifier, opt_string_view,
    own_opt_str, copy_opt_string, revoke_first, revoked, role_name_of, session_id_is, role_id_is,
    role_name_is, role_names_for,
    string_views, user_of, RoleRepo, Session, SessionRecord, SessionRepo, User, UserRecord,
    UserRepo, UserWithHash,
};
use crate::clock::{now_utc, Timestamp};
use crate::error::IdmError;
use crate::ids::new_id;

verus! {

broadcast use vstd::std_specs::hash::group_hash_axioms;

/// The message of a username / email conflict.
pub fn taken_message() -> (r: String)
    ensures
        r@ == "用户名或邮箱已被占用"@,
{
    String::from_str("用户名或邮箱已被占用")
}

/// Whether two optional strings have the same view.
fn opt_string_eq(a: &Option<String>, b: &Option<String>) -> (r: bool)
    ensures
        r == (opt_string_view(*a) == opt_string_view(*b)),
{
    match (a, b) {
        (Some(x), Some(y)) => *x == *y,
        (None, None) => true,
        _ => false,
    }
}

// ---------------------------------------------------------------------------
// Fresh ids
// ---------------------------------------------------------------------------

/// Whether `ids` holds `id`.
fn holds(ids: &Vec<u128>, id: u128) -> (r: bool)
    ensures
        r == ids@.contains(id),
{
    let mut i: usize = 0;
    while i < ids.len()
        invariant
            i <= ids@.len(),
            forall|j: int| 0 <= j < i ==> ids@[j] != id,
        decreases ids@.len() - i,
    {
        if ids[i] == id {
            return true;
        }
        i = i + 1;
    }
    false
}

/// An id that `ids` does not hold: `candidate` when it is free (a drawn UUID
/// nearly always is), else the least free id. Of the `ids.len() + 1` ids from 0
/// up, one is free.
fn unused_in(ids: &Vec<u128>, candidate: u128) -> (r: u128)
    ensures
        !ids@.contains(r),
        !ids@.contains(candidate) ==> r == candidate,
{
    if !holds(ids, candidate) {
        return candidate;
    }
    let n = ids.len();
    let mut k: u128 = 0;
    let ghost mut tried = Set::<u128>::empty();
    proof {
        ids@.lemma_cardinality_of_set();
    }
    while holds(ids, k)
        invariant
            k <= n,
            n == ids@.len(),
            ids@.to_set().finite(),
            ids@.to_set().len() <= n,
            tried.finite(),
            tried.len() == k,
            forall|x: u128| #[trigger] tried.contains(x) <==> x < k,
            tried.subset_of(ids@.to_set()),
        decreases n - k,
    {
        proof {
            assert(ids@.to_set().contains(k));
            tried = tried.insert(k);
            if k == n {
                vstd::set_lib::lemma_len_subset(tried, ids@.to_set());
                assert(false);
            }
        }
        k = k + 1;
    }
    k
}

// ---------------------------------------------------------------------------
// Users
// ---------------------------------------------------------------------------

/// One stored user: more than `User` (password hash, deletion time).
struct UserRow {
    id: u128,
    username: String,
    email: Option<String>,
    email_verified: bool,
    password_hash: String,
    deleted_at: Option<Timestamp>,
}

spec fn row_record(r: UserRow) -> UserRecord {
    UserRecord {
        username: r.username@,
        email: opt_string_view(r.email),
        email_verified: r.email_verified,
        password_hash: r.password_hash@,
        deleted: r.deleted_at is Some,
    }
}

/// The records of a store of rows keyed by user id.
spec fn store_records(m: Map<u128, UserRow>) -> Map<u128, UserRecord> {
    m.map_values(|r: UserRow| row_record(r))
}

/// Every row is stored under its own id.
spec fn keyed_by_id(m: Map<u128, UserRow>) -> bool {
    forall|id: u128| #[trigger] m.contains_key(id) ==> m[id].id == id
}

proof fn lemma_store_insert(m: Map<u128, UserRow>, r: UserRow)
    requires
        keyed_by_id(m),
    ensures
        keyed_by_id(m.insert(r.id, r)),
        store_records(m.insert(r.id, r)) == store_records(m).insert(r.id, row_record(r)),
{
    assert(store_records(m.insert(r.id, r)) =~= store_records(m).insert(r.id, row_record(r)));
}

/// A row met while walking the store's values is the row stored under its id.
proof fn lemma_value_keyed(m: Map<u128, UserRow>, r: UserRow)
    requires
        keyed_by_id(m),
        m.values().contains(r),
    ensures
        m.contains_key(r.id),
        m[r.id] == r,
        store_records(m).contains_key(r.id),
        store_records(m)[r.id] == row_record(r),
{
    let k = choose|k: u128| #[trigger] m.contains_key(k) && m[k] == r;
    assert(m[k].id == k);
}

/// The stored row of `id` is among the values that a walk over the store visits.
proof fn lemma_walk_visits(m: Map<u128, UserRow>, vals: Seq<&UserRow>, id: u128) -> (j: int)
    requires
        vals.unref().to_set() == m.values(),
        m.contains_key(id),
    ensures
        0 <= j < vals.len(),
        *vals[j] == m[id],
{
    assert(m.values().contains(m[id]));
    assert(vals.unref().to_set().contains(m[id]));
    assert(vals.unref().contains(m[id]));
    let j = choose|j: int| 0 <= j < vals.unref().len() && vals.unref()[j] == m[id];
    j
}

impl UserRow {
    fn copy(&self) -> (r: UserRow)
        ensures
            r == *self,
    {
        UserRow {
            id: self.id,
            username: self.username.clone(),
            email: match &self.email {
                Some(e) => Some(e.clone()),
                None => None,
            },
            email_verified: self.email_verified,
            password_hash: self.password_hash.clone(),
            deleted_at: self.deleted_at,
        }
    }

    fn to_user(&self) -> (r: User)
        ensures
            r@ == user_of(self.id, row_record(*self)),
    {
        User {
            id: self.id,
            username: self.username.clone(),
            email: copy_opt_string(&self.email),
            email_verified: self.email_verified,
        }
    }

    /// Live, and holding `username` or (when given) `email`.
    fn holds_identity(&self, username: &String, email: &Option<String>) -> (r: bool)
        ensures
            r == (!row_record(*self).deleted && (row_record(*self).username == username@ || (
            opt_string_view(*email) is Some && row_record(*self).email == opt_string_view(
                *email,
            )))),
    {
        self.deleted_at.is_none() && (self.username == *username || (email.is_some()
            && opt_string_eq(&self.email, email)))
    }
}

/// Users kept in memory, by id.
pub struct InMemoryUserRepo {
    store: HashMap<u128, UserRow>,
}

impl Default for InMemoryUserRepo {
    /// An empty repository, as [`InMemoryUserRepo::new`].
    fn default() -> (r: Self)
        ensures
            r.inv(),
            r.records() == Map::<u128, UserRecord>::empty(),
    {
        InMemoryUserRepo::new()
    }
}

impl InMemoryUserRepo {
    /// An empty repository.
    pub fn new() -> (r: InMemoryUserRepo)
        ensures
            r.inv(),
            r.records() == Map::<u128, UserRecord>::empty(),
    {
        let r = InMemoryUserRepo { store: HashMap::new() };
        assert(r.records() =~= Map::<u128, UserRecord>::empty());
        r
    }

    /// Whether a live row other than `except` holds `username` or (when given) `email`.
    fn identity_in_use(&self, username: &String, email: &Option<String>, except: Option<u128>) -> (r:
        bool)
        requires
            keyed_by_id(self.store@),
        ensures
            r == identity_taken(self.records(), username@, opt_string_view(*email), except),
    {
        let ghost m = self.records();
        let ghost vals = spec_values_iter(&self.store).remaining();
        for row in it: self.store.values()
            invariant
                it.seq() == vals,
                vals.unref().to_set() == self.store@.values(),
                keyed_by_id(self.store@),
                m == store_records(self.store@),
                forall|j: int|
                    0 <= j < it.index() ==> !(except != Some((#[trigger] vals[j]).id) && !row_record(
                        *vals[j],
                    ).deleted && (row_record(*vals[j]).username == username@ || (opt_string_view(
                        *email,
                    ) is Some && row_record(*vals[j]).email == opt_string_view(*email)))),
        {
            let other = match except {
                Some(x) => row.id != x,
                None => true,
            };
            if other && row.holds_identity(username, email) {
                proof {
                    assert(vals.unref().contains(*row));
                    lemma_value_keyed(self.store@, *row);
                    assert(m.contains_key(row.id));
                }
                return true;
            }
        }
        proof {
            assert forall|id: u128| #[trigger] m.contains_key(id) implies !(except != Some(id)
                && !m[id].deleted && (m[id].username == username@ || (opt_string_view(*email) is Some
                && m[id].email == opt_string_view(*email)))) by {
                let j = lemma_walk_visits(self.store@, vals, id);
                assert(vals[j].id == id);
            }
        }
        false
    }

    /// An id under which no user is stored: `candidate` when it is free (a drawn
    /// UUID nearly always is), else the least free id.
    fn unused_id(&self, candidate: u128) -> (r: u128)
        ensures
            !self.store@.contains_key(r),
            !self.store@.contains_key(candidate) ==> r == candidate,
    {
        if !self.store.contains_key(&candidate) {
            return candidate;
        }
        let n = self.store.len();
        let mut k: u128 = 0;
        let ghost mut tried = Set::<u128>::empty();
        while self.store.contains_key(&k)
            invariant
                k <= n,
                n == self.store@.dom().len(),
                self.store@.dom().finite(),
                tried.finite(),
                tried.len() == k,
                forall|x: u128| #[trigger] tried.contains(x) <==> x < k,
                tried.subset_of(self.store@.dom()),
            decreases n - k,
        {
            proof {
                tried = tried.insert(k);
                if k == n {
                    vstd::set_lib::lemma_len_subset(tried, self.store@.dom());
                    assert(false);
                }
            }
            k = k + 1;
        }
        k
    }

    /// Stores `row` under its id, replacing the row stored there.
    fn put(&mut self, row: UserRow)
        requires
            keyed_by_id(old(self).store@),
        ensures
            keyed_by_id(final(self).store@),
            final(self).records() == old(self).records().insert(row.id, row_record(row)),
    {
        proof {
            lemma_store_insert(self.store@, row);
        }
        self.store.insert(row.id, row);
    }
}

impl UserRepo for InMemoryUserRepo {
    /// Memory does not fail.
    open spec fn reliable(&self) -> bool {
        true
    }

    closed spec fn records(&self) -> Map<u128, UserRecord> {
        store_records(self.store@)
    }

    closed spec fn inv(&self) -> bool {
        keyed_by_id(self.store@)
    }

    fn create(
        &mut self,
        username: &str,
        email: Option<&str>,
        password_hash: &str,
        by: Option<String>,
    ) -> (r: Result<User, IdmError>)
    {
        let uname = username.to_owned();
        let em = own_opt_str(email);
        if self.identity_in_use(&uname, &em, None) {
            return Err(IdmError::Conflict(taken_message()));
        }
        let row = UserRow {
            id: self.unused_id(new_id()),
            username: uname,
            email: em,
            email_verified: false,
            password_hash: password_hash.to_owned(),
            deleted_at: None,
        };
        let user = row.to_user();
        self.put(row);
        Ok(user)
    }

    fn find_by_identifier(&self, identifier: &str) -> (r: Result<Option<UserWithHash>, IdmError>)
    {
        let ident = identifier.to_owned();
        let some_ident = Some(identifier.to_owned());
        let ghost vals = spec_values_iter(&self.store).remaining();
        for row in it: self.store.values()
            invariant
                it.seq() == vals,
                vals.unref().to_set() == self.store@.values(),
                keyed_by_id(self.store@),
                ident@ == identifier@,
                opt_string_view(some_ident) == Some(identifier@),
                forall|j: int|
                    0 <= j < it.index() ==> !matches_identifier(
                        row_record(*#[trigger] vals[j]),
                        identifier@,
                    ),
        {
            if row.deleted_at.is_none() && (row.username == ident || opt_string_eq(
                &row.email,
                &some_ident,
            )) {
                proof {
                    assert(vals.unref().contains(*row));
                    lemma_value_keyed(self.store@, *row);
                }
                return Ok(
                    Some(UserWithHash { user: row.to_user(), password_hash: row.password_hash.clone() }),
                );
            }
        }
        proof {
            assert forall|id: u128| #[trigger]
                self.records().contains_key(id) implies !matches_identifier(
                self.records()[id],
                identifier@,
            ) by {
                let j = lemma_walk_visits(self.store@, vals, id);
            }
        }
        Ok(None)
    }

    fn find_by_id(&self, id: u128) -> (r: Result<User, IdmError>)
    {
        match self.store.get(&id) {
            Some(row) => {
                if row.deleted_at.is_none() {
                    Ok(row.to_user())
                } else {
                    Err(IdmError::NotFound)
                }
            },
            None => Err(IdmError::NotFound),
        }
    }

    fn find_by_ids(&self, ids: &[u128]) -> (r: Result<Vec<User>, IdmError>)
    {
        let mut out: Vec<User> = Vec::new();
        let mut k: usize = 0;
        while k < ids.len()
            invariant
                k <= ids@.len(),
                keyed_by_id(self.store@),
                out@.map_values(|u: User| u@) == live_users_for(self.records(), ids@.take(k as int)),
            decreases ids@.len() - k,
        {
            let id = ids[k];
            proof {
                assert(ids@.take(k + 1).drop_last() == ids@.take(k as int));
                assert(ids@.take(k + 1).last() == id);
            }
            match self.store.get(&id) {
                Some(row) => {
                    if row.deleted_at.is_none() {
                        let u = row.to_user();
                        out.push(u);
                        proof {
                            assert(out@.map_values(|u: User| u@) =~= live_users_for(
                                self.records(),
                                ids@.take(k + 1),
                            ));
                        }
                    } else {
                        proof {
                            assert(out@.map_values(|u: User| u@) =~= live_users_for(
                                self.records(),
                                ids@.take(k + 1),
                            ));
                        }
                    }
                },
                None => {
                    proof {
                        assert(out@.map_values(|u: User| u@) =~= live_users_for(
                            self.records(),
                            ids@.take(k + 1),
                        ));
                    }
                },
            }
            k = k + 1;
        }
        proof {
            assert(ids@.take(ids@.len() as int) =~= ids@);
        }
        Ok(out)
    }

    fn update(
        &mut self,
        id: u128,
        username: &str,
        email: Option<&str>,
        by: Option<String>,
    ) -> (r: Result<User, IdmError>)
    {
        let uname = username.to_owned();
        let em = own_opt_str(email);
        if self.identity_in_use(&uname, &em, Some(id)) {
            return Err(IdmError::Conflict(taken_message()));
        }
        let password_hash = match self.store.get(&id) {
            Some(row) => {
                if row.deleted_at.is_none() {
                    row.password_hash.clone()
                } else {
                    return Err(IdmError::NotFound);
                }
            },
            None => {
                return Err(IdmError::NotFound);
            },
        };
        let row = UserRow {
            id,
            username: uname,
            email: em,
            email_verified: false,
            password_hash,
            deleted_at: None,
        };
        let user = row.to_user();
        self.put(row);
        Ok(user)
    }

    fn soft_delete(&mut self, id: u128, by: Option<String>) -> (r: Result<(), IdmError>)
    {
        let mut row = match self.store.get(&id) {
            Some(row) => {
                if row.deleted_at.is_none() {
                    row.copy()
                } else {
                    return Err(IdmError::NotFound);
                }
            },
            None => {
                return Err(IdmError::NotFound);
            },
        };
        row.deleted_at = Some(now_utc());
        self.put(row);
        proof {
            assert(row_record(row) == UserRecord { deleted: true, ..old(self).records()[id] });
        }
        Ok(())
    }

    fn update_password(&mut self, user_id: u128, password_hash: &str) -> (r: Result<(), IdmError>)
    {
        let mut row = match self.store.get(&user_id) {
            Some(row) => {
                if row.deleted_at.is_none() {
                    row.copy()
                } else {
                    return Err(IdmError::NotFound);
                }
            },
            None => {
                return Err(IdmError::NotFound);
            },
        };
        row.password_hash = password_hash.to_owned();
        self.put(row);
        Ok(())
    }

    fn password_hash(&self, user_id: u128) -> (r: Result<Option<String>, IdmError>)
    {
        match self.store.get(&user_id) {
            Some(row) => {
                if row.deleted_at.is_none() {
                    Ok(Some(row.password_hash.clone()))
                } else {
                    Ok(None)
                }
            },
            None => Ok(None),
        }
    }
}

// ---------------------------------------------------------------------------
// Sessions
// ---------------------------------------------------------------------------

/// One stored session.
struct SessionRow {
    id: u128,
    user_id: u128,
    token_hash: String,
    expires_at: Timestamp,
    revoked_at: Option<Timestamp>,
}

spec fn session_record(r: SessionRow) -> SessionRecord {
    SessionRecord {
        id: r.id,
        user_id: r.user_id,
        token_hash: r.token_hash@,
        expires_at: r.expires_at.nanos(),
        revoked: r.revoked_at is Some,
    }
}

impl SessionRow {
    fn copy(&self) -> (r: SessionRow)
        ensures
            r == *self,
    {
        SessionRow {
            id: self.id,
            user_id: self.user_id,
            token_hash: self.token_hash.clone(),
            expires_at: self.expires_at,
            revoked_at: self.revoked_at,
        }
    }
}

/// Sessions kept in memory, oldest first.
pub struct InMemorySessionRepo {
    store: Vec<SessionRow>,
}

impl Default for InMemorySessionRepo {
    /// An empty repository, as [`InMemorySessionRepo::new`].
    fn default() -> (r: Self)
        ensures
            r.inv(),
            r.sessions() == Seq::<SessionRecord>::empty(),
    {
        InMemorySessionRepo::new()
    }
}

impl InMemorySessionRepo {
    /// The ids of the stored sessions, in order.
    fn ids(&self) -> (r: Vec<u128>)
        ensures
            r@.len() == self.store@.len(),
            forall|i: int| 0 <= i < r@.len() ==> r@[i] == (#[trigger] self.store@[i]).id,
    {
        let mut out: Vec<u128> = Vec::new();
        let mut i: usize = 0;
        while i < self.store.len()
            invariant
                i <= self.store@.len(),
                out@.len() == i,
                forall|j: int| 0 <= j < i ==> out@[j] == (#[trigger] self.store@[j]).id,
            decreases self.store@.len() - i,
        {
            out.push(self.store[i].id);
            i = i + 1;
        }
        out
    }

    /// An empty repository.
    pub fn new() -> (r: InMemorySessionRepo)
        ensures
            r.inv(),
            r.sessions() == Seq::<SessionRecord>::empty(),
    {
        let r = InMemorySessionRepo { store: Vec::new() };
        assert(r.sessions() =~= Seq::<SessionRecord>::empty());
        r
    }
}

impl SessionRepo for InMemorySessionRepo {
    /// Memory does not fail.
    open spec fn reliable(&self) -> bool {
        true
    }

    closed spec fn sessions(&self) -> Seq<SessionRecord> {
        self.store@.map_values(|r: SessionRow| session_record(r))
    }

    closed spec fn inv(&self) -> bool {
        session_ids_distinct(self.sessions())
    }

    proof fn lemma_ids_distinct(&self) {
    }

    fn create(
        &mut self,
        user_id: u128,
        token_hash: &str,
        expires_at: Timestamp,
        by: Option<String>,
    ) -> (r: Result<Session, IdmError>)
    {
        let ids = self.ids();
        let row = SessionRow {
            id: unused_in(&ids, new_id()),
            user_id,
            token_hash: token_hash.to_owned(),
            expires_at,
            revoked_at: None,
        };
        let session = Session { id: row.id, user_id };
        proof {
            assert forall|i: int| 0 <= i < old(self).sessions().len() implies (#[trigger] old(
                self,
            ).sessions()[i]).id != row.id by {
                assert(ids@[i] == old(self).sessions()[i].id);
            }
        }
        self.store.push(row);
        proof {
            assert(self.sessions() =~= old(self).sessions().push(session_record(row)));
        }
        Ok(session)
    }

    fn find_active(&self, token_hash: &str, now: Timestamp) -> (r: Result<Option<Session>, IdmError>)
    {
        let hash = token_hash.to_owned();
        let mut i: usize = 0;
        while i < self.store.len()
            invariant
                i <= self.store@.len(),
                hash@ == token_hash@,
                forall|j: int|
                    0 <= j < i ==> !is_active(
                        session_record(#[trigger] self.store@[j]),
                        token_hash@,
                        now.nanos(),
                    ),
            decreases self.store@.len() - i,
        {
            let row = &self.store[i];
            if row.token_hash == hash && row.revoked_at.is_none() && row.expires_at.is_after(&now) {
                proof {
                    assert(self.sessions()[i as int] == session_record(self.store@[i as int]));
                }
                return Ok(Some(Session { id: row.id, user_id: row.user_id }));
            }
            i = i + 1;
        }
        proof {
            assert forall|j: int| 0 <= j < self.sessions().len() implies !is_active(
                #[trigger] self.sessions()[j],
                token_hash@,
                now.nanos(),
            ) by {
                assert(self.sessions()[j] == session_record(self.store@[j]));
            }
        }
        Ok(None)
    }

    fn revoke(&mut self, session_id: u128) -> (r: Result<(), IdmError>)
    {
        let ghost p = session_id_is(session_id);
        let mut i: usize = 0;
        while i < self.store.len()
            invariant
                i <= self.store@.len(),
                p == session_id_is(session_id),
                self.store@ == old(self).store@,
                session_ids_distinct(old(self).sessions()),
                forall|j: int| 0 <= j < i ==> #[trigger] self.store@[j].id != session_id,
            decreases self.store@.len() - i,
        {
            if self.store[i].id == session_id {
                proof {
                    assert forall|j: int| 0 <= j < i implies !p(#[trigger] old(self).sessions()[j]) by {
                        assert(old(self).sessions()[j] == session_record(self.store@[j]));
                    }
                    lemma_first_index_at(old(self).sessions(), p, i as int);
                }
                if self.store[i].revoked_at.is_none() {
                    let mut row = self.store[i].copy();
                    row.revoked_at = Some(now_utc());
                    self.store.set(i, row);
                    proof {
                        assert(self.sessions() =~= revoke_first(old(self).sessions(), session_id));
                        assert forall|k: int, l: int|
                            0 <= k < self.sessions().len() && 0 <= l < self.sessions().len() && k != l
                                implies (#[trigger] self.sessions()[k]).id != (#[trigger] self.sessions()[l]).id by {
                            assert(self.sessions()[k].id == old(self).sessions()[k].id);
                            assert(self.sessions()[l].id == old(self).sessions()[l].id);
                        }
                    }
                } else {
                    proof {
                        assert(self.sessions() =~= revoke_first(old(self).sessions(), session_id));
                    }
                }
                return Ok(());
            }
            i = i + 1;
        }
        proof {
            assert forall|j: int| 0 <= j < old(self).sessions().len() implies !p(
                #[trigger] old(self).sessions()[j],
            ) by {
                assert(old(self).sessions()[j] == session_record(self.store@[j]));
            }
            lemma_first_index(old(self).sessions(), p);
        }
        Ok(())
    }

    fn revoke_all(&mut self, user_id: u128, except: Option<u128>) -> (r: Result<(), IdmError>)
    {
        let now = now_utc();
        let mut i: usize = 0;
        while i < self.store.len()
            invariant
                i <= self.store@.len(),
                self.store@.len() == old(self).store@.len(),
                forall|j: int|
                    0 <= j < i ==> session_record(#[trigger] self.store@[j]) == after_revoke_all(
                        session_record(old(self).store@[j]),
                        user_id,
                        except,
                    ),
                forall|j: int| i <= j < self.store@.len() ==> #[trigger] self.store@[j] == old(
                    self,
                ).store@[j],
            decreases self.store@.len() - i,
        {
            let row = &self.store[i];
            let excepted = match except {
                Some(x) => row.id == x,
                None => false,
            };
            if row.user_id == user_id && !excepted && row.revoked_at.is_none() {
                let mut row2 = row.copy();
                row2.revoked_at = Some(now);
                self.store.set(i, row2);
            }
            i = i + 1;
        }
        proof {
            assert(self.sessions() =~= old(self).sessions().map_values(
                |s: SessionRecord| after_revoke_all(s, user_id, except),
            ));
        }
        Ok(())
    }
}

// ---------------------------------------------------------------------------
// Roles
// ---------------------------------------------------------------------------

/// Roles kept in memory: only (id, name) and the grants; display names and soft
/// deletion exist only in the database.
pub struct InMemoryRoleRepo {
    roles: Vec<(u128, String)>,
    grants: Vec<(u128, u128)>,
}

impl Default for InMemoryRoleRepo {
    /// An empty repository, as [`InMemoryRoleRepo::new`].
    fn default() -> (r: Self)
        ensures
            r.inv(),
            r.roles() == Seq::<(u128, Seq<char>)>::empty(),
            r.grants() == Seq::<(u128, u128)>::empty(),
    {
        InMemoryRoleRepo::new()
    }
}

impl InMemoryRoleRepo {
    /// An empty repository.
    pub fn new() -> (r: InMemoryRoleRepo)
        ensures
            r.inv(),
            r.roles() == Seq::<(u128, Seq<char>)>::empty(),
            r.grants() == Seq::<(u128, u128)>::empty(),
    {
        let r = InMemoryRoleRepo { roles: Vec::new(), grants: Vec::new() };
        assert(r.roles() =~= Seq::<(u128, Seq<char>)>::empty());
        r
    }

    /// The name of the first role with id `role_id`.
    fn name_of(&self, role_id: u128) -> (r: Option<String>)
        ensures
            opt_string_view(r) == role_name_of(self.roles(), role_id),
    {
        let ghost p = role_id_is(role_id);
        let mut j: usize = 0;
        while j < self.roles.len()
            invariant
                j <= self.roles@.len(),
                p == role_id_is(role_id),
                forall|k: int| 0 <= k < j ==> #[trigger] self.roles@[k].0 != role_id,
            decreases self.roles@.len() - j,
        {
            if self.roles[j].0 == role_id {
                proof {
                    assert forall|k: int| 0 <= k < j implies !p(#[trigger] self.roles()[k]) by {
                        assert(self.roles()[k] == (self.roles@[k].0, self.roles@[k].1@));
                    }
                    lemma_first_index_at(self.roles(), p, j as int);
                    assert(self.roles()[j as int] == (self.roles@[j as int].0, self.roles@[j as int].1@));
                }
                return Some(self.roles[j].1.clone());
            }
            j = j + 1;
        }
        proof {
            assert forall|k: int| 0 <= k < self.roles().len() implies !p(#[trigger] self.roles()[k]) by {
                assert(self.roles()[k] == (self.roles@[k].0, self.roles@[k].1@));
            }
            lemma_first_index(self.roles(), p);
        }
        None
    }
}

impl RoleRepo for InMemoryRoleRepo {
    /// Memory does not fail.
    open spec fn reliable(&self) -> bool {
        true
    }

    closed spec fn roles(&self) -> Seq<(u128, Seq<char>)> {
        self.roles@.map_values(|r: (u128, String)| (r.0, r.1@))
    }

    closed spec fn grants(&self) -> Seq<(u128, u128)> {
        self.grants@
    }

    closed spec fn inv(&self) -> bool {
        true
    }

    fn upsert(&mut self, name: &str, display_name: &str, by: Option<String>) -> (r: Result<
        u128,
        IdmError,
    >)
    {
        let n = name.to_owned();
        let ghost p = role_name_is(name@);
        let mut j: usize = 0;
        while j < self.roles.len()
            invariant
                j <= self.roles@.len(),
                p == role_name_is(name@),
                n@ == name@,
                self.roles@ == old(self).roles@,
                self.grants@ == old(self).grants@,
                forall|k: int| 0 <= k < j ==> #[trigger] self.roles@[k].1@ != name@,
            decreases self.roles@.len() - j,
        {
            if self.roles[j].1 == n {
                proof {
                    assert forall|k: int| 0 <= k < j implies !p(#[trigger] self.roles()[k]) by {
                        assert(self.roles()[k] == (self.roles@[k].0, self.roles@[k].1@));
                    }
                    lemma_first_index_at(self.roles(), p, j as int);
                }
                return Ok(self.roles[j].0);
            }
            j = j + 1;
        }
        proof {
            assert forall|k: int| 0 <= k < self.roles().len() implies !p(#[trigger] self.roles()[k]) by {
                assert(self.roles()[k] == (self.roles@[k].0, self.roles@[k].1@));
            }
            lemma_first_index(self.roles(), p);
        }
        let mut ids: Vec<u128> = Vec::new();
        let mut k: usize = 0;
        while k < self.roles.len()
            invariant
                k <= self.roles@.len(),
                ids@.len() == k,
                forall|x: int| 0 <= x < k ==> ids@[x] == (#[trigger] self.roles@[x]).0,
            decreases self.roles@.len() - k,
        {
            ids.push(self.roles[k].0);
            k = k + 1;
        }
        let id = unused_in(&ids, new_id());
        proof {
            assert forall|x: int| 0 <= x < old(self).roles().len() implies (#[trigger] old(
                self,
            ).roles()[x]).0 != id by {
                assert(ids@[x] == old(self).roles()[x].0);
            }
        }
        self.roles.push((id, n));
        proof {
            assert(self.roles() =~= old(self).roles().push((id, name@)));
        }
        Ok(id)
    }

    fn grant(&mut self, user_id: u128, role_id: u128, by: Option<String>) -> (r: Result<(), IdmError>)
    {
        let mut j: usize = 0;
        while j < self.grants.len()
            invariant
                j <= self.grants@.len(),
                self.grants@ == old(self).grants@,
                self.roles@ == old(self).roles@,
                forall|k: int| 0 <= k < j ==> #[trigger] self.grants@[k] != (user_id, role_id),
            decreases self.grants@.len() - j,
        {
            let g = self.grants[j];
            if g.0 == user_id && g.1 == role_id {
                proof {
                    assert(self.grants@[j as int] == (user_id, role_id));
                }
                return Ok(());
            }
            j = j + 1;
        }
        self.grants.push((user_id, role_id));
        Ok(())
    }

    fn roles_for_user(&self, user_id: u128) -> (r: Result<Vec<String>, IdmError>)
    {
        let mut out: Vec<String> = Vec::new();
        let mut j: usize = 0;
        while j < self.grants.len()
            invariant
                j <= self.grants@.len(),
                string_views(out@) == role_names_for(self.roles(), self.grants@.take(j as int), user_id),
            decreases self.grants@.len() - j,
        {
            let g = self.grants[j];
            proof {
                assert(self.grants@.take(j + 1).drop_last() == self.grants@.take(j as int));
            }
            if g.0 == user_id {
                match self.name_of(g.1) {
                    Some(n) => {
                        out.push(n);
                        proof {
                            assert(string_views(out@) =~= role_names_for(
                                self.roles(),
                                self.grants@.take(j + 1),
                                user_id,
                            ));
                        }
                    },
                    None => {},
                }
            }
            j = j + 1;
        }
        proof {
            assert(self.grants@.take(self.grants@.len() as int) =~= self.grants@);
        }
        Ok(out)
    }
}

} // verus!
