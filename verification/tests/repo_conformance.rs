//! The repository contract: one script of assertions that every repository
//! implementation must pass (user, session and role repositories together).

use idm::clock::now_utc;
use idm::ids::new_id;
use idm::{IdmError, InMemoryRoleRepo, InMemorySessionRepo, InMemoryUserRepo};
use idm::{RoleRepo, SessionRepo, UserRepo};

fn idm_repo_contract(
    users: &mut impl UserRepo,
    sessions: &mut impl SessionRepo,
    roles: &mut impl RoleRepo,
) {
    // user: create + find (username / email) + duplicate -> Conflict + password_hash
    let u = users
        .create("alice", Some("a@b.com"), "hash1", Some("sys".into()))
        .unwrap();
    assert_eq!(u.username, "alice");
    assert!(users.find_by_identifier("alice").unwrap().is_some());
    assert!(users.find_by_identifier("a@b.com").unwrap().is_some());
    assert!(users.find_by_identifier("nobody").unwrap().is_none());
    assert_eq!(users.find_by_id(u.id).unwrap().username, "alice");
    assert!(matches!(
        users.create("alice", None, "h", None),
        Err(IdmError::Conflict(_))
    ));
    assert_eq!(users.password_hash(u.id).unwrap().as_deref(), Some("hash1"));

    // find_by_ids: hits, absent ids, empty input, soft-deleted filtered out
    let bob = users.create("bob", None, "h2", None).unwrap();
    assert_eq!(users.find_by_ids(&[u.id, bob.id]).unwrap().len(), 2);
    let missing = new_id();
    assert_eq!(users.find_by_ids(&[u.id, missing]).unwrap().len(), 1);
    assert!(users.find_by_ids(&[]).unwrap().is_empty());
    users.soft_delete(bob.id, None).unwrap();
    assert!(users.find_by_ids(&[bob.id]).unwrap().is_empty());

    // role: upsert idempotent + grant idempotent + roles_for_user
    let rid = roles.upsert("admin", "管理员", Some("sys".into())).unwrap();
    assert_eq!(roles.upsert("admin", "管理员", None).unwrap(), rid);
    assert!(roles.roles_for_user(u.id).unwrap().is_empty());
    roles.grant(u.id, rid, Some("sys".into())).unwrap();
    roles.grant(u.id, rid, None).unwrap();
    assert_eq!(roles.roles_for_user(u.id).unwrap(), vec!["admin".to_string()]);

    // session: create + find_active + expiry + revoke + revoke_all
    let now = now_utc();
    let future = now.checked_add_seconds(7 * 86400).unwrap();
    let s = sessions
        .create(u.id, "tokhash1", future, Some("sys".into()))
        .unwrap();
    assert!(sessions.find_active("tokhash1", now).unwrap().is_some());
    assert!(sessions
        .find_active("tokhash1", future.checked_add_seconds(1).unwrap())
        .unwrap()
        .is_none());
    sessions.revoke(s.id).unwrap();
    assert!(sessions.find_active("tokhash1", now).unwrap().is_none());
    sessions.create(u.id, "tokhash2", future, None).unwrap();
    sessions.create(u.id, "tokhash3", future, None).unwrap();
    sessions.revoke_all(u.id, None).unwrap();
    assert!(sessions.find_active("tokhash2", now).unwrap().is_none());
    assert!(sessions.find_active("tokhash3", now).unwrap().is_none());

    // update + update_password + soft_delete (second delete is NotFound)
    let upd = users.update(u.id, "alice2", None, Some("sys".into())).unwrap();
    assert_eq!(upd.username, "alice2");
    users.update_password(u.id, "hash2").unwrap();
    assert_eq!(users.password_hash(u.id).unwrap().as_deref(), Some("hash2"));
    users.soft_delete(u.id, None).unwrap();
    assert!(matches!(users.find_by_id(u.id), Err(IdmError::NotFound)));
    assert!(users.find_by_identifier("alice2").unwrap().is_none());
    assert!(matches!(users.soft_delete(u.id, None), Err(IdmError::NotFound)));
}

#[test]
fn memory_satisfies_idm_contract() {
    idm_repo_contract(
        &mut InMemoryUserRepo::new(),
        &mut InMemorySessionRepo::new(),
        &mut InMemoryRoleRepo::new(),
    );
}

#[test]
fn live_identities_stay_unique() {
    let mut users = InMemoryUserRepo::new();
    let a = users.create("alice", Some("a@b.com"), "h", None).unwrap();
    let b = users.create("bob", None, "h", None).unwrap();
    // Another live user's username or email is taken, for create and update alike.
    assert!(matches!(users.create("carol", Some("a@b.com"), "h", None), Err(IdmError::Conflict(_))));
    assert!(matches!(users.update(b.id, "alice", None, None), Err(IdmError::Conflict(_))));
    assert!(matches!(users.update(b.id, "bob", Some("a@b.com"), None), Err(IdmError::Conflict(_))));
    // A user may keep its own identity.
    assert!(users.update(a.id, "alice", Some("a@b.com"), None).is_ok());
    // Once soft-deleted, the identity is free again.
    users.soft_delete(a.id, None).unwrap();
    let again = users.create("alice", Some("a@b.com"), "h2", None).unwrap();
    assert_ne!(again.id, a.id);
    assert_eq!(users.find_by_identifier("alice").unwrap().unwrap().user.id, again.id);
}

#[test]
fn created_ids_are_fresh() {
    let mut users = InMemoryUserRepo::new();
    let a = users.create("alice", None, "h1", None).unwrap();
    let b = users.create("bob", None, "h2", None).unwrap();
    assert_ne!(a.id, b.id);
    assert_eq!(users.find_by_id(a.id).unwrap().username, "alice");
    let mut sessions = InMemorySessionRepo::new();
    let end = now_utc().checked_add_seconds(60).unwrap();
    let s = sessions.create(a.id, "t1", end, None).unwrap();
    let t = sessions.create(a.id, "t2", end, None).unwrap();
    assert_ne!(s.id, t.id);
    let mut roles = InMemoryRoleRepo::new();
    let r1 = roles.upsert("admin", "Admin", None).unwrap();
    let r2 = roles.upsert("user", "User", None).unwrap();
    assert_ne!(r1, r2);
}
