use idm::clock::Timestamp;
use idm::token::{TokenClaims, VerifiedToken};
use idm::types::{
    ChangePasswordRequest, DeleteMeRequest, LoginRequest, RegisterRequest, UpdateMeRequest,
};
use idm::{
    AuditContext, AuthService, FakeHasher, IdmError, InMemoryRoleRepo, InMemorySessionRepo,
    InMemoryUserRepo, RoleRepo, TokenSigner, TokenVerifier, UserRepo,
};

/// A transparent token format for tests: `user_id|username|roles|ttl`.
struct PlainTokens;

impl TokenSigner for PlainTokens {
    fn sign(&self, c: &TokenClaims) -> Result<String, IdmError> {
        Ok(format!(
            "{}|{}|{}|{}",
            c.user_id,
            c.username,
            c.roles.join(","),
            c.expires_at.unix_timestamp() - c.issued_at.unix_timestamp()
        ))
    }
}

impl TokenVerifier for PlainTokens {
    fn verify(&self, token: &str) -> Result<VerifiedToken, IdmError> {
        let parts: Vec<&str> = token.split('|').collect();
        if parts.len() != 4 {
            return Err(IdmError::Unauthorized);
        }
        let user_id = parts[0].parse::<u128>().map_err(|_| IdmError::Unauthorized)?;
        let roles = if parts[2].is_empty() {
            Vec::new()
        } else {
            parts[2].split(',').map(|s| s.to_string()).collect()
        };
        Ok(VerifiedToken { user_id, username: parts[1].to_string(), roles })
    }
}

type Svc = AuthService<InMemoryUserRepo, InMemorySessionRepo, InMemoryRoleRepo, FakeHasher, PlainTokens>;

fn service() -> Svc {
    AuthService::new(
        InMemoryUserRepo::new(),
        InMemorySessionRepo::new(),
        InMemoryRoleRepo::new(),
        FakeHasher,
        PlainTokens,
        900,
        604_800,
    )
}

fn reg(username: &str, email: Option<&str>, password: &str) -> RegisterRequest {
    RegisterRequest {
        username: username.into(),
        email: email.map(|e| e.into()),
        password: password.into(),
    }
}

fn login_req(identifier: &str, password: &str) -> LoginRequest {
    LoginRequest { identifier: identifier.into(), password: password.into() }
}

#[test]
fn register_normalizes_and_issues_session() {
    let mut svc = service();
    let out = svc
        .register(reg("  Alice ", Some("A@B.com"), "password1"), &AuditContext::system())
        .unwrap();
    assert_eq!(out.user.username, "alice");
    assert_eq!(out.user.email.as_deref(), Some("a@b.com"));
    assert!(!out.user.email_verified);
    assert!(out.user.roles.is_empty());
    assert_eq!(out.access_max_age_secs, 900);
    assert_eq!(out.refresh_max_age_secs, 604_800);
    assert_eq!(out.access_token, format!("{}|alice||900", out.user.id));
    assert_eq!(out.refresh_token.len(), 43);
    // The stored hash is the fake marker plus the password.
    assert_eq!(svc.users.password_hash(out.user.id).unwrap().as_deref(), Some("fake$password1"));
    // Login by username or email, in any case and spacing.
    assert!(svc.login(login_req("ALICE", "password1")).is_ok());
    assert!(svc.login(login_req(" a@b.COM ", "password1")).is_ok());
}

#[test]
fn register_conflict_on_username_or_email() {
    let mut svc = service();
    svc.register(reg("alice", Some("a@b.com"), "password1"), &AuditContext::system()).unwrap();
    assert!(matches!(
        svc.register(reg("ALICE", None, "password2"), &AuditContext::system()),
        Err(IdmError::Conflict(_))
    ));
    assert!(matches!(
        svc.register(reg("bob", Some("A@B.COM"), "password2"), &AuditContext::system()),
        Err(IdmError::Conflict(_))
    ));
    assert!(svc.register(reg("bob", None, "password2"), &AuditContext::system()).is_ok());
}

#[test]
fn register_validation_errors() {
    let mut svc = service();
    let ctx = AuditContext::system();
    assert!(matches!(svc.register(reg("ab", None, "password1"), &ctx), Err(IdmError::Validation(_))));
    assert!(matches!(
        svc.register(reg(&"a".repeat(33), None, "password1"), &ctx),
        Err(IdmError::Validation(_))
    ));
    assert!(matches!(svc.register(reg("abc", Some("nope"), "password1"), &ctx), Err(IdmError::Validation(_))));
    assert!(matches!(svc.register(reg("abc", None, "short"), &ctx), Err(IdmError::Validation(_))));
    assert!(svc.register(reg(&"a".repeat(32), None, "password1"), &ctx).is_ok());
}

#[test]
fn login_unknown_user_and_wrong_password_look_the_same() {
    let mut svc = service();
    svc.register(reg("alice", None, "password1"), &AuditContext::system()).unwrap();
    assert!(matches!(svc.login(login_req("nobody", "password1")), Err(IdmError::Unauthorized)));
    assert!(matches!(svc.login(login_req("alice", "wrong-password")), Err(IdmError::Unauthorized)));
    assert!(matches!(svc.login(login_req("", "x")), Err(IdmError::Validation(_))));
    assert!(matches!(svc.login(login_req("alice", "")), Err(IdmError::Validation(_))));
}

#[test]
fn refresh_rotates_and_old_token_is_spent() {
    let mut svc = service();
    let out = svc.register(reg("alice", None, "password1"), &AuditContext::system()).unwrap();
    let t1 = out.refresh_token.clone();
    let next = svc.refresh(&t1).unwrap();
    assert_eq!(next.user.username, "alice");
    assert_ne!(next.refresh_token, t1);
    assert!(matches!(svc.refresh(&t1), Err(IdmError::Unauthorized)));
    assert!(svc.refresh(&next.refresh_token).is_ok());
    assert!(matches!(svc.refresh("garbage"), Err(IdmError::Unauthorized)));
}

#[test]
fn logout_is_idempotent() {
    let mut svc = service();
    let out = svc.register(reg("alice", None, "password1"), &AuditContext::system()).unwrap();
    assert!(svc.logout(&out.refresh_token).is_ok());
    assert!(matches!(svc.refresh(&out.refresh_token), Err(IdmError::Unauthorized)));
    assert!(svc.logout(&out.refresh_token).is_ok());
    assert!(svc.logout("never-issued").is_ok());
}

#[test]
fn logout_all_revokes_every_session_of_the_user() {
    let mut svc = service();
    let a = svc.register(reg("alice", None, "password1"), &AuditContext::system()).unwrap();
    let a2 = svc.login(login_req("alice", "password1")).unwrap();
    let b = svc.register(reg("bob", None, "password1"), &AuditContext::system()).unwrap();
    svc.logout_all(a.user.id).unwrap();
    assert!(matches!(svc.refresh(&a.refresh_token), Err(IdmError::Unauthorized)));
    assert!(matches!(svc.refresh(&a2.refresh_token), Err(IdmError::Unauthorized)));
    assert!(svc.refresh(&b.refresh_token).is_ok());
}

#[test]
fn me_reports_roles_and_access_token_carries_them() {
    let mut svc = service();
    let out = svc.register(reg("alice", None, "password1"), &AuditContext::system()).unwrap();
    let rid = svc.roles.upsert("admin", "管理员", None).unwrap();
    svc.roles.grant(out.user.id, rid, None).unwrap();
    let me = svc.me(out.user.id).unwrap();
    assert_eq!(me.roles, vec!["admin".to_string()]);
    let again = svc.login(login_req("alice", "password1")).unwrap();
    assert_eq!(again.user.roles, vec!["admin".to_string()]);
    let who = svc.authenticate_token(&again.access_token).unwrap();
    assert_eq!(who.id, out.user.id);
    assert_eq!(who.username, "alice");
    assert_eq!(who.roles, vec!["admin".to_string()]);
    assert!(matches!(svc.authenticate_token("garbage"), Err(IdmError::Unauthorized)));
    assert!(matches!(svc.me(12345), Err(IdmError::NotFound)));
}

#[test]
fn update_me_replaces_profile() {
    let mut svc = service();
    let ctx = AuditContext::system();
    let a = svc.register(reg("alice", Some("a@b.com"), "password1"), &ctx).unwrap();
    svc.register(reg("bob", Some("bob@b.com"), "password1"), &ctx).unwrap();
    let upd = svc
        .update_me(a.user.id, UpdateMeRequest { username: " Alice2 ".into(), email: None }, &ctx)
        .unwrap();
    assert_eq!(upd.username, "alice2");
    assert_eq!(upd.email, None);
    assert!(!upd.email_verified);
    assert!(matches!(
        svc.update_me(a.user.id, UpdateMeRequest { username: "bob".into(), email: None }, &ctx),
        Err(IdmError::Conflict(_))
    ));
    assert!(matches!(
        svc.update_me(a.user.id, UpdateMeRequest { username: "carol".into(), email: Some("BOB@b.com".into()) }, &ctx),
        Err(IdmError::Conflict(_))
    ));
    // Keeping one's own username is no conflict.
    assert!(svc
        .update_me(a.user.id, UpdateMeRequest { username: "alice2".into(), email: Some("x@y.z".into()) }, &ctx)
        .is_ok());
    assert!(matches!(
        svc.update_me(999, UpdateMeRequest { username: "nobody".into(), email: None }, &ctx),
        Err(IdmError::NotFound)
    ));
    assert!(matches!(
        svc.update_me(a.user.id, UpdateMeRequest { username: "x".into(), email: None }, &ctx),
        Err(IdmError::Validation(_))
    ));
}

#[test]
fn delete_me_needs_the_password_and_ends_everything() {
    let mut svc = service();
    let a = svc.register(reg("alice", None, "password1"), &AuditContext::system()).unwrap();
    assert!(matches!(
        svc.delete_me(a.user.id, DeleteMeRequest { password: "wrong".into() }, None),
        Err(IdmError::Unauthorized)
    ));
    assert!(matches!(
        svc.delete_me(a.user.id, DeleteMeRequest { password: "".into() }, None),
        Err(IdmError::Validation(_))
    ));
    svc.delete_me(a.user.id, DeleteMeRequest { password: "password1".into() }, Some("self".into()))
        .unwrap();
    assert!(matches!(svc.me(a.user.id), Err(IdmError::NotFound)));
    assert!(matches!(svc.login(login_req("alice", "password1")), Err(IdmError::Unauthorized)));
    assert!(matches!(svc.refresh(&a.refresh_token), Err(IdmError::Unauthorized)));
    assert!(matches!(
        svc.delete_me(a.user.id, DeleteMeRequest { password: "password1".into() }, None),
        Err(IdmError::Unauthorized)
    ));
    // The username is free again.
    assert!(svc.register(reg("alice", None, "password2"), &AuditContext::system()).is_ok());
}

#[test]
fn change_password_checks_current_and_forces_relogin() {
    let mut svc = service();
    let a = svc.register(reg("alice", None, "password1"), &AuditContext::system()).unwrap();
    let req = |cur: &str, new: &str| ChangePasswordRequest {
        current_password: cur.into(),
        new_password: new.into(),
    };
    assert!(matches!(svc.change_password(a.user.id, req("wrong", "password2")), Err(IdmError::Unauthorized)));
    assert!(matches!(svc.change_password(a.user.id, req("password1", "short")), Err(IdmError::Validation(_))));
    svc.change_password(a.user.id, req("password1", "password2")).unwrap();
    assert!(matches!(svc.refresh(&a.refresh_token), Err(IdmError::Unauthorized)));
    assert!(matches!(svc.login(login_req("alice", "password1")), Err(IdmError::Unauthorized)));
    assert!(svc.login(login_req("alice", "password2")).is_ok());
    assert!(matches!(svc.change_password(777, req("password2", "password3")), Err(IdmError::Unauthorized)));
}

#[test]
fn sessions_expire_after_the_refresh_lifetime() {
    let mut svc = service();
    let t0 = Timestamp::from_unix(1_700_000_000, 0).unwrap();
    let at = |secs: i64| t0.checked_add_seconds(secs).unwrap();
    let out = svc
        .register_at(reg("alice", None, "password1"), &AuditContext::system(), t0)
        .unwrap();
    // The access token of `PlainTokens` ends with its lifetime in seconds.
    assert!(out.access_token.ends_with("|900"));
    // One second before the refresh lifetime ends the session is still active ...
    let next = svc.refresh_at(&out.refresh_token, at(604_799)).unwrap();
    // ... and the new session lasts a full lifetime from the refresh.
    assert!(matches!(
        svc.refresh_at(&next.refresh_token, at(604_799 + 604_800)),
        Err(IdmError::Unauthorized)
    ));
    let login = svc.login_at(login_req("alice", "password1"), t0).unwrap();
    assert!(matches!(svc.refresh_at(&login.refresh_token, at(604_800)), Err(IdmError::Unauthorized)));
    // Logging out with an expired session changes nothing and still succeeds.
    assert!(svc.logout_at(&login.refresh_token, at(604_800)).is_ok());
    assert!(svc.refresh_at(&login.refresh_token, at(604_799)).is_ok());
}

#[test]
fn out_of_range_expiry_is_internal() {
    let mut svc = service();
    let end = Timestamp::from_unix(i64::MAX - 10, 0).unwrap();
    assert!(matches!(
        svc.register_at(reg("alice", None, "password1"), &AuditContext::system(), end),
        Err(IdmError::Internal(_))
    ));
}

#[test]
fn login_normalizes_identifier_and_reports_lifetimes() {
    let mut svc = AuthService::new(
        InMemoryUserRepo::new(),
        InMemorySessionRepo::new(),
        InMemoryRoleRepo::new(),
        FakeHasher,
        PlainTokens,
        900,
        3600,
    );
    let r = svc
        .register(reg("alice", Some("a@b.com"), "password1"), &AuditContext::system())
        .unwrap();
    for ident in ["  ALICE ", "A@B.COM"] {
        let o = svc.login(login_req(ident, "password1")).unwrap();
        assert_eq!(o.user.id, r.user.id);
        assert_eq!(o.user.username, "alice");
        assert_eq!(o.access_max_age_secs, 900);
        assert_eq!(o.refresh_max_age_secs, 3600);
        // The access token carries the user and lasts the access lifetime.
        assert!(o.access_token.starts_with(&format!("{}|alice|", r.user.id)));
        assert!(o.access_token.ends_with("|900"));
    }
}

#[test]
fn refresh_for_a_user_that_is_gone_is_not_found() {
    let mut svc = service();
    let a = svc.register(reg("alice", None, "password1"), &AuditContext::system()).unwrap();
    svc.users.soft_delete(a.user.id, None).unwrap();
    assert!(matches!(svc.refresh(&a.refresh_token), Err(IdmError::NotFound)));
}
