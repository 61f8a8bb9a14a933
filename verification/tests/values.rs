use idm::audit::{Actor, AuditContext, AuthUser, CurrentUser};
use idm::clock::Timestamp;
use idm::cookies::{access_token_from, clear_auth_cookies, set_auth_cookies};
use idm::jwt::{generate_refresh, hash_refresh, Claims};
use idm::text::{normalize, trim};
use idm::token::TokenClaims;
use idm::types::{LoginRequest, RegisterRequest, UserResponse};
use idm::service::{found_or_unauthorized, password_checked};
use idm::{AuthOutcome, IdmError, User};

#[test]
fn actor_audit_ids() {
    assert_eq!(Actor::System.audit_id().as_deref(), Some("system"));
    assert_eq!(Actor::Anonymous.audit_id(), None);
    assert_eq!(Actor::User { id: "u-1".into() }.audit_id().as_deref(), Some("u-1"));
    assert_eq!(AuditContext::system().audit_id().as_deref(), Some("system"));
    let anon = AuditContext::anonymous(Some("req-9".into()));
    assert_eq!(anon.audit_id(), None);
    assert_eq!(anon.request_id.as_deref(), Some("req-9"));
}

#[test]
fn audit_context_from_request() {
    let u = AuthUser { id: 1, username: "alice".into(), roles: vec![] };
    let ctx = AuditContext::from_request(None, Some(&u));
    assert_eq!(
        ctx.audit_id().as_deref(),
        Some("00000000-0000-0000-0000-000000000001")
    );
    assert_eq!(AuditContext::from_request(Some("r".into()), None).audit_id(), None);
    assert!(matches!(CurrentUser::from_recorded(None), Err(IdmError::Unauthorized)));
    assert_eq!(CurrentUser::from_recorded(Some(u)).unwrap().0.username, "alice");
}

#[test]
fn normalize_trims_and_lowercases() {
    assert_eq!(normalize("  Alice@Example.COM \t"), "alice@example.com");
    assert_eq!(normalize("ÄBC"), "äbc");
    assert_eq!(normalize("\u{3000}Bob\u{3000}"), "bob");
    assert_eq!(normalize("   "), "");
    assert_eq!(normalize(""), "");
    assert_eq!(trim(" a b "), "a b");
}

#[test]
fn field_rules_count_bytes() {
    let r = |u: &str| RegisterRequest { username: u.into(), email: None, password: "password1".into() };
    assert!(r("abc").validate().is_ok());
    assert!(r("ab").validate().is_err());
    // Two two-byte characters are four bytes.
    assert!(r("éé").validate().is_ok());
    assert!(r(&"a".repeat(32)).validate().is_ok());
    assert!(matches!(r(&"a".repeat(33)).validate(), Err(IdmError::Validation(_))));
    let e = RegisterRequest { username: "abc".into(), email: Some("a@b.com".into()), password: "password1".into() };
    assert!(e.validate().is_ok());
    let bad = RegisterRequest { username: "ab".into(), email: Some("nope".into()), password: "x".into() };
    match bad.validate() {
        Err(IdmError::Validation(msg)) => assert_eq!(
            msg,
            "username: length is lower than 3\nemail: not a valid email: value is missing `@`\npassword: length is lower than 8\n"
        ),
        _ => panic!("expected a validation error"),
    }
    assert!(LoginRequest { identifier: "x".into(), password: "y".into() }.validate().is_ok());
}

#[test]
fn refresh_tokens_hash_deterministically() {
    assert_eq!(hash_refresh("abc"), "ungWv48Bz-pBQUDeXa4iI7ADYaOWF3qctBD_YfIAFa0");
    let (token, hash) = generate_refresh();
    assert_eq!(token.len(), 43);
    assert_eq!(hash, hash_refresh(&token));
    let (other, _) = generate_refresh();
    assert_ne!(token, other);
}

#[test]
fn claims_round_trip_recovers_identity() {
    let now = Timestamp::from_unix(1_700_000_000, 5).unwrap();
    let c = TokenClaims {
        user_id: 1,
        session_id: 2,
        username: "alice".into(),
        email: None,
        email_verified: false,
        roles: vec!["admin".into()],
        issued_at: now,
        expires_at: now.checked_add_seconds(3600).unwrap(),
    };
    let claims = Claims::from_token_claims(&c);
    assert_eq!(claims.sub, "00000000-0000-0000-0000-000000000001");
    assert_eq!(claims.jti, "00000000-0000-0000-0000-000000000002");
    assert_eq!(claims.iat, 1_700_000_000);
    assert_eq!(claims.exp, 1_700_003_600);
    let v = claims.into_verified().unwrap();
    assert_eq!(v.user_id, 1);
    assert_eq!(v.username, "alice");
    assert_eq!(v.roles, vec!["admin".to_string()]);
    let bad = Claims {
        sub: "not-a-uuid".into(),
        jti: String::new(),
        username: "x".into(),
        email: None,
        email_verified: false,
        roles: vec![],
        iat: 0,
        exp: 0,
    };
    assert!(matches!(bad.into_verified(), Err(IdmError::Unauthorized)));
}

#[test]
fn timestamps() {
    assert!(Timestamp::from_unix(0, 1_000_000_000).is_none());
    let a = Timestamp::from_unix(10, 999_999_999).unwrap();
    let b = Timestamp::from_unix(11, 0).unwrap();
    assert!(b.is_after(&a));
    assert!(!a.is_after(&b));
    assert!(!a.is_after(&a));
    assert_eq!(a.checked_add_seconds(5).unwrap().unix_timestamp(), 15);
    assert_eq!(a.checked_add_seconds(5).unwrap().nanosecond(), 999_999_999);
    assert!(Timestamp::from_unix(i64::MAX, 0).unwrap().checked_add_seconds(1).is_none());
}

#[test]
fn auth_cookies() {
    let outcome = AuthOutcome {
        user: UserResponse { id: 1, username: "a".into(), email: None, email_verified: false, roles: vec![] },
        access_token: "acc".into(),
        refresh_token: "ref".into(),
        access_max_age_secs: 900,
        refresh_max_age_secs: 604_800,
    };
    let set = set_auth_cookies(&outcome, true);
    assert_eq!(set.len(), 2);
    assert_eq!((set[0].name.as_str(), set[0].value.as_str(), set[0].max_age_secs), ("access_token", "acc", 900));
    assert_eq!((set[1].name.as_str(), set[1].value.as_str(), set[1].max_age_secs), ("refresh_token", "ref", 604_800));
    assert!(set.iter().all(|c| c.http_only && c.same_site_lax && c.secure && c.path == "/"));
    let clear = clear_auth_cookies();
    assert_eq!(clear[0].name, "access_token");
    assert_eq!(clear[1].name, "refresh_token");
    assert!(clear.iter().all(|c| c.value.is_empty() && c.max_age_secs == 0 && c.http_only));
}

#[test]
fn access_token_from_cookie_or_bearer() {
    assert_eq!(access_token_from(Some("c"), Some("Bearer h")).as_deref(), Some("c"));
    assert_eq!(access_token_from(None, Some("Bearer h.t")).as_deref(), Some("h.t"));
    assert_eq!(access_token_from(None, Some("Basic xyz")), None);
    assert_eq!(access_token_from(None, Some("Bear")), None);
    assert_eq!(access_token_from(None, None), None);
}

#[test]
fn access_claims_for_a_session() {
    let user = User { id: 7, username: "alice".into(), email: Some("a@b.com".into()), email_verified: true };
    let now = Timestamp::from_unix(1_000, 5).unwrap();
    let c = TokenClaims::for_session(&user, 9, vec!["admin".into()], now, 900).unwrap();
    assert_eq!(c.user_id, 7);
    assert_eq!(c.session_id, 9);
    assert_eq!(c.username, "alice");
    assert_eq!(c.email.as_deref(), Some("a@b.com"));
    assert!(c.email_verified);
    assert_eq!(c.roles, vec!["admin".to_string()]);
    assert_eq!(c.issued_at.unix_timestamp(), 1_000);
    assert_eq!(c.expires_at.unix_timestamp(), 1_900);
    assert_eq!(c.expires_at.nanosecond(), 5);
    let end = Timestamp::from_unix(i64::MAX, 0).unwrap();
    assert!(TokenClaims::for_session(&user, 9, Vec::new(), end, 1).is_none());
}

#[test]
fn storage_errors_are_classified() {
    match idm::repo::map_unique(true, "taken", "duplicate key".to_string()) {
        IdmError::Conflict(m) => assert_eq!(m, "taken"),
        other => panic!("expected a conflict, got {other:?}"),
    }
    match idm::repo::map_unique(false, "taken", "connection reset".to_string()) {
        IdmError::Internal(d) => assert_eq!(d, "connection reset"),
        other => panic!("expected an internal error, got {other:?}"),
    }
}

#[test]
fn port_answers_decide_the_outcome() {
    assert_eq!(found_or_unauthorized(Ok::<Option<u8>, IdmError>(Some(7))).unwrap(), 7);
    assert!(matches!(found_or_unauthorized::<u8>(Ok(None)), Err(IdmError::Unauthorized)));
    match found_or_unauthorized::<u8>(Err(IdmError::Internal("db down".into()))) {
        Err(IdmError::Internal(m)) => assert_eq!(m, "db down"),
        other => panic!("expected the lookup's error, got {other:?}"),
    }
    assert!(password_checked(Ok(true)).is_ok());
    assert!(matches!(password_checked(Ok(false)), Err(IdmError::Unauthorized)));
    assert!(matches!(password_checked(Err(IdmError::Internal("x".into()))), Err(IdmError::Internal(_))));
}

#[test]
fn row_outcomes() {
    assert!(matches!(idm::repo::touched_row(0), Err(IdmError::NotFound)));
    assert!(idm::repo::touched_row(1).is_ok());
    assert_eq!(idm::repo::required_row(Some(3)).unwrap(), 3);
    assert!(matches!(idm::repo::required_row::<u8>(None), Err(IdmError::NotFound)));
}

#[test]
fn refresh_tokens_are_url_safe_base64_of_32_bytes() {
    let (token, hash) = generate_refresh();
    for s in [&token, &hash] {
        assert_eq!(s.len(), 43);
        assert!(s.chars().all(|c| c.is_ascii_alphanumeric() || c == '-' || c == '_'));
    }
}

#[test]
fn whitespace_is_unicode_white_space() {
    for u in 0u32..=0x10FFFF {
        if let Some(c) = char::from_u32(u) {
            assert_eq!(idm::text::is_whitespace(c), c.is_whitespace(), "U+{u:04X}");
        }
    }
}
