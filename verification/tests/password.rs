use idm::{Argon2Hasher, FakeHasher, IdmError, PwHasher};

#[test]
fn argon2_round_trip_and_phc_self_describes() {
    let h = Argon2Hasher;
    let phc = h.hash("hunter42").unwrap();
    // The PHC string describes itself: its prefix names the algorithm.
    assert!(phc.starts_with("$argon2id$"), "应是 argon2id PHC 串: {phc}");
    assert!(h.verify("hunter42", &phc).unwrap());
    assert!(!h.verify("wrong", &phc).unwrap());
}

#[test]
fn fake_round_trip_is_fast_and_correct() {
    let h = FakeHasher;
    let phc = h.hash("pw").unwrap();
    assert!(h.verify("pw", &phc).unwrap());
    assert!(!h.verify("nope", &phc).unwrap());
}

/// Both implementations meet the same port and can be swapped behind it.
#[test]
fn both_satisfy_the_port() {
    let impls: Vec<std::sync::Arc<dyn PwHasher>> =
        vec![std::sync::Arc::new(Argon2Hasher), std::sync::Arc::new(FakeHasher)];
    for h in impls {
        let phc = h.hash("secret-pw").unwrap();
        assert!(h.verify("secret-pw", &phc).unwrap());
        assert!(!h.verify("other", &phc).unwrap());
    }
}

#[test]
fn fake_hash_is_marker_and_password() {
    assert_eq!(FakeHasher.hash("pw").unwrap(), "fake$pw");
    assert_eq!(FakeHasher.hash("").unwrap(), "fake$");
    assert!(FakeHasher.verify("pw", "fake$pw").unwrap());
    assert!(!FakeHasher.verify("pw", "fake$pw2").unwrap());
    assert!(!FakeHasher.verify("pw", "pw").unwrap());
}

#[test]
fn argon2_unreadable_hash_is_internal() {
    assert!(matches!(
        Argon2Hasher.verify("pw", "not a phc string"),
        Err(IdmError::Internal(_))
    ));
    assert!(matches!(Argon2Hasher.verify("pw", ""), Err(IdmError::Internal(_))));
}

#[test]
fn argon2_hashes_are_salted() {
    let a = Argon2Hasher.hash("same").unwrap();
    let b = Argon2Hasher.hash("same").unwrap();
    assert_ne!(a, b);
    assert!(Argon2Hasher.verify("same", &a).unwrap());
    assert!(Argon2Hasher.verify("same", &b).unwrap());
}

#[test]
fn argon2_phc_names_argon2id_version_19() {
    let phc = Argon2Hasher.hash("hunter42").unwrap();
    assert!(phc.starts_with("$argon2id$v=19$"), "{phc}");
}
