//! Password hashing port. A hash is a PHC string that names its algorithm, salt
//! and parameters, so verification picks the algorithm from the string.
//! Implementations: `Argon2Hasher` for production, `FakeHasher` for tests (no
//! real hashing, so test runs stay fast).
use vstd::prelude::*;
use vstd::utf8::encode_utf8;

use crate::error::IdmError;

verus! {

/// What checking `plain` against the PHC string `phc` with Argon2 gives: `None`
/// when `phc` does not parse as a PHC string, else whether the password matches.
pub uninterp spec fn argon2_check(plain: Seq<char>, phc: Seq<char>) -> Option<bool>;

/// How a PHC string of Argon2id, version 0x13 (19), begins.
pub open spec fn argon2id_prefix() -> Seq<char> {
    "$argon2id$v=19$"@
}

/// Hashes `plain` with Argon2id under a fresh random salt.
///
/// Trusted: calls `argon2::password_hash::SaltString::generate(&mut OsRng)`, then
/// `Argon2::default().hash_password(plain, &salt)` and formats the PHC string; an
/// error is returned as its message. The salt is random, so the string is not
/// named; what is claimed is the round trip the crate documents: checking the
/// same password against the string it produced succeeds. `Argon2::default()` is
/// Argon2id at version 0x13, and `PasswordHash`'s `Display` writes `$`, the
/// algorithm, `$v=` and the version first, so the string starts with
/// `argon2id_prefix()`. With the default parameters and a generated 16-byte salt,
/// the one input check that can fail is the password's length
/// (`verify_inputs`: at most `MAX_PWD_LEN`, 0xFFFFFFFF bytes), so hashing a
/// password within that length succeeds.
#[verifier::external_body]
fn argon2_hash(plain: &str) -> (r: Result<String, String>)
    ensures
        r matches Ok(phc) ==> argon2_check(plain@, phc@) == Some(true),
        r matches Ok(phc) ==> argon2id_prefix().is_prefix_of(phc@),
        encode_utf8(plain@).len() <= 0xFFFF_FFFF ==> r is Ok,
{
    let salt = argon2::password_hash::SaltString::generate(
        &mut argon2::password_hash::rand_core::OsRng,
    );
    let hasher = argon2::Argon2::default();
    match argon2::password_hash::PasswordHasher::hash_password(&hasher, plain.as_bytes(), &salt) {
        Ok(h) => Ok(h.to_string()),
        Err(e) => Err(format!("argon2 hash 失败: {e}")),
    }
}

/// Checks `plain` against the PHC string `phc`.
///
/// Trusted: calls `argon2::password_hash::PasswordHash::new(phc)`; on success calls
/// `Argon2::default().verify_password(plain, &parsed)` and reports whether it is
/// `Ok`; a parse error is returned as a message with its detail. The parsed hash
/// borrows `phc`, so the two calls share one item; the answer is named
/// `argon2_check(plain, phc)`.
#[verifier::external_body]
fn argon2_verify(plain: &str, phc: &str) -> (r: Result<bool, String>)
    ensures
        r is Ok <==> argon2_check(plain@, phc@) is Some,
        r matches Ok(b) ==> argon2_check(plain@, phc@) == Some(b),
{
    match argon2::password_hash::PasswordHash::new(phc) {
        Ok(parsed) => Ok(
            argon2::password_hash::PasswordVerifier::verify_password(
                &argon2::Argon2::default(),
                plain.as_bytes(),
                &parsed,
            ).is_ok(),
        ),
        Err(e) => Err(format!("PHC 串解析失败: {e}")),
    }
}

/// Password hashing port.
pub trait PwHasher {
    /// What verifying `plain` against `phc` answers: `None` when `phc` is not a
    /// hash this hasher can read, else whether the password matches.
    spec fn accepts(&self, plain: Seq<char>, phc: Seq<char>) -> Option<bool>;

    /// Whether hashing never fails, and neither does verifying against a hash
    /// this hasher can read.
    spec fn reliable(&self) -> bool;

    /// Plain password to a PHC string. The string verifies against the same password.
    fn hash(&self, plain: &str) -> (r: Result<String, IdmError>)
        ensures
            r matches Ok(phc) ==> self.accepts(plain@, phc@) == Some(true),
            r is Err ==> r matches Err(IdmError::Internal(_)),
            self.reliable() ==> r is Ok,
    ;

    /// Checks `plain` against the PHC string `phc`; an unreadable string is
    /// `Internal`, and so is any failure of the hasher itself.
    fn verify(&self, plain: &str, phc: &str) -> (r: Result<bool, IdmError>)
        ensures
            r matches Ok(b) ==> self.accepts(plain@, phc@) == Some(b),
            r is Err ==> r matches Err(IdmError::Internal(_)),
            self.accepts(plain@, phc@) is None ==> r is Err,
            self.reliable() && self.accepts(plain@, phc@) is Some ==> r is Ok,
    ;
}

/// Production hasher: Argon2id with the crate's default parameters. CPU-heavy
/// (about 100 ms); an async caller should run it on a blocking thread.
pub struct Argon2Hasher;

impl PwHasher for Argon2Hasher {
    open spec fn accepts(&self, plain: Seq<char>, phc: Seq<char>) -> Option<bool> {
        argon2_check(plain, phc)
    }

    /// Hashing fails for passwords longer than Argon2 takes (0xFFFFFFFF bytes),
    /// so no promise for every input is made; `hash` states the limit.
    open spec fn reliable(&self) -> bool {
        false
    }

    fn hash(&self, plain: &str) -> (r: Result<String, IdmError>)
        ensures
            r matches Ok(phc) ==> argon2id_prefix().is_prefix_of(phc@),
            encode_utf8(plain@).len() <= 0xFFFF_FFFF ==> r is Ok,
    {
        match argon2_hash(plain) {
            Ok(phc) => Ok(phc),
            Err(msg) => Err(IdmError::Internal(msg)),
        }
    }

    fn verify(&self, plain: &str, phc: &str) -> (r: Result<bool, IdmError>)
        ensures
            self.accepts(plain@, phc@) matches Some(b) ==> r == Ok::<bool, IdmError>(b),
    {
        match argon2_verify(plain, phc) {
            Ok(b) => Ok(b),
            Err(detail) => Err(IdmError::Internal(detail)),
        }
    }
}

/// The marker that `FakeHasher` puts before the plain password.
pub open spec fn fake_prefix() -> Seq<char> {
    seq!['f', 'a', 'k', 'e', '$']
}

/// Test hasher: the "hash" is a marker followed by the plain password, and
/// verification compares strings. Only for test wiring; never for production.
pub struct FakeHasher;

impl FakeHasher {
    fn marked(plain: &str) -> (r: String)
        ensures
            r@ == fake_prefix() + plain@,
    {
        let mut s = String::from_str("fake$");
        proof {
            reveal_strlit("fake$");
            assert("fake$"@ =~= fake_prefix());
        }
        s.append(plain);
        s
    }
}

impl PwHasher for FakeHasher {
    open spec fn accepts(&self, plain: Seq<char>, phc: Seq<char>) -> Option<bool> {
        Some(phc == fake_prefix() + plain)
    }

    open spec fn reliable(&self) -> bool {
        true
    }

    fn hash(&self, plain: &str) -> (r: Result<String, IdmError>)
        ensures
            r is Ok,
    {
        Ok(FakeHasher::marked(plain))
    }

    fn verify(&self, plain: &str, phc: &str) -> (r: Result<bool, IdmError>)
        ensures
            r is Ok,
    {
        let expected = FakeHasher::marked(plain);
        let given = phc.to_owned();
        Ok(given == expected)
    }
}

/// With `FakeHasher`, a hash verifies exactly the password it was made from.
pub proof fn lemma_fake_hash_verifies_only_its_password(plain: Seq<char>, other: Seq<char>)
    ensures
        FakeHasher.accepts(plain, fake_prefix() + plain) == Some(true),
        FakeHasher.accepts(other, fake_prefix() + plain) == Some(other == plain),
{
    if fake_prefix() + plain == fake_prefix() + other {
        assert(plain =~= (fake_prefix() + plain).skip(5));
        assert(other =~= (fake_prefix() + other).skip(5));
    }
}

} // verus!
