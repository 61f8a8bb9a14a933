//! Request and response shapes of the auth endpoints, with the field rules the
//! requests must meet. Lengths are counted in UTF-8 bytes; emails must have the
//! form `garde` accepts.
use vstd::prelude::*;
use vstd::utf8::encode_scalar;
use vstd::utf8::encode_utf8;

use crate::error::IdmError;
use crate::repo::{opt_string_view, UserView};

verus! {

/// What `garde`'s email rule accepts.
pub uninterp spec fn email_form(s: Seq<char>) -> bool;

/// Why `garde`'s email rule rejects `s` (the text of its `InvalidEmail`).
pub uninterp spec fn email_reason(s: Seq<char>) -> Seq<char>;

/// Why `s` does not have the form of an email address, if it does not.
///
/// Trusted: calls `garde::rules::email::parse_email(s)`; `Ok` is `None`, and an
/// error is given as its `Display` text. Whether it is `None` is named
/// `email_form(s)`, the text `email_reason(s)`. The function rejects an empty value
/// and one without `@` before anything else, which is also claimed.
#[verifier::external_body]
fn email_problem(s: &str) -> (r: Option<String>)
    ensures
        r is None <==> email_form(s@),
        r matches Some(m) ==> m@ == email_reason(s@),
        r is None ==> s@.len() > 0 && s@.contains('@'),
{
    match garde::rules::email::parse_email(s) {
        Ok(()) => None,
        Err(e) => Some(e.to_string()),
    }
}

/// Whether `s` has the form of an email address.
pub fn is_email(s: &str) -> (r: bool)
    ensures
        r == email_form(s@),
        r ==> s@.len() > 0 && s@.contains('@'),
{
    email_problem(s).is_none()
}

/// The length of `s` in UTF-8 bytes.
pub open spec fn byte_len(s: Seq<char>) -> int {
    encode_utf8(s).len() as int
}

/// An optional email is absent or has the form of an email.
pub open spec fn email_ok(e: Option<Seq<char>>) -> bool {
    match e {
        Some(s) => email_form(s),
        None => true,
    }
}

/// A text has at least one UTF-8 byte exactly when it has a character.
pub proof fn lemma_byte_len_positive(s: Seq<char>)
    ensures
        byte_len(s) >= 1 <==> s.len() > 0,
{
    if s.len() > 0 {
        assert(encode_utf8(s) == encode_scalar(s[0] as u32) + encode_utf8(s.drop_first()));
        assert(encode_scalar(s[0] as u32).len() >= 1);
    } else {
        assert(encode_utf8(s) =~= Seq::<u8>::empty());
    }
}

/// The length of `s` in UTF-8 bytes.
pub fn utf8_len(s: &String) -> (r: usize)
    ensures
        r == byte_len(s@),
{
    s.as_str().as_bytes().len()
}

/// The report line of an email that breaks the email rule: the field, the
/// rule's message and the reason, as `garde` words them.
pub open spec fn email_lines(e: Option<Seq<char>>) -> Seq<Seq<char>> {
    match e {
        Some(s) => line_if(!email_form(s), "email: not a valid email: "@ + email_reason(s)),
        None => Seq::empty(),
    }
}

/// The report line of an optional email, when it breaks the email rule.
fn email_failure(e: &Option<String>) -> (r: Option<String>)
    ensures
        r is None <==> email_ok(opt_string_view(*e)),
        r matches Some(line) ==> email_lines(opt_string_view(*e)) == seq![line@],
        r is None ==> email_lines(opt_string_view(*e)) == Seq::<Seq<char>>::empty(),
        *e matches Some(s) ==> (r is None ==> s@.len() > 0 && s@.contains('@')),
{
    match e {
        Some(s) => match email_problem(s.as_str()) {
            Some(reason) => {
                let mut line = String::from_str("email: not a valid email: ");
                line.append(reason.as_str());
                Some(line)
            },
            None => None,
        },
        None => None,
    }
}

/// `acc` with `line` added as its last line (each line ends with a newline).
pub open spec fn add_line(acc: Seq<char>, line: Seq<char>) -> Seq<char> {
    acc + line + "\n"@
}

/// A validation report: the lines of the failed rules, in order, each ending
/// with a newline (as `garde`'s report prints them).
pub open spec fn report_of(lines: Seq<Seq<char>>) -> Seq<char>
    decreases lines.len(),
{
    if lines.len() == 0 {
        Seq::empty()
    } else {
        add_line(report_of(lines.drop_last()), lines.last())
    }
}

/// `line` when `failed`, else nothing.
pub open spec fn line_if(failed: bool, line: Seq<char>) -> Seq<Seq<char>> {
    if failed {
        seq![line]
    } else {
        Seq::empty()
    }
}

/// Adds the report line `line` for a failed rule.
fn report(out: &mut String, line: &str, Ghost(lines): Ghost<Seq<Seq<char>>>)
    requires
        old(out)@ == report_of(lines),
    ensures
        final(out)@ == report_of(lines.push(line@)),
{
    assert(lines.push(line@).drop_last() =~= lines);
    out.append(line);
    out.append("\n");
}

/// Public registration request.
pub struct RegisterRequest {
    pub username: String,
    pub email: Option<String>,
    pub password: String,
}

impl RegisterRequest {
    /// Username of 3 to 32 bytes, email absent or well formed, password of 8 bytes or more.
    pub open spec fn spec_valid(&self) -> bool {
        &&& 3 <= byte_len(self.username@) <= 32
        &&& email_ok(opt_string_view(self.email))
        &&& byte_len(self.password@) >= 8
    }

    /// The report lines of the rules this request breaks, in field order.
    pub open spec fn failures(&self) -> Seq<Seq<char>> {
        (if byte_len(self.username@) < 3 {
            seq!["username: length is lower than 3"@]
        } else {
            line_if(byte_len(self.username@) > 32, "username: length is greater than 32"@)
        }) + email_lines(opt_string_view(self.email)) + line_if(byte_len(self.password@) < 8, "password: length is lower than 8"@)
    }

    /// Checks the field rules; the error lists the failed ones.
    pub fn validate(&self) -> (r: Result<(), IdmError>)
        ensures
            r is Ok <==> self.spec_valid(),
            r is Err ==> r matches Err(IdmError::Validation(_)),
            r matches Err(IdmError::Validation(m)) ==> m@ == report_of(self.failures()),
            self.email matches Some(e) && !email_form(e@) ==> r is Err,
            self.email matches Some(e) ==> (r is Ok ==> e@.len() > 0 && e@.contains('@')),
    {
        let mut msg = String::new();
        let ghost mut lines: Seq<Seq<char>> = Seq::empty();
        assert(msg@ =~= report_of(lines));
        let u = utf8_len(&self.username);
        let ok_user = 3 <= u && u <= 32;
        if u < 3 {
            report(&mut msg, "username: length is lower than 3", Ghost(lines));
            proof {
                lines = lines.push("username: length is lower than 3"@);
            }
        } else if u > 32 {
            report(&mut msg, "username: length is greater than 32", Ghost(lines));
            proof {
                lines = lines.push("username: length is greater than 32"@);
            }
        }
        let email_fail = email_failure(&self.email);
        let ok_email = email_fail.is_none();
        match &email_fail {
            Some(line) => {
                report(&mut msg, line.as_str(), Ghost(lines));
                proof {
                    lines = lines.push(line@);
                }
            },
            None => {},
        }
        let ok_pw = utf8_len(&self.password) >= 8;
        if !ok_pw {
            report(&mut msg, "password: length is lower than 8", Ghost(lines));
            proof {
                lines = lines.push("password: length is lower than 8"@);
            }
        }
        assert(lines =~= self.failures());
        if ok_user && ok_email && ok_pw {
            Ok(())
        } else {
            Err(IdmError::Validation(msg))
        }
    }
}

/// Public login request: `identifier` is a username or an email.
pub struct LoginRequest {
    pub identifier: String,
    pub password: String,
}

impl LoginRequest {
    /// Both fields non-empty.
    pub open spec fn spec_valid(&self) -> bool {
        &&& byte_len(self.identifier@) >= 1
        &&& byte_len(self.password@) >= 1
    }

    /// The report lines of the rules this request breaks, in field order.
    pub open spec fn failures(&self) -> Seq<Seq<char>> {
        line_if(byte_len(self.identifier@) < 1, "identifier: length is lower than 1"@) + line_if(
            byte_len(self.password@) < 1,
            "password: length is lower than 1"@,
        )
    }

    /// Checks the field rules; the error lists the failed ones.
    pub fn validate(&self) -> (r: Result<(), IdmError>)
        ensures
            r is Ok <==> self.spec_valid(),
            r is Err ==> r matches Err(IdmError::Validation(_)),
            r matches Err(IdmError::Validation(m)) ==> m@ == report_of(self.failures()),
            r is Ok <==> self.identifier@.len() > 0 && self.password@.len() > 0,
    {
        proof {
            lemma_byte_len_positive(self.identifier@);
            lemma_byte_len_positive(self.password@);
        }
        let mut msg = String::new();
        let ghost mut lines: Seq<Seq<char>> = Seq::empty();
        assert(msg@ =~= report_of(lines));
        let ok_id = utf8_len(&self.identifier) >= 1;
        if !ok_id {
            report(&mut msg, "identifier: length is lower than 1", Ghost(lines));
            proof {
                lines = lines.push("identifier: length is lower than 1"@);
            }
        }
        let ok_pw = utf8_len(&self.password) >= 1;
        if !ok_pw {
            report(&mut msg, "password: length is lower than 1", Ghost(lines));
            proof {
                lines = lines.push("password: length is lower than 1"@);
            }
        }
        assert(lines =~= self.failures());
        if ok_id && ok_pw {
            Ok(())
        } else {
            Err(IdmError::Validation(msg))
        }
    }
}

/// The current user, as returned by the profile endpoints.
#[derive(Debug)]
pub struct UserResponse {
    pub id: u128,
    pub username: String,
    pub email: Option<String>,
    pub email_verified: bool,
    pub roles: Vec<String>,
}

/// The mathematical value of a [`UserResponse`].
pub struct UserResponseView {
    pub user: UserView,
    pub roles: Seq<Seq<char>>,
}

impl View for UserResponse {
    type V = UserResponseView;

    open spec fn view(&self) -> UserResponseView {
        UserResponseView {
            user: UserView {
                id: self.id,
                username: self.username@,
                email: opt_string_view(self.email),
                email_verified: self.email_verified,
            },
            roles: self.roles@.map_values(|s: String| s@),
        }
    }
}

/// Full update of the current user (PUT): username required; an absent email clears it.
pub struct UpdateMeRequest {
    pub username: String,
    pub email: Option<String>,
}

impl UpdateMeRequest {
    /// Username of 3 to 32 bytes, email absent or well formed.
    pub open spec fn spec_valid(&self) -> bool {
        &&& 3 <= byte_len(self.username@) <= 32
        &&& email_ok(opt_string_view(self.email))
    }

    /// The report lines of the rules this request breaks, in field order.
    pub open spec fn failures(&self) -> Seq<Seq<char>> {
        (if byte_len(self.username@) < 3 {
            seq!["username: length is lower than 3"@]
        } else {
            line_if(byte_len(self.username@) > 32, "username: length is greater than 32"@)
        }) + email_lines(opt_string_view(self.email))
    }

    /// Checks the field rules; the error lists the failed ones.
    pub fn validate(&self) -> (r: Result<(), IdmError>)
        ensures
            r is Ok <==> self.spec_valid(),
            r is Err ==> r matches Err(IdmError::Validation(_)),
            r matches Err(IdmError::Validation(m)) ==> m@ == report_of(self.failures()),
            self.email matches Some(e) && !email_form(e@) ==> r is Err,
            self.email matches Some(e) ==> (r is Ok ==> e@.len() > 0 && e@.contains('@')),
    {
        let mut msg = String::new();
        let ghost mut lines: Seq<Seq<char>> = Seq::empty();
        assert(msg@ =~= report_of(lines));
        let u = utf8_len(&self.username);
        let ok_user = 3 <= u && u <= 32;
        if u < 3 {
            report(&mut msg, "username: length is lower than 3", Ghost(lines));
            proof {
                lines = lines.push("username: length is lower than 3"@);
            }
        } else if u > 32 {
            report(&mut msg, "username: length is greater than 32", Ghost(lines));
            proof {
                lines = lines.push("username: length is greater than 32"@);
            }
        }
        let email_fail = email_failure(&self.email);
        let ok_email = email_fail.is_none();
        match &email_fail {
            Some(line) => {
                report(&mut msg, line.as_str(), Ghost(lines));
                proof {
                    lines = lines.push(line@);
                }
            },
            None => {},
        }
        assert(lines =~= self.failures());
        if ok_user && ok_email {
            Ok(())
        } else {
            Err(IdmError::Validation(msg))
        }
    }
}

/// Account deletion, confirmed by the password.
pub struct DeleteMeRequest {
    pub password: String,
}

impl DeleteMeRequest {
    /// The password is non-empty.
    pub open spec fn spec_valid(&self) -> bool {
        byte_len(self.password@) >= 1
    }

    /// Checks the field rule.
    pub fn validate(&self) -> (r: Result<(), IdmError>)
        ensures
            r is Ok <==> self.spec_valid(),
            r is Err ==> r matches Err(IdmError::Validation(_)),
            r matches Err(IdmError::Validation(m)) ==> m@ == report_of(
                seq!["password: length is lower than 1"@],
            ),
    {
        if utf8_len(&self.password) >= 1 {
            Ok(())
        } else {
            let mut msg = String::new();
            report(&mut msg, "password: length is lower than 1", Ghost(Seq::empty()));
            proof {
                assert(seq!["password: length is lower than 1"@] =~= Seq::<Seq<char>>::empty().push(
                    "password: length is lower than 1"@,
                ));
            }
            Err(IdmError::Validation(msg))
        }
    }
}

/// Password change.
pub struct ChangePasswordRequest {
    pub current_password: String,
    pub new_password: String,
}

impl ChangePasswordRequest {
    /// Current password non-empty, new password of 8 bytes or more.
    pub open spec fn spec_valid(&self) -> bool {
        &&& byte_len(self.current_password@) >= 1
        &&& byte_len(self.new_password@) >= 8
    }

    /// The report lines of the rules this request breaks, in field order.
    pub open spec fn failures(&self) -> Seq<Seq<char>> {
        line_if(byte_len(self.current_password@) < 1, "current_password: length is lower than 1"@)
            + line_if(byte_len(self.new_password@) < 8, "new_password: length is lower than 8"@)
    }

    /// Checks the field rules; the error lists the failed ones.
    pub fn validate(&self) -> (r: Result<(), IdmError>)
        ensures
            r is Ok <==> self.spec_valid(),
            r is Err ==> r matches Err(IdmError::Validation(_)),
            r matches Err(IdmError::Validation(m)) ==> m@ == report_of(self.failures()),
    {
        let mut msg = String::new();
        let ghost mut lines: Seq<Seq<char>> = Seq::empty();
        assert(msg@ =~= report_of(lines));
        let ok_cur = utf8_len(&self.current_password) >= 1;
        if !ok_cur {
            report(&mut msg, "current_password: length is lower than 1", Ghost(lines));
            proof {
                lines = lines.push("current_password: length is lower than 1"@);
            }
        }
        let ok_new = utf8_len(&self.new_password) >= 8;
        if !ok_new {
            report(&mut msg, "new_password: length is lower than 8", Ghost(lines));
            proof {
                lines = lines.push("new_password: length is lower than 8"@);
            }
        }
        assert(lines =~= self.failures());
        if ok_cur && ok_new {
            Ok(())
        } else {
            Err(IdmError::Validation(msg))
        }
    }
}

/// A profile update never takes a malformed email: an update whose email breaks
/// the email rule is invalid, whatever its username, and its report names the
/// email with the rule's reason; a valid update has no email or a well-formed one.
pub proof fn lemma_update_rejects_malformed_email(u: UpdateMeRequest)
    ensures
        u.email matches Some(e) ==> (!email_form(e@) ==> !u.spec_valid() && u.failures().contains(
            "email: not a valid email: "@ + email_reason(e@),
        )),
        u.spec_valid() ==> (u.email matches Some(e) ==> email_form(e@)),
{
    if let Some(e) = u.email {
        if !email_form(e@) {
            assert(opt_string_view(u.email) == Some(e@));
            assert(email_lines(opt_string_view(u.email)) == seq!["email: not a valid email: "@ + email_reason(e@)]);
            let head = if byte_len(u.username@) < 3 {
                seq!["username: length is lower than 3"@]
            } else {
                line_if(byte_len(u.username@) > 32, "username: length is greater than 32"@)
            };
            assert(u.failures()[head.len() as int] == "email: not a valid email: "@ + email_reason(e@));
        }
    }
}

/// A registration never takes a malformed email either: one whose email breaks
/// the email rule is invalid, and its report names the email with the rule's
/// reason.
pub proof fn lemma_register_rejects_malformed_email(r: RegisterRequest)
    ensures
        r.email matches Some(e) ==> (!email_form(e@) ==> !r.spec_valid() && r.failures().contains(
            "email: not a valid email: "@ + email_reason(e@),
        )),
        r.spec_valid() ==> (r.email matches Some(e) ==> email_form(e@)),
{
    if let Some(e) = r.email {
        if !email_form(e@) {
            assert(opt_string_view(r.email) == Some(e@));
            assert(email_lines(opt_string_view(r.email)) == seq!["email: not a valid email: "@ + email_reason(e@)]);
            let head = if byte_len(r.username@) < 3 {
                seq!["username: length is lower than 3"@]
            } else {
                line_if(byte_len(r.username@) > 32, "username: length is greater than 32"@)
            };
            assert(r.failures()[head.len() as int] == "email: not a valid email: "@ + email_reason(e@));
        }
    }
}

/// A login asks only that both fields be non-empty: any identifier with at least
/// one character, however long (a username or a full email address), with any
/// non-empty password, is a valid login; an empty field makes it invalid.
pub proof fn lemma_login_valid_iff_nonempty(l: LoginRequest)
    ensures
        l.spec_valid() <==> l.identifier@.len() > 0 && l.password@.len() > 0,
        l.identifier@.len() > 0 && l.password@.len() > 0 ==> l.failures() == Seq::<Seq<char>>::empty(),
{
    lemma_byte_len_positive(l.identifier@);
    lemma_byte_len_positive(l.password@);
    if l.identifier@.len() > 0 && l.password@.len() > 0 {
        assert(l.failures() =~= Seq::<Seq<char>>::empty());
    }
}

} // verus!
