//! Domain inputs of the service: plain data, no HTTP, no serialisation, no
//! validation. The audit subject is not part of an input; it travels separately.
use vstd::prelude::*;

verus! {

/// Registration: a required, unique username; an optional email; the plain password.
pub struct RegisterInput {
    pub username: String,
    pub email: Option<String>,
    pub password: String,
}

/// Login: `identifier` is a username or an email.
pub struct LoginInput {
    pub identifier: String,
    pub password: String,
}

/// Full replacement of the current user's profile: the username is required, an
/// absent email clears it.
pub struct UpdateMeInput {
    pub username: String,
    pub email: Option<String>,
}

/// Password change.
pub struct ChangePasswordInput {
    pub current_password: String,
    pub new_password: String,
}

} // verus!
