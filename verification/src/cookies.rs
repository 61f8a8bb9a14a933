//! Cookie policy of the auth endpoints. Login, registration and refresh put the
//! access and refresh tokens in http-only cookies (the body carries only the
//! user); logout sends both cookies again, empty and already expired, so that the
//! browser drops them even when the request did not carry them.
//!
//! Requests authenticate with the access-token cookie, or else with an
//! `Authorization: Bearer` header.
use vstd::prelude::*;

use crate::service::AuthOutcome;

verus! {

/// Name of the access-token cookie.
pub open spec fn access_cookie_name() -> Seq<char> {
    "access_token"@
}

/// Name of the refresh-token cookie.
pub open spec fn refresh_cookie_name() -> Seq<char> {
    "refresh_token"@
}

/// A cookie to set, as plain values. Every auth cookie is http-only with path `/`.
#[derive(Debug)]
pub struct AuthCookie {
    pub name: String,
    pub value: String,
    pub max_age_secs: i64,
    pub http_only: bool,
    /// `SameSite=Lax` when set; no `SameSite` attribute otherwise.
    pub same_site_lax: bool,
    pub secure: bool,
    pub path: String,
}

/// An http-only auth cookie: `SameSite=Lax`, `Secure` when `secure` (production,
/// https only), path `/`, the given max-age.
pub fn auth_cookie(name: &str, value: String, max_age_secs: i64, secure: bool) -> (r: AuthCookie)
    ensures
        r.name@ == name@,
        r.value == value,
        r.max_age_secs == max_age_secs,
        r.http_only,
        r.same_site_lax,
        r.secure == secure,
        r.path@ == "/"@,
{
    AuthCookie {
        name: name.to_owned(),
        value,
        max_age_secs,
        http_only: true,
        same_site_lax: true,
        secure,
        path: String::from_str("/"),
    }
}

/// An empty auth cookie that expires at once: http-only, path `/`, max-age 0.
pub fn expired_cookie(name: &str) -> (r: AuthCookie)
    ensures
        r.name@ == name@,
        r.value@ == Seq::<char>::empty(),
        r.max_age_secs == 0,
        r.http_only,
        !r.same_site_lax,
        !r.secure,
        r.path@ == "/"@,
{
    AuthCookie {
        name: name.to_owned(),
        value: String::new(),
        max_age_secs: 0,
        http_only: true,
        same_site_lax: false,
        secure: false,
        path: String::from_str("/"),
    }
}

/// The two cookies of a new session: the access token and the refresh token, each
/// with its own max-age.
pub fn set_auth_cookies(outcome: &AuthOutcome, secure: bool) -> (r: Vec<AuthCookie>)
    ensures
        r@.len() == 2,
        r@[0].name@ == access_cookie_name(),
        r@[0].value@ == outcome.access_token@,
        r@[0].max_age_secs == outcome.access_max_age_secs,
        r@[1].name@ == refresh_cookie_name(),
        r@[1].value@ == outcome.refresh_token@,
        r@[1].max_age_secs == outcome.refresh_max_age_secs,
        forall|i: int|
            0 <= i < 2 ==> (#[trigger] r@[i]).http_only && r@[i].same_site_lax && r@[i].secure
                == secure && r@[i].path@ == "/"@,
{
    let mut v: Vec<AuthCookie> = Vec::new();
    v.push(
        auth_cookie(
            "access_token",
            outcome.access_token.clone(),
            outcome.access_max_age_secs,
            secure,
        ),
    );
    v.push(
        auth_cookie(
            "refresh_token",
            outcome.refresh_token.clone(),
            outcome.refresh_max_age_secs,
            secure,
        ),
    );
    v
}

/// The two cookies of a logout: both auth cookies, empty and expired.
pub fn clear_auth_cookies() -> (r: Vec<AuthCookie>)
    ensures
        r@.len() == 2,
        r@[0].name@ == access_cookie_name(),
        r@[1].name@ == refresh_cookie_name(),
        forall|i: int|
            0 <= i < 2 ==> (#[trigger] r@[i]).value@ == Seq::<char>::empty() && r@[i].max_age_secs
                == 0 && r@[i].http_only,
{
    let mut v: Vec<AuthCookie> = Vec::new();
    v.push(expired_cookie("access_token"));
    v.push(expired_cookie("refresh_token"));
    v
}

/// The prefix of a bearer `Authorization` header.
pub open spec fn bearer_prefix() -> Seq<char> {
    "Bearer "@
}

/// The access token of a request: the access-token cookie when present, else the
/// rest of an `Authorization` header that starts with `Bearer `, else none.
pub open spec fn access_token_of(cookie: Option<Seq<char>>, authorization: Option<Seq<char>>) -> Option<
    Seq<char>,
> {
    match cookie {
        Some(c) => Some(c),
        None => match authorization {
            Some(h) => if h.len() >= bearer_prefix().len() && h.subrange(0, bearer_prefix().len() as int)
                == bearer_prefix() {
                Some(h.subrange(bearer_prefix().len() as int, h.len() as int))
            } else {
                None
            },
            None => None,
        },
    }
}

/// Picks the access token of a request from its cookie or its `Authorization` header.
pub fn access_token_from(cookie: Option<&str>, authorization: Option<&str>) -> (r: Option<String>)
    ensures
        crate::repo::opt_string_view(r) == access_token_of(
            crate::repo::opt_str_view(cookie),
            crate::repo::opt_str_view(authorization),
        ),
{
    match cookie {
        Some(c) => Some(c.to_owned()),
        None => match authorization {
            Some(h) => {
                let prefix = "Bearer ";
                proof {
                    reveal_strlit("Bearer ");
                }
                let n = h.unicode_len();
                let p = prefix.unicode_len();
                if n < p {
                    return None;
                }
                let head = h.substring_char(0, p);
                let head_owned = head.to_owned();
                let prefix_owned = prefix.to_owned();
                if head_owned == prefix_owned {
                    Some(h.substring_char(p, n).to_owned())
                } else {
                    None
                }
            },
            None => None,
        },
    }
}

/// The cookie comes first and the `Bearer` header is the fallback: with an
/// access-token cookie the token is the cookie, whatever the header; with none, a
/// header `Bearer ` followed by `t` gives exactly `t`, however long `t` is; a
/// header that does not start with `Bearer `, or no header, gives none.
pub proof fn lemma_cookie_then_bearer(c: Seq<char>, h: Option<Seq<char>>, t: Seq<char>, other: Seq<char>)
    ensures
        access_token_of(Some(c), h) == Some(c),
        access_token_of(None, Some("Bearer "@ + t)) == Some(t),
        !("Bearer "@).is_prefix_of(other) ==> access_token_of(None, Some(other)) is None,
        access_token_of(None, None) is None,
{
    reveal_strlit("Bearer ");
    let p = "Bearer "@;
    let h2 = p + t;
    assert(h2.subrange(0, p.len() as int) =~= p);
    assert(h2.subrange(p.len() as int, h2.len() as int) =~= t);
    if other.len() >= p.len() && other.subrange(0, p.len() as int) == p {
        assert(p.is_prefix_of(other));
    }
}

} // verus!
