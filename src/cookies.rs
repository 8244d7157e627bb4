//! How a token pair travels: the access token in cookie `act`, the refresh
//! token in cookie `rft`, both `HttpOnly`, `SameSite=Lax`, `Path=/`, kept
//! fourteen days by the browser, and `Secure` in production only.
use crate::authentication::Passport;
use crate::stage::Stage;
use vstd::prelude::*;

verus! {

/// Cookies outlive the tokens they carry: fourteen days.
pub const COOKIE_MAX_AGE_DAYS: i64 = 14;

/// The attributes of one token cookie.
#[derive(Clone, Debug)]
pub struct TokenCookie {
    pub name: &'static str,
    pub value: String,
    pub path: &'static str,
    pub same_site_lax: bool,
    pub http_only: bool,
    pub max_age_days: i64,
    pub secure: bool,
}

/// A cookie named `name` that carries `value` under the common attributes.
pub open spec fn is_token_cookie(c: TokenCookie, name: Seq<char>, value: Seq<char>, stage: Stage) -> bool {
    &&& c.name@ == name
    &&& c.value@ == value
    &&& c.path@ == "/"@
    &&& c.same_site_lax
    &&& c.http_only
    &&& c.max_age_days == COOKIE_MAX_AGE_DAYS
    &&& c.secure == (stage == Stage::Production)
}

/// The two cookies that carry a passport at `stage`.
pub fn passport_cookies(passport: Passport, stage: Stage) -> (r: (TokenCookie, TokenCookie))
    ensures
        is_token_cookie(r.0, "act"@, passport.access_token@, stage),
        is_token_cookie(r.1, "rft"@, passport.refresh_token@, stage),
{
    let secure = stage.secure_cookies();
    let access = TokenCookie {
        name: "act",
        value: passport.access_token,
        path: "/",
        same_site_lax: true,
        http_only: true,
        max_age_days: COOKIE_MAX_AGE_DAYS,
        secure,
    };
    let refresh = TokenCookie {
        name: "rft",
        value: passport.refresh_token,
        path: "/",
        same_site_lax: true,
        http_only: true,
        max_age_days: COOKIE_MAX_AGE_DAYS,
        secure,
    };
    (access, refresh)
}

} // verus!
