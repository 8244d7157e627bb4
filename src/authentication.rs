//! Sessions: a login issues a short-lived access token and a long-lived
//! refresh token; a refresh reissues both, keeping the refresh token's
//! expiry unchanged so that no session outlives its first seven days.
use crate::argon2_hashing::{password_check, verify, PasswordError};
use crate::claims::{claims_wf, Claims, ClaimsView, Roles};
use crate::jwt_authentication::{
    check_token, generate_token, lemma_expired_token, lemma_token_round_trip, signed_token,
    verify_token, TokenError,
};
use crate::repositories::{
    AdventurerRepository, CredentialRecord, GuildCommanderRepository, RepositoryError,
};
use crate::subject::{decimal_text, format_subject};
use std::sync::Arc;
use vstd::prelude::*;
use vstd::utf8::{decode_utf8, encode_utf8, encode_utf8_decode_utf8};

verus! {

/// An access token lives one day.
pub const ACCESS_TOKEN_LIFETIME: u64 = 86400;

/// A refresh token lives seven days.
pub const REFRESH_TOKEN_LIFETIME: u64 = 604800;

/// The latest issue time whose expiries still fit in a `u64`.
pub const LATEST_ISSUE_TIME: u64 = 18446744073709551615 - 604800;

/// The two secrets of one role: one signs access tokens, the other refresh
/// tokens.
#[derive(Clone, Debug)]
pub struct RoleSecret {
    pub secret: String,
    pub refresh_secret: String,
}

/// The four independent secrets, loaded once at start.
#[derive(Clone, Debug)]
pub struct SecretConfig {
    pub adventurer: RoleSecret,
    pub guild_commander: RoleSecret,
}

impl SecretConfig {
    pub open spec fn spec_for(&self, role: Roles) -> RoleSecret {
        match role {
            Roles::Adventurer => self.adventurer,
            Roles::GuildCommander => self.guild_commander,
        }
    }

    /// The secrets of `role`.
    pub fn for_role(&self, role: Roles) -> (r: &RoleSecret)
        ensures
            *r == self.spec_for(role),
    {
        match role {
            Roles::Adventurer => &self.adventurer,
            Roles::GuildCommander => &self.guild_commander,
        }
    }
}

/// A token pair.
#[derive(Clone, Debug)]
pub struct Passport {
    pub access_token: String,
    pub refresh_token: String,
}

/// The credentials of a login attempt.
#[derive(Clone, Debug)]
pub struct LoginModel {
    pub username: String,
    pub password: String,
}

/// Why a login or a refresh failed.
#[derive(Clone, Copy, Debug, PartialEq, Eq, Structural)]
pub enum AuthError {
    /// Unknown username or wrong password: the caller cannot tell which.
    InvalidCredentials,
    /// The stored digest is corrupt.
    HashFormat,
    /// The refresh token is malformed, altered, or of another secret or role.
    TokenInvalid,
    /// The refresh token has expired.
    TokenExpired,
    /// Account storage failed.
    Unavailable,
    /// The clock reads before the Unix epoch, or too late for an expiry
    /// to fit.
    Clock,
}

/// The subject that names credential `id`.
pub open spec fn subject_of(id: i32) -> Seq<char> {
    decode_utf8(decimal_text(id as int))
}

/// `token` is `key`'s signature on `c`.
#[verifier::opaque]
pub open spec fn is_token_for(token: Seq<char>, key: Seq<char>, c: ClaimsView) -> bool {
    encode_utf8(token) == signed_token(encode_utf8(key), c)
}

pub open spec fn access_claims(sub: Seq<char>, role: Roles, now: u64) -> ClaimsView {
    ClaimsView { sub, role, iat: now, exp: (now + ACCESS_TOKEN_LIFETIME) as u64 }
}

pub open spec fn refresh_claims(sub: Seq<char>, role: Roles, now: u64) -> ClaimsView {
    ClaimsView { sub, role, iat: now, exp: (now + REFRESH_TOKEN_LIFETIME) as u64 }
}

/// `p` carries access claims `a` under the access secret and refresh claims
/// `r` under the refresh secret.
pub open spec fn is_passport_for(p: Passport, s: RoleSecret, a: ClaimsView, r: ClaimsView) -> bool {
    is_token_for(p.access_token@, s.secret@, a) && is_token_for(p.refresh_token@, s.refresh_secret@, r)
}

/// The passport that a login of `sub` at `now` issues.
pub open spec fn is_login_passport(p: Passport, s: RoleSecret, role: Roles, sub: Seq<char>, now: u64) -> bool {
    is_passport_for(p, s, access_claims(sub, role, now), refresh_claims(sub, role, now))
}

/// What a login yields, given what storage answered for the username and
/// the time: the two failures of a known username with a wrong password and
/// of an unknown username are one and the same.
pub open spec fn login_outcome(
    lookup: Result<CredentialRecord, RepositoryError>,
    password: Seq<char>,
) -> Result<i32, AuthError> {
    match lookup {
        Err(RepositoryError::NotFound) => Err(AuthError::InvalidCredentials),
        Err(RepositoryError::Unavailable) => Err(AuthError::Unavailable),
        Ok(rec) => match password_check(password, rec.password@) {
            Err(_) => Err(AuthError::HashFormat),
            Ok(false) => Err(AuthError::InvalidCredentials),
            Ok(true) => Ok(rec.id),
        },
    }
}

/// What a refresh yields: the access and refresh claims of the new pair.
pub open spec fn refresh_outcome(s: RoleSecret, role: Roles, token: Seq<char>, now: u64) -> Result<
    (ClaimsView, ClaimsView),
    AuthError,
> {
    match check_token(encode_utf8(s.refresh_secret@), encode_utf8(token), now) {
        Err(TokenError::Invalid) => Err(AuthError::TokenInvalid),
        Err(TokenError::Expired) => Err(AuthError::TokenExpired),
        Ok(c) => if c.role != role {
            Err(AuthError::TokenInvalid)
        } else {
            Ok(
                (
                    access_claims(c.sub, role, now),
                    ClaimsView { sub: c.sub, role, iat: now, exp: c.exp },
                ),
            )
        },
    }
}

fn sign_claims(secret: &String, sub: &String, role: Roles, iat: u64, exp: u64) -> (r: String)
    ensures
        is_token_for(r@, secret@, ClaimsView { sub: sub@, role, iat, exp }),
{
    let claims = Claims { sub: sub.clone(), role, exp, iat };
    let r = generate_token(secret.as_str(), &claims);
    proof {
        reveal(is_token_for);
    }
    r
}

/// Issues the token pair of subject `sub` for `role` at time `now`.
pub fn issue_passport(secrets: &RoleSecret, role: Roles, sub: &String, now: u64) -> (p: Passport)
    requires
        now <= LATEST_ISSUE_TIME,
    ensures
        is_login_passport(p, *secrets, role, sub@, now),
{
    let access_token = sign_claims(&secrets.secret, sub, role, now, now + ACCESS_TOKEN_LIFETIME);
    let refresh_token = sign_claims(
        &secrets.refresh_secret,
        sub,
        role,
        now,
        now + REFRESH_TOKEN_LIFETIME,
    );
    Passport { access_token, refresh_token }
}

/// Reissues the pair for a refresh token of `role`: a fresh day for the
/// access token; the refresh token keeps its subject and its expiry.
pub fn refresh_passport(secrets: &RoleSecret, role: Roles, refresh_token: &str, now: u64) -> (r:
    Result<Passport, AuthError>)
    requires
        now <= LATEST_ISSUE_TIME,
    ensures
        match refresh_outcome(*secrets, role, refresh_token@, now) {
            Ok((a, n)) => r matches Ok(p) && is_passport_for(p, *secrets, a, n),
            Err(e) => r == Err::<Passport, AuthError>(e),
        },
{
    match verify_token(secrets.refresh_secret.as_str(), refresh_token, now) {
        Err(TokenError::Invalid) => Err(AuthError::TokenInvalid),
        Err(TokenError::Expired) => Err(AuthError::TokenExpired),
        Ok(claims) => {
            if claims.role != role {
                return Err(AuthError::TokenInvalid);
            }
            let access_token = sign_claims(
                &secrets.secret,
                &claims.sub,
                role,
                now,
                now + ACCESS_TOKEN_LIFETIME,
            );
            let refresh_token = sign_claims(
                &secrets.refresh_secret,
                &claims.sub,
                role,
                now,
                claims.exp,
            );
            Ok(Passport { access_token, refresh_token })
        },
    }
}

/// Checks `password` against what storage answered for the username and,
/// on a match, issues the pair of that credential for `role` at `now`.
pub fn login_with_record(
    secrets: &RoleSecret,
    role: Roles,
    lookup: Result<CredentialRecord, RepositoryError>,
    password: String,
    now: u64,
) -> (r: Result<Passport, AuthError>)
    requires
        now <= LATEST_ISSUE_TIME,
    ensures
        match login_outcome(lookup, password@) {
            Ok(id) => r matches Ok(p) && is_login_passport(p, *secrets, role, subject_of(id), now),
            Err(e) => r == Err::<Passport, AuthError>(e),
        },
{
    let record = match lookup {
        Ok(record) => record,
        Err(RepositoryError::NotFound) => return Err(AuthError::InvalidCredentials),
        Err(RepositoryError::Unavailable) => return Err(AuthError::Unavailable),
    };
    match verify(password, record.password) {
        Err(_) => Err(AuthError::HashFormat),
        Ok(false) => Err(AuthError::InvalidCredentials),
        Ok(true) => {
            let sub = format_subject(record.id);
            proof {
                encode_utf8_decode_utf8(sub@);
            }
            Ok(issue_passport(secrets, role, &sub, now))
        },
    }
}

/// A known username with a wrong password fails exactly as an unknown
/// username does, so the answer tells nothing of which accounts exist.
pub proof fn lemma_no_account_enumeration(record: CredentialRecord, password: Seq<char>)
    requires
        password_check(password, record.password@) == Ok::<bool, PasswordError>(false),
    ensures
        login_outcome(Ok(record), password) == login_outcome(
            Err(RepositoryError::NotFound),
            password,
        ),
        login_outcome(Ok(record), password) == Err::<i32, AuthError>(AuthError::InvalidCredentials),
{
}

/// Refreshing with an expired refresh token fails with the expiry error: no
/// new pair is issued.
pub proof fn lemma_refresh_expired(s: RoleSecret, role: Roles, token: Seq<char>, c: ClaimsView, now: u64)
    requires
        is_token_for(token, s.refresh_secret@, c),
        claims_wf(c),
        now > c.exp,
    ensures
        refresh_outcome(s, role, token, now) == Err::<(ClaimsView, ClaimsView), AuthError>(
            AuthError::TokenExpired,
        ),
{
    reveal(is_token_for);
    lemma_expired_token(encode_utf8(s.refresh_secret@), c, now);
}

/// Refreshing with a valid refresh token of the role yields an access token
/// that expires one day from now and a refresh token that keeps the
/// expiry it had, both for the same subject.
pub proof fn lemma_refresh_valid(s: RoleSecret, role: Roles, token: Seq<char>, c: ClaimsView, now: u64)
    requires
        is_token_for(token, s.refresh_secret@, c),
        claims_wf(c),
        c.role == role,
        now <= c.exp,
        now <= LATEST_ISSUE_TIME,
    ensures
        refresh_outcome(s, role, token, now) matches Ok((a, n)) && a.exp == now
            + ACCESS_TOKEN_LIFETIME && n.exp == c.exp && a.sub == c.sub && n.sub == c.sub
            && a.role == role && n.role == role,
{
    reveal(is_token_for);
    lemma_token_round_trip(encode_utf8(s.refresh_secret@), c, now);
}

/// Relies on std's `SystemTime::now().duration_since(UNIX_EPOCH)`: the
/// whole seconds since the Unix epoch, or `None` where the clock reads
/// before it. Nothing is known of the value.
#[verifier::external_body]
fn unix_now() -> (r: Option<u64>) {
    std::time::SystemTime::now().duration_since(std::time::UNIX_EPOCH).ok().map(|d| d.as_secs())
}

/// The current time as Unix seconds, refused where the clock reads before
/// the epoch or past the latest issue time.
pub fn current_time() -> (r: Result<u64, AuthError>)
    ensures
        r matches Ok(t) ==> t <= LATEST_ISSUE_TIME,
        r matches Err(e) ==> e == AuthError::Clock,
{
    match unix_now() {
        Some(t) => if t <= LATEST_ISSUE_TIME {
            Ok(t)
        } else {
            Err(AuthError::Clock)
        },
        None => Err(AuthError::Clock),
    }
}

pub struct AuthenticationUseCase<T1, T2> where
    T1: AdventurerRepository,
    T2: GuildCommanderRepository,
 {
    adventurer_repository: Arc<T1>,
    guild_commander_repository: Arc<T2>,
    secrets: SecretConfig,
}

impl<T1, T2> AuthenticationUseCase<T1, T2> where
    T1: AdventurerRepository,
    T2: GuildCommanderRepository,
 {
    pub closed spec fn spec_secrets(&self) -> SecretConfig {
        self.secrets
    }

    pub fn new(
        adventurer_repository: Arc<T1>,
        guild_commander_repository: Arc<T2>,
        secrets: SecretConfig,
    ) -> (r: Self)
        ensures
            r.spec_secrets() == secrets,
    {
        Self { adventurer_repository, guild_commander_repository, secrets }
    }

    /// Logs an adventurer in: any pair it returns is signed under the
    /// adventurer secrets for the adventurer role, for the subject of some
    /// credential, and issued now.
    pub fn adventurer_login(&self, login_model: LoginModel) -> (r: Result<Passport, AuthError>)
        ensures
            r matches Ok(p) ==> exists|id: i32, digest: Seq<char>, now: u64|
                #[trigger] password_check(login_model.password@, digest) == Ok::<bool, PasswordError>(
                    true,
                ) && #[trigger] is_login_passport(
                    p,
                    self.spec_secrets().adventurer,
                    Roles::Adventurer,
                    subject_of(id),
                    now,
                ),
    {
        let lookup = self.adventurer_repository.find_by_username(login_model.username.as_str());
        let now = match current_time() {
            Ok(t) => t,
            Err(e) => return Err(e),
        };
        let ghost answer = lookup;
        let ghost password = login_model.password@;
        let r = login_with_record(
            &self.secrets.adventurer,
            Roles::Adventurer,
            lookup,
            login_model.password,
            now,
        );
        proof {
            if let Ok(id) = login_outcome(answer, password) {
                let digest = answer->Ok_0.password@;
                assert(is_login_passport(r->Ok_0, self.spec_secrets().adventurer, Roles::Adventurer, subject_of(id), now));
            }
        }
        r
    }

    /// Reissues an adventurer's pair from its refresh token.
    pub fn adventurer_refresh_token(&self, refresh_token: String) -> (r: Result<Passport, AuthError>)
        ensures
            r matches Ok(p) ==> exists|now: u64|
                #[trigger] refresh_outcome(
                    self.spec_secrets().adventurer,
                    Roles::Adventurer,
                    refresh_token@,
                    now,
                ) matches Ok((a, n)) && is_passport_for(p, self.spec_secrets().adventurer, a, n),
            r matches Err(e) ==> e == AuthError::Clock || exists|now: u64|
                #[trigger] refresh_outcome(
                    self.spec_secrets().adventurer,
                    Roles::Adventurer,
                    refresh_token@,
                    now,
                ) == Err::<(ClaimsView, ClaimsView), AuthError>(e),
    {
        let now = match current_time() {
            Ok(t) => t,
            Err(e) => return Err(e),
        };
        let r = refresh_passport(
            &self.secrets.adventurer,
            Roles::Adventurer,
            refresh_token.as_str(),
            now,
        );
        proof {
            match refresh_outcome(self.spec_secrets().adventurer, Roles::Adventurer, refresh_token@, now) {
                Ok((a, n)) => {
                    assert(is_passport_for(r->Ok_0, self.spec_secrets().adventurer, a, n));
                },
                Err(e) => {
                    assert(refresh_outcome(
                        self.spec_secrets().adventurer,
                        Roles::Adventurer,
                        refresh_token@,
                        now,
                    ) == Err::<(ClaimsView, ClaimsView), AuthError>(e));
                },
            }
        }
        r
    }

    /// Logs a guild commander in; as `adventurer_login`, for the other role.
    pub fn guild_commander_login(&self, login_model: LoginModel) -> (r: Result<Passport, AuthError>)
        ensures
            r matches Ok(p) ==> exists|id: i32, digest: Seq<char>, now: u64|
                #[trigger] password_check(login_model.password@, digest) == Ok::<bool, PasswordError>(
                    true,
                ) && #[trigger] is_login_passport(
                    p,
                    self.spec_secrets().guild_commander,
                    Roles::GuildCommander,
                    subject_of(id),
                    now,
                ),
    {
        let lookup = self.guild_commander_repository.find_by_username(
            login_model.username.as_str(),
        );
        let now = match current_time() {
            Ok(t) => t,
            Err(e) => return Err(e),
        };
        let ghost answer = lookup;
        let ghost password = login_model.password@;
        let r = login_with_record(
            &self.secrets.guild_commander,
            Roles::GuildCommander,
            lookup,
            login_model.password,
            now,
        );
        proof {
            if let Ok(id) = login_outcome(answer, password) {
                let digest = answer->Ok_0.password@;
                assert(is_login_passport(r->Ok_0, self.spec_secrets().guild_commander, Roles::GuildCommander, subject_of(id), now));
            }
        }
        r
    }

    /// Reissues a guild commander's pair from its refresh token.
    pub fn guild_commander_refresh_token(&self, refresh_token: String) -> (r: Result<
        Passport,
        AuthError,
    >)
        ensures
            r matches Ok(p) ==> exists|now: u64|
                #[trigger] refresh_outcome(
                    self.spec_secrets().guild_commander,
                    Roles::GuildCommander,
                    refresh_token@,
                    now,
                ) matches Ok((a, n)) && is_passport_for(p, self.spec_secrets().guild_commander, a, n),
            r matches Err(e) ==> e == AuthError::Clock || exists|now: u64|
                #[trigger] refresh_outcome(
                    self.spec_secrets().guild_commander,
                    Roles::GuildCommander,
                    refresh_token@,
                    now,
                ) == Err::<(ClaimsView, ClaimsView), AuthError>(e),
    {
        let now = match current_time() {
            Ok(t) => t,
            Err(e) => return Err(e),
        };
        let r = refresh_passport(
            &self.secrets.guild_commander,
            Roles::GuildCommander,
            refresh_token.as_str(),
            now,
        );
        proof {
            match refresh_outcome(self.spec_secrets().guild_commander, Roles::GuildCommander, refresh_token@, now) {
                Ok((a, n)) => {
                    assert(is_passport_for(r->Ok_0, self.spec_secrets().guild_commander, a, n));
                },
                Err(e) => {
                    assert(refresh_outcome(
                        self.spec_secrets().guild_commander,
                        Roles::GuildCommander,
                        refresh_token@,
                        now,
                    ) == Err::<(ClaimsView, ClaimsView), AuthError>(e));
                },
            }
        }
        r
    }
}

} // verus!
