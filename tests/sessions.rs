use quests_tracker::argon2_hashing::hash;
use quests_tracker::authentication::{
    current_time, issue_passport, login_with_record, refresh_passport, AuthError,
    AuthenticationUseCase, LoginModel, Passport, RoleSecret, SecretConfig,
    ACCESS_TOKEN_LIFETIME, REFRESH_TOKEN_LIFETIME,
};
use quests_tracker::claims::Roles;
use quests_tracker::jwt_authentication::verify_token;
use quests_tracker::middlewares::{authorize, Unauthenticated};
use quests_tracker::repositories::{
    AdventurerRepository, CredentialRecord, GuildCommanderRepository, RegisterAccount,
    RepositoryError,
};
use std::sync::Arc;

struct Accounts(Vec<CredentialRecord>);

impl Accounts {
    fn find(&self, username: &str) -> Result<CredentialRecord, RepositoryError> {
        self.0
            .iter()
            .find(|r| r.username == username)
            .cloned()
            .ok_or(RepositoryError::NotFound)
    }
}

impl AdventurerRepository for Accounts {
    fn register(&self, _adventurer: RegisterAccount) -> Result<i32, RepositoryError> {
        Err(RepositoryError::Unavailable)
    }
    fn find_by_username(&self, username: &str) -> Result<CredentialRecord, RepositoryError> {
        self.find(username)
    }
}

impl GuildCommanderRepository for Accounts {
    fn register(&self, _guild_commander: RegisterAccount) -> Result<i32, RepositoryError> {
        Err(RepositoryError::Unavailable)
    }
    fn find_by_username(&self, username: &str) -> Result<CredentialRecord, RepositoryError> {
        self.find(username)
    }
}

fn secrets() -> SecretConfig {
    SecretConfig {
        adventurer: RoleSecret {
            secret: "adv-access".to_string(),
            refresh_secret: "adv-refresh".to_string(),
        },
        guild_commander: RoleSecret {
            secret: "gc-access".to_string(),
            refresh_secret: "gc-refresh".to_string(),
        },
    }
}

fn alice() -> CredentialRecord {
    CredentialRecord {
        id: 17,
        username: "alice".to_string(),
        password: hash("correct-horse".to_string()).unwrap(),
    }
}

fn use_case() -> AuthenticationUseCase<Accounts, Accounts> {
    AuthenticationUseCase::new(
        Arc::new(Accounts(vec![alice()])),
        Arc::new(Accounts(vec![])),
        secrets(),
    )
}

fn cookie(p: &Passport) -> String {
    format!("theme=dark; act={}; rft={}", p.access_token, p.refresh_token)
}

#[test]
fn login_then_authorize_on_own_role_only() {
    let uc = use_case();
    let p = uc
        .adventurer_login(LoginModel {
            username: "alice".to_string(),
            password: "correct-horse".to_string(),
        })
        .unwrap();
    let now = current_time().unwrap();
    let header = cookie(&p);
    let s = secrets();
    assert_eq!(authorize(&s.adventurer.secret, Roles::Adventurer, Some(&header), now), Ok(17));
    assert_eq!(
        authorize(&s.guild_commander.secret, Roles::GuildCommander, Some(&header), now),
        Err(Unauthenticated)
    );
}

#[test]
fn wrong_password_and_unknown_user_look_the_same() {
    let uc = use_case();
    let wrong = uc.adventurer_login(LoginModel {
        username: "alice".to_string(),
        password: "battery-staple".to_string(),
    });
    let unknown = uc.adventurer_login(LoginModel {
        username: "mallory".to_string(),
        password: "correct-horse".to_string(),
    });
    assert_eq!(wrong.unwrap_err(), AuthError::InvalidCredentials);
    assert_eq!(unknown.unwrap_err(), AuthError::InvalidCredentials);
}

#[test]
fn commander_login_does_not_see_adventurers() {
    let uc = use_case();
    let r = uc.guild_commander_login(LoginModel {
        username: "alice".to_string(),
        password: "correct-horse".to_string(),
    });
    assert_eq!(r.unwrap_err(), AuthError::InvalidCredentials);
}

#[test]
fn login_with_record_outcomes() {
    let s = secrets().adventurer;
    let now = 1_700_000_000;
    let ok = login_with_record(&s, Roles::Adventurer, Ok(alice()), "correct-horse".to_string(), now)
        .unwrap();
    let access = verify_token(&s.secret, &ok.access_token, now).unwrap();
    assert_eq!(access.sub, "17");
    assert_eq!(access.iat, now);
    assert_eq!(access.exp, now + 86_400);
    let refresh = verify_token(&s.refresh_secret, &ok.refresh_token, now).unwrap();
    assert_eq!(refresh.exp, now + 604_800);
    assert_eq!(refresh.role, Roles::Adventurer);
    assert_eq!(
        login_with_record(&s, Roles::Adventurer, Err(RepositoryError::NotFound), "x".to_string(), now)
            .unwrap_err(),
        AuthError::InvalidCredentials
    );
    assert_eq!(
        login_with_record(&s, Roles::Adventurer, Err(RepositoryError::Unavailable), "x".to_string(), now)
            .unwrap_err(),
        AuthError::Unavailable
    );
    let corrupt = CredentialRecord {
        id: 3,
        username: "bob".to_string(),
        password: "not a digest".to_string(),
    };
    assert_eq!(
        login_with_record(&s, Roles::Adventurer, Ok(corrupt), "x".to_string(), now).unwrap_err(),
        AuthError::HashFormat
    );
}

#[test]
fn lifetimes_are_one_and_seven_days() {
    assert_eq!(ACCESS_TOKEN_LIFETIME, 86_400);
    assert_eq!(REFRESH_TOKEN_LIFETIME, 7 * 86_400);
}

#[test]
fn refresh_keeps_the_first_expiry() {
    let s = secrets().guild_commander;
    let t0 = 1_700_000_000;
    let first = issue_passport(&s, Roles::GuildCommander, &"9".to_string(), t0);
    let t1 = t0 + 3 * 86_400;
    let second = refresh_passport(&s, Roles::GuildCommander, &first.refresh_token, t1).unwrap();
    let access = verify_token(&s.secret, &second.access_token, t1).unwrap();
    assert_eq!(access.exp, t1 + 86_400);
    assert_eq!(access.iat, t1);
    assert_eq!(access.sub, "9");
    let refresh = verify_token(&s.refresh_secret, &second.refresh_token, t1).unwrap();
    assert_eq!(refresh.exp, t0 + 604_800);
    assert_eq!(refresh.iat, t1);
    assert_eq!(refresh.sub, "9");
}

#[test]
fn refresh_after_expiry_fails() {
    let s = secrets().adventurer;
    let t0 = 1_000_000;
    let p = issue_passport(&s, Roles::Adventurer, &"4".to_string(), t0);
    let late = t0 + 604_800 + 1;
    assert_eq!(
        refresh_passport(&s, Roles::Adventurer, &p.refresh_token, late).unwrap_err(),
        AuthError::TokenExpired
    );
    assert!(refresh_passport(&s, Roles::Adventurer, &p.refresh_token, late - 1).is_ok());
}

#[test]
fn refresh_refuses_access_tokens_and_other_roles() {
    let config = secrets();
    let t0 = 5_000;
    let p = issue_passport(&config.adventurer, Roles::Adventurer, &"4".to_string(), t0);
    assert_eq!(
        refresh_passport(&config.adventurer, Roles::Adventurer, &p.access_token, t0).unwrap_err(),
        AuthError::TokenInvalid
    );
    assert_eq!(
        refresh_passport(&config.guild_commander, Roles::GuildCommander, &p.refresh_token, t0)
            .unwrap_err(),
        AuthError::TokenInvalid
    );
    // Same secrets for both roles: the embedded role still tells them apart.
    assert_eq!(
        refresh_passport(&config.adventurer, Roles::GuildCommander, &p.refresh_token, t0)
            .unwrap_err(),
        AuthError::TokenInvalid
    );
}

#[test]
fn use_case_refresh_round_trip() {
    let uc = use_case();
    let p = uc
        .adventurer_login(LoginModel {
            username: "alice".to_string(),
            password: "correct-horse".to_string(),
        })
        .unwrap();
    let q = uc.adventurer_refresh_token(p.refresh_token.clone()).unwrap();
    let now = current_time().unwrap();
    let s = secrets();
    assert_eq!(
        authorize(&s.adventurer.secret, Roles::Adventurer, Some(&cookie(&q)), now),
        Ok(17)
    );
    assert_eq!(
        uc.guild_commander_refresh_token(p.refresh_token).unwrap_err(),
        AuthError::TokenInvalid
    );
}

#[test]
fn authorize_rejections() {
    let s = secrets().adventurer;
    let now = 1_000;
    let p = issue_passport(&s, Roles::Adventurer, &"12".to_string(), now);
    assert_eq!(authorize(&s.secret, Roles::Adventurer, None, now), Err(Unauthenticated));
    assert_eq!(
        authorize(&s.secret, Roles::Adventurer, Some("rft=x; other=y"), now),
        Err(Unauthenticated)
    );
    let header = format!("act={}", p.access_token);
    assert_eq!(authorize(&s.secret, Roles::Adventurer, Some(&header), now), Ok(12));
    assert_eq!(
        authorize(&s.secret, Roles::Adventurer, Some(&header), now + 86_401),
        Err(Unauthenticated)
    );
    assert_eq!(
        authorize(&s.refresh_secret, Roles::Adventurer, Some(&header), now),
        Err(Unauthenticated)
    );
    // A subject that is no number does not pass.
    let odd = issue_passport(&s, Roles::Adventurer, &"twelve".to_string(), now);
    let header = format!("act={}", odd.access_token);
    assert_eq!(authorize(&s.secret, Roles::Adventurer, Some(&header), now), Err(Unauthenticated));
}

#[test]
fn clock_reads_after_2020() {
    assert!(current_time().unwrap() > 1_577_836_800);
}
