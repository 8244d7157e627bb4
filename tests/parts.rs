use quests_tracker::argon2_hashing::{hash, verify, PasswordError};
use quests_tracker::authentication::Passport;
use quests_tracker::cookies::passport_cookies;
use quests_tracker::middlewares::get_cookie_value;
use quests_tracker::quest_statuses::{crew_changeable, QuestStatuses};
use quests_tracker::repositories::RegisterAccount;
use quests_tracker::stage::{InvalidStage, Stage};
use quests_tracker::subject::{format_subject, parse_subject};
use quests_tracker::repositories::RepositoryError;
use quests_tracker::usecases::{
    check_join, check_leave, check_unstarted, registration_record, to_model, BoardCheckingFilter,
    CrewError, QuestEntity, QuestOpsError, QuestViewingRepository, QuestViewingUseCase,
    MAX_ADVENTURERS_PER_QUEST,
};
use std::sync::Arc;

#[test]
fn digest_verifies_its_password_only() {
    let h = hash("correct-horse".to_string()).unwrap();
    assert!(h.starts_with("$argon2id$"));
    assert_ne!(h, "correct-horse");
    assert_eq!(verify("correct-horse".to_string(), h.clone()), Ok(true));
    assert_eq!(verify("correct-horsf".to_string(), h.clone()), Ok(false));
    assert_eq!(verify(String::new(), h), Ok(false));
}

#[test]
fn two_digests_of_one_password_differ() {
    let a = hash("p".to_string()).unwrap();
    let b = hash("p".to_string()).unwrap();
    assert_ne!(a, b);
    assert_eq!(verify("p".to_string(), a), Ok(true));
    assert_eq!(verify("p".to_string(), b), Ok(true));
}

#[test]
fn empty_password_hashes_and_verifies() {
    let h = hash(String::new()).unwrap();
    assert_eq!(verify(String::new(), h), Ok(true));
}

#[test]
fn malformed_digest_is_a_format_error() {
    assert_eq!(
        verify("x".to_string(), "plain text".to_string()),
        Err(PasswordError::HashFormat)
    );
    assert_eq!(verify("x".to_string(), String::new()), Err(PasswordError::HashFormat));
}

#[test]
fn registration_stores_a_digest() {
    let rec = registration_record(RegisterAccount {
        username: "alice".to_string(),
        password: "correct-horse".to_string(),
    })
    .unwrap();
    assert_eq!(rec.username, "alice");
    assert_ne!(rec.password, "correct-horse");
    assert_eq!(verify("correct-horse".to_string(), rec.password), Ok(true));
}

#[test]
fn subjects_in_decimal() {
    assert_eq!(format_subject(0), "0");
    assert_eq!(format_subject(17), "17");
    assert_eq!(format_subject(-305), "-305");
    assert_eq!(format_subject(i32::MAX), "2147483647");
    assert_eq!(format_subject(i32::MIN), "-2147483648");
}

#[test]
fn subjects_parse_as_i32_does() {
    for s in ["0", "17", "-305", "+8", "007", "-0", "2147483647", "-2147483648"] {
        assert_eq!(parse_subject(s), s.parse::<i32>().ok(), "{}", s);
    }
    for s in ["", "+", "-", "2147483648", "-2147483649", " 1", "1 ", "1a", "99999999999999999999", "\u{661}"] {
        assert_eq!(parse_subject(s), None, "{}", s);
        assert!(s.parse::<i32>().is_err());
    }
}

#[test]
fn cookie_values() {
    let h = "theme=dark; act=abc.def; rft=xyz";
    assert_eq!(get_cookie_value(h, "act"), Some("abc.def".to_string()));
    assert_eq!(get_cookie_value(h, "rft"), Some("xyz".to_string()));
    assert_eq!(get_cookie_value(h, "theme"), Some("dark".to_string()));
    assert_eq!(get_cookie_value(h, "none"), None);
    assert_eq!(get_cookie_value("", "act"), None);
}

#[test]
fn cookie_names_and_values_are_trimmed() {
    assert_eq!(get_cookie_value(" act = v1 ; b=2", "act"), Some("v1".to_string()));
    assert_eq!(get_cookie_value("a=1;  act =\u{a0}tok\t", "act"), Some("tok".to_string()));
}

#[test]
fn cookie_split_is_on_semicolon_space() {
    // Without the space after `;`, the rest belongs to the first value.
    assert_eq!(get_cookie_value("a=1;act=2", "act"), None);
    assert_eq!(get_cookie_value("a=1;act=2", "a"), Some("1;act=2".to_string()));
    // Only the first `=` splits name from value.
    assert_eq!(get_cookie_value("act=x=y", "act"), Some("x=y".to_string()));
    // A cookie without `=` is skipped; the first match wins.
    assert_eq!(get_cookie_value("act; act=2; act=3", "act"), Some("2".to_string()));
    // Empty value.
    assert_eq!(get_cookie_value("act=", "act"), Some(String::new()));
    // Trailing separator.
    assert_eq!(get_cookie_value("a=1; ", "act"), None);
}

#[test]
fn stages() {
    assert_eq!(Stage::try_from("Local").unwrap(), Stage::Local);
    assert_eq!(Stage::try_from("Development").unwrap(), Stage::Development);
    assert_eq!(Stage::try_from("Production").unwrap(), Stage::Production);
    let refused: InvalidStage = Stage::try_from("production").unwrap_err();
    assert_eq!(refused.stage, "production");
    assert_eq!(refused.message(), "Invalid stage: production");
    assert_eq!(Stage::try_from("").unwrap_err().stage, "");
    assert_eq!(Stage::try_from(" Local").unwrap_err().message(), "Invalid stage:  Local");
    assert_eq!(Stage::default(), Stage::Development);
    assert_eq!(Stage::Production.as_text(), "Production");
    assert!(Stage::Production.secure_cookies());
    assert!(!Stage::Local.secure_cookies());
}

#[test]
fn quest_status_texts() {
    assert_eq!(QuestStatuses::Open.as_text(), "Open");
    assert_eq!(QuestStatuses::InJourney.as_text(), "In Journey");
    assert_eq!(QuestStatuses::Completed.as_text(), "Completed");
    assert_eq!(QuestStatuses::Failed.as_text(), "Failed");
    assert_eq!(QuestStatuses::default(), QuestStatuses::Open);
    assert!(crew_changeable("Open"));
    assert!(crew_changeable("Failed"));
    assert!(!crew_changeable("In Journey"));
    assert!(!crew_changeable("open"));
}

#[test]
fn crew_changes() {
    assert_eq!(MAX_ADVENTURERS_PER_QUEST, 4);
    assert_eq!(check_join("Open", 3), Ok(()));
    assert_eq!(check_join("Failed", 0), Ok(()));
    assert_eq!(check_join("Open", 4), Err(CrewError::QuestFull));
    assert_eq!(check_join("Completed", 4), Err(CrewError::QuestFull));
    assert_eq!(check_join("In Journey", 1), Err(CrewError::NotJoinable));
    assert_eq!(check_leave("Open"), Ok(()));
    assert_eq!(check_leave("Completed"), Err(CrewError::NotLeaveable));
}

#[test]
fn passport_cookie_attributes() {
    let p = Passport { access_token: "A".to_string(), refresh_token: "R".to_string() };
    let (act, rft) = passport_cookies(p.clone(), Stage::Production);
    assert_eq!((act.name, act.value.as_str()), ("act", "A"));
    assert_eq!((rft.name, rft.value.as_str()), ("rft", "R"));
    for c in [&act, &rft] {
        assert_eq!(c.path, "/");
        assert!(c.same_site_lax && c.http_only && c.secure);
        assert_eq!(c.max_age_days, 14);
    }
    let (act, rft) = passport_cookies(p, Stage::Local);
    assert!(!act.secure && !rft.secure);
}

#[test]
fn quest_status_from_text() {
    assert_eq!(QuestStatuses::from_text("In Journey"), Some(QuestStatuses::InJourney));
    assert_eq!(QuestStatuses::from_text("Failed"), Some(QuestStatuses::Failed));
    assert_eq!(QuestStatuses::from_text("InJourney"), None);
    assert_eq!(QuestStatuses::from_text(""), None);
}

#[test]
fn quest_changes_only_before_anyone_joins() {
    assert_eq!(check_unstarted(0), Ok(()));
    assert_eq!(check_unstarted(1), Err(QuestOpsError::AlreadyStarted));
    assert_eq!(check_unstarted(4), Err(QuestOpsError::AlreadyStarted));
}

struct Board(Vec<QuestEntity>);

impl QuestViewingRepository for Board {
    fn view_details(&self, quest_id: i32) -> Result<QuestEntity, RepositoryError> {
        self.0.iter().find(|q| q.id == quest_id).cloned().ok_or(RepositoryError::NotFound)
    }
    fn board_checking(&self, _filter: &BoardCheckingFilter) -> Result<Vec<QuestEntity>, RepositoryError> {
        Ok(self.0.clone())
    }
    fn adventurer_counting_by_quest_id(&self, quest_id: i32) -> Result<i64, RepositoryError> {
        Ok(quest_id as i64 % 5)
    }
}

fn quest(id: i32, status: &str) -> QuestEntity {
    QuestEntity { id, name: format!("quest {}", id), status: status.to_string() }
}

#[test]
fn board_lists_quests_with_crew_sizes() {
    let uc = QuestViewingUseCase::new(Arc::new(Board(vec![quest(3, "Open"), quest(7, "Failed")])));
    let filter = BoardCheckingFilter { name: None, status: None };
    let models = uc.board_checking(&filter).unwrap();
    assert_eq!(models.len(), 2);
    assert_eq!((models[0].id, models[0].adventurer_count), (3, 3));
    assert_eq!((models[1].id, models[1].adventurer_count), (7, 2));
    assert_eq!(models[1].status, "Failed");
    let one = uc.view_details(7).unwrap();
    assert_eq!((one.id, one.name.as_str(), one.adventurer_count), (7, "quest 7", 2));
    assert_eq!(uc.view_details(8).unwrap_err(), RepositoryError::NotFound);
    let m = to_model(quest(1, "Open"), 9);
    assert_eq!((m.id, m.status.as_str(), m.adventurer_count), (1, "Open", 9));
}
