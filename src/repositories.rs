//! What the core asks of account storage. Any storage that provides these
//! lookups and inserts can stand behind the use cases.
use vstd::prelude::*;

verus! {

/// Why storage could not answer.
#[derive(Clone, Copy, Debug, PartialEq, Eq, Structural)]
pub enum RepositoryError {
    /// No record matches.
    NotFound,
    /// Storage failed or could not be reached.
    Unavailable,
}

/// A stored credential: `password` holds the digest, never the plaintext.
#[derive(Clone, Debug)]
pub struct CredentialRecord {
    pub id: i32,
    pub username: String,
    pub password: String,
}

/// A credential about to be stored.
#[derive(Clone, Debug)]
pub struct RegisterAccount {
    pub username: String,
    pub password: String,
}

pub trait AdventurerRepository {
    fn register(&self, adventurer: RegisterAccount) -> Result<i32, RepositoryError>;

    fn find_by_username(&self, username: &str) -> Result<CredentialRecord, RepositoryError>;
}

pub trait GuildCommanderRepository {
    fn register(&self, guild_commander: RegisterAccount) -> Result<i32, RepositoryError>;

    fn find_by_username(&self, username: &str) -> Result<CredentialRecord, RepositoryError>;
}

pub trait JourneyLedgerRepository {
    fn in_journey(&self, quest_id: i32, guild_commander_id: i32) -> Result<bool, RepositoryError>;

    fn to_completed(&self, quest_id: i32, guild_commander_id: i32) -> Result<bool, RepositoryError>;

    fn to_failed(&self, quest_id: i32, guild_commander_id: i32) -> Result<bool, RepositoryError>;
}

} // verus!
