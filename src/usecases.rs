//! Registration, which stores a digest and never the password, and crew
//! changes on the quest board, which storage carries out once the quest's
//! status and crew size allow them.
use crate::argon2_hashing::{hash, is_digest_of, MAX_PASSWORD_BYTES};
use crate::quest_statuses::{crew_changeable, crew_may_change, QuestStatuses};
use crate::repositories::{
    AdventurerRepository, GuildCommanderRepository, RegisterAccount, RepositoryError,
};
use std::sync::Arc;
use vstd::prelude::*;
use vstd::utf8::encode_utf8;

verus! {

/// No quest takes more adventurers than this.
pub const MAX_ADVENTURERS_PER_QUEST: i64 = 4;

/// Why a registration failed.
#[derive(Clone, Copy, Debug, PartialEq, Eq, Structural)]
pub enum RegisterError {
    /// The password could not be hashed.
    Hashing,
    /// Storage refused the record or failed.
    Repository(RepositoryError),
}

/// The record that registering `model` stores: the same username, and a
/// digest of the password in place of the password.
pub fn registration_record(model: RegisterAccount) -> (r: Result<RegisterAccount, RegisterError>)
    ensures
        r matches Ok(rec) ==> rec.username@ == model.username@ && is_digest_of(
            rec.password@,
            model.password@,
        ),
        r is Ok <==> encode_utf8(model.password@).len() <= MAX_PASSWORD_BYTES,
        r matches Err(e) ==> e == RegisterError::Hashing,
{
    match hash(model.password) {
        Ok(digest) => Ok(RegisterAccount { username: model.username, password: digest }),
        Err(_) => Err(RegisterError::Hashing),
    }
}

pub struct AdventurersUseCase<T> where T: AdventurerRepository {
    adventurer_repository: Arc<T>,
}

impl<T> AdventurersUseCase<T> where T: AdventurerRepository {
    pub fn new(adventurer_repository: Arc<T>) -> Self {
        Self { adventurer_repository }
    }

    /// Stores the adventurer with a digest of the password; the new id.
    pub fn register(&self, register_adventurer_model: RegisterAccount) -> (r: Result<
        i32,
        RegisterError,
    >)
        ensures
            (r == Err::<i32, RegisterError>(RegisterError::Hashing)) <==> encode_utf8(
                register_adventurer_model.password@,
            ).len() > MAX_PASSWORD_BYTES,
    {
        let record = match registration_record(register_adventurer_model) {
            Ok(record) => record,
            Err(e) => return Err(e),
        };
        match self.adventurer_repository.register(record) {
            Ok(id) => Ok(id),
            Err(e) => Err(RegisterError::Repository(e)),
        }
    }
}

pub struct GuildCommandersUseCase<T> where T: GuildCommanderRepository {
    guild_commanders_repository: Arc<T>,
}

impl<T> GuildCommandersUseCase<T> where T: GuildCommanderRepository {
    pub fn new(guild_commanders_repository: Arc<T>) -> Self {
        Self { guild_commanders_repository }
    }

    /// Stores the guild commander with a digest of the password; the new id.
    pub fn register(&self, register_guild_commander_model: RegisterAccount) -> (r: Result<
        i32,
        RegisterError,
    >)
        ensures
            (r == Err::<i32, RegisterError>(RegisterError::Hashing)) <==> encode_utf8(
                register_guild_commander_model.password@,
            ).len() > MAX_PASSWORD_BYTES,
    {
        let record = match registration_record(register_guild_commander_model) {
            Ok(record) => record,
            Err(e) => return Err(e),
        };
        match self.guild_commanders_repository.register(record) {
            Ok(id) => Ok(id),
            Err(e) => Err(RegisterError::Repository(e)),
        }
    }
}

/// One adventurer on one quest's crew.
#[derive(Clone, Copy, Debug, PartialEq, Eq, Structural)]
pub struct QuestAdventurerJunction {
    pub quest_id: i32,
    pub adventurer_id: i32,
}

/// A quest record as the board reads it.
#[derive(Clone, Debug)]
pub struct QuestEntity {
    pub id: i32,
    pub name: String,
    pub status: String,
}

/// A quest record with the size of its crew.
#[derive(Clone, Debug)]
pub struct QuestModel {
    pub id: i32,
    pub name: String,
    pub status: String,
    pub adventurer_count: i64,
}

/// Which quests the board lists: all where a field is `None`.
#[derive(Clone, Debug)]
pub struct BoardCheckingFilter {
    pub name: Option<String>,
    pub status: Option<QuestStatuses>,
}

/// The fields of a quest that its guild commander writes.
#[derive(Clone, Debug)]
pub struct QuestDraft {
    pub name: String,
    pub description: Option<String>,
}

pub trait QuestViewingRepository {
    fn view_details(&self, quest_id: i32) -> Result<QuestEntity, RepositoryError>;

    fn board_checking(&self, filter: &BoardCheckingFilter) -> Result<
        Vec<QuestEntity>,
        RepositoryError,
    >;

    fn adventurer_counting_by_quest_id(&self, quest_id: i32) -> Result<i64, RepositoryError>;
}

pub trait QuestOpsRepository {
    fn add(&self, guild_commander_id: i32, quest: QuestDraft) -> Result<i32, RepositoryError>;

    fn edit(&self, quest_id: i32, guild_commander_id: i32, quest: QuestDraft) -> Result<
        i32,
        RepositoryError,
    >;

    fn remove(&self, quest_id: i32, guild_commander_id: i32) -> Result<(), RepositoryError>;
}

pub trait CrewSwitchboardRepository {
    fn join(&self, junction: QuestAdventurerJunction) -> Result<(), RepositoryError>;

    fn leave(&self, junction: QuestAdventurerJunction) -> Result<(), RepositoryError>;
}

/// Why a crew change was refused.
#[derive(Clone, Copy, Debug, PartialEq, Eq, Structural)]
pub enum CrewError {
    /// The crew is already at its largest.
    QuestFull,
    /// The quest is neither open nor failed, so no one may join.
    NotJoinable,
    /// The quest is neither open nor failed, so no one may leave.
    NotLeaveable,
    Repository(RepositoryError),
}

/// Whether one more adventurer may join a quest with `status` and
/// `adventurer_count` members; a full crew is reported before the status.
pub open spec fn join_decision(status: Seq<char>, adventurer_count: i64) -> Result<(), CrewError> {
    if adventurer_count >= MAX_ADVENTURERS_PER_QUEST {
        Err(CrewError::QuestFull)
    } else if !crew_may_change(status) {
        Err(CrewError::NotJoinable)
    } else {
        Ok(())
    }
}

pub open spec fn leave_decision(status: Seq<char>) -> Result<(), CrewError> {
    if crew_may_change(status) {
        Ok(())
    } else {
        Err(CrewError::NotLeaveable)
    }
}

pub fn check_join(status: &str, adventurer_count: i64) -> (r: Result<(), CrewError>)
    ensures
        r == join_decision(status@, adventurer_count),
{
    if adventurer_count >= MAX_ADVENTURERS_PER_QUEST {
        Err(CrewError::QuestFull)
    } else if !crew_changeable(status) {
        Err(CrewError::NotJoinable)
    } else {
        Ok(())
    }
}

pub fn check_leave(status: &str) -> (r: Result<(), CrewError>)
    ensures
        r == leave_decision(status@),
{
    if crew_changeable(status) {
        Ok(())
    } else {
        Err(CrewError::NotLeaveable)
    }
}

pub struct CrewSwitchboardUseCase<T1, T2> where
    T1: CrewSwitchboardRepository,
    T2: QuestViewingRepository,
 {
    crew_switchboard_repository: Arc<T1>,
    quest_viewing_repository: Arc<T2>,
}

impl<T1, T2> CrewSwitchboardUseCase<T1, T2> where
    T1: CrewSwitchboardRepository,
    T2: QuestViewingRepository,
 {
    pub fn new(crew_switchboard_repository: Arc<T1>, quest_viewing_repository: Arc<T2>) -> Self {
        Self { crew_switchboard_repository, quest_viewing_repository }
    }

    /// Adds the adventurer to the quest's crew where the quest allows it.
    pub fn join(&self, quest_id: i32, adventurer_id: i32) -> (r: Result<(), CrewError>)
    {
        let quest = match self.quest_viewing_repository.view_details(quest_id) {
            Ok(q) => q,
            Err(e) => return Err(CrewError::Repository(e)),
        };
        let adventurer_count =
            match self.quest_viewing_repository.adventurer_counting_by_quest_id(quest_id) {
            Ok(n) => n,
            Err(e) => return Err(CrewError::Repository(e)),
        };
        let decision = check_join(quest.status.as_str(), adventurer_count);
        if decision.is_err() {
            return decision;
        }
        match self.crew_switchboard_repository.join(QuestAdventurerJunction { quest_id, adventurer_id })
        {
            Ok(()) => Ok(()),
            Err(e) => Err(CrewError::Repository(e)),
        }
    }

    /// Removes the adventurer from the quest's crew where the quest allows it.
    pub fn leave(&self, quest_id: i32, adventurer_id: i32) -> (r: Result<(), CrewError>)
    {
        let quest = match self.quest_viewing_repository.view_details(quest_id) {
            Ok(q) => q,
            Err(e) => return Err(CrewError::Repository(e)),
        };
        let decision = check_leave(quest.status.as_str());
        if decision.is_err() {
            return decision;
        }
        match self.crew_switchboard_repository.leave(
            QuestAdventurerJunction { quest_id, adventurer_id },
        ) {
            Ok(()) => Ok(()),
            Err(e) => Err(CrewError::Repository(e)),
        }
    }
}

/// Why a change to a quest was refused.
#[derive(Clone, Copy, Debug, PartialEq, Eq, Structural)]
pub enum QuestOpsError {
    /// Adventurers have joined: the quest is fixed.
    AlreadyStarted,
    Repository(RepositoryError),
}

/// A quest may be edited or removed only while no adventurer has joined.
pub fn check_unstarted(adventurer_count: i64) -> (r: Result<(), QuestOpsError>)
    ensures
        r is Ok <==> adventurer_count <= 0,
        r matches Err(e) ==> e == QuestOpsError::AlreadyStarted,
{
    if adventurer_count > 0 {
        Err(QuestOpsError::AlreadyStarted)
    } else {
        Ok(())
    }
}

/// A quest record with the crew size that was counted for it.
pub fn to_model(quest: QuestEntity, adventurer_count: i64) -> (m: QuestModel)
    ensures
        m.id == quest.id,
        m.name@ == quest.name@,
        m.status@ == quest.status@,
        m.adventurer_count == adventurer_count,
{
    QuestModel { id: quest.id, name: quest.name, status: quest.status, adventurer_count }
}

pub struct QuestOpsUseCase<T1, T2> where T1: QuestOpsRepository, T2: QuestViewingRepository {
    quest_ops_repository: Arc<T1>,
    quest_viewing_repository: Arc<T2>,
}

impl<T1, T2> QuestOpsUseCase<T1, T2> where T1: QuestOpsRepository, T2: QuestViewingRepository {
    pub fn new(quest_ops_repository: Arc<T1>, quest_viewing_repository: Arc<T2>) -> Self {
        Self { quest_ops_repository, quest_viewing_repository }
    }

    /// Posts a quest of the guild commander; the new quest's id.
    pub fn add(&self, guild_commander_id: i32, add_quest_model: QuestDraft) -> (r: Result<
        i32,
        QuestOpsError,
    >) {
        match self.quest_ops_repository.add(guild_commander_id, add_quest_model) {
            Ok(id) => Ok(id),
            Err(e) => Err(QuestOpsError::Repository(e)),
        }
    }

    /// Rewrites a quest that no adventurer has joined yet.
    pub fn edit(&self, quest_id: i32, guild_commander_id: i32, edit_quest_model: QuestDraft) -> (r:
        Result<i32, QuestOpsError>)
    {
        let adventurer_count =
            match self.quest_viewing_repository.adventurer_counting_by_quest_id(quest_id) {
            Ok(n) => n,
            Err(e) => return Err(QuestOpsError::Repository(e)),
        };
        if let Err(e) = check_unstarted(adventurer_count) {
            return Err(e);
        }
        match self.quest_ops_repository.edit(quest_id, guild_commander_id, edit_quest_model) {
            Ok(id) => Ok(id),
            Err(e) => Err(QuestOpsError::Repository(e)),
        }
    }

    /// Removes a quest that no adventurer has joined yet.
    pub fn remove(&self, quest_id: i32, guild_commander_id: i32) -> (r: Result<(), QuestOpsError>)
    {
        let adventurer_count =
            match self.quest_viewing_repository.adventurer_counting_by_quest_id(quest_id) {
            Ok(n) => n,
            Err(e) => return Err(QuestOpsError::Repository(e)),
        };
        if let Err(e) = check_unstarted(adventurer_count) {
            return Err(e);
        }
        match self.quest_ops_repository.remove(quest_id, guild_commander_id) {
            Ok(()) => Ok(()),
            Err(e) => Err(QuestOpsError::Repository(e)),
        }
    }
}

pub struct QuestViewingUseCase<T> where T: QuestViewingRepository {
    quest_viewing_repository: Arc<T>,
}

impl<T> QuestViewingUseCase<T> where T: QuestViewingRepository {
    pub fn new(quest_viewing_repository: Arc<T>) -> Self {
        Self { quest_viewing_repository }
    }

    /// A quest with the size of its crew.
    pub fn view_details(&self, quest_id: i32) -> (r: Result<QuestModel, RepositoryError>)
    {
        let quest = match self.quest_viewing_repository.view_details(quest_id) {
            Ok(q) => q,
            Err(e) => return Err(e),
        };
        let adventurer_count =
            match self.quest_viewing_repository.adventurer_counting_by_quest_id(quest_id) {
            Ok(n) => n,
            Err(e) => return Err(e),
        };
        Ok(to_model(quest, adventurer_count))
    }

    /// The quests that `filter` selects, in storage order, each with the
    /// size of its crew.
    pub fn board_checking(&self, filter: &BoardCheckingFilter) -> (r: Result<
        Vec<QuestModel>,
        RepositoryError,
    >) {
        let results = match self.quest_viewing_repository.board_checking(filter) {
            Ok(found) => found,
            Err(e) => return Err(e),
        };
        let mut models: Vec<QuestModel> = Vec::new();
        let mut i: usize = 0;
        while i < results.len()
            invariant
                i <= results@.len(),
                models@.len() == i,
                forall|j: int| 0 <= j < i ==> (#[trigger] models@[j]).id == results@[j].id,
            decreases results@.len() - i,
        {
            let quest = results[i].clone();
            let id = results[i].id;
            let adventurer_count =
                match self.quest_viewing_repository.adventurer_counting_by_quest_id(id) {
                Ok(n) => n,
                Err(e) => return Err(e),
            };
            let model = QuestModel {
                id,
                name: quest.name,
                status: quest.status,
                adventurer_count,
            };
            models.push(model);
            i = i + 1;
        }
        Ok(models)
    }
}

} // verus!
