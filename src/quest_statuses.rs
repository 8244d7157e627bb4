//! Where a quest stands, and whether its crew may still change.
use crate::text::same_text;
use vstd::prelude::*;

verus! {

#[derive(Clone, Copy, Debug, PartialEq, Eq, Structural)]
pub enum QuestStatuses {
    Open,
    InJourney,
    Completed,
    Failed,
}

impl QuestStatuses {
    pub open spec fn spec_text(self) -> Seq<char> {
        match self {
            QuestStatuses::Open => "Open"@,
            QuestStatuses::InJourney => "In Journey"@,
            QuestStatuses::Completed => "Completed"@,
            QuestStatuses::Failed => "Failed"@,
        }
    }

    /// The status as it is written in quest records.
    pub fn as_text(&self) -> (r: &'static str)
        ensures
            r@ == self.spec_text(),
    {
        match self {
            QuestStatuses::Open => "Open",
            QuestStatuses::InJourney => "In Journey",
            QuestStatuses::Completed => "Completed",
            QuestStatuses::Failed => "Failed",
        }
    }

    /// The status written as `text`, if any.
    pub fn from_text(text: &str) -> (r: Option<QuestStatuses>)
        ensures
            r matches Some(st) ==> st.spec_text() == text@,
            r is None ==> forall|st: QuestStatuses| #[trigger] st.spec_text() != text@,
    {
        if same_text(text, "Open") {
            Some(QuestStatuses::Open)
        } else if same_text(text, "In Journey") {
            Some(QuestStatuses::InJourney)
        } else if same_text(text, "Completed") {
            Some(QuestStatuses::Completed)
        } else if same_text(text, "Failed") {
            Some(QuestStatuses::Failed)
        } else {
            None
        }
    }
}

impl Default for QuestStatuses {
    fn default() -> (r: QuestStatuses)
        ensures
            r == QuestStatuses::Open,
    {
        QuestStatuses::Open
    }
}

/// Adventurers may join or leave a quest only while it is open or after it
/// has failed.
pub open spec fn crew_may_change(status: Seq<char>) -> bool {
    status == QuestStatuses::Open.spec_text() || status == QuestStatuses::Failed.spec_text()
}

/// Whether a quest recorded with `status` may change its crew.
pub fn crew_changeable(status: &str) -> (r: bool)
    ensures
        r == crew_may_change(status@),
{
    same_text(status, QuestStatuses::Open.as_text()) || same_text(
        status,
        QuestStatuses::Failed.as_text(),
    )
}

} // verus!
