//! The deployment stage, which decides among other things whether cookies
//! carry the `Secure` flag.
use crate::text::same_text;
use vstd::prelude::*;

verus! {

#[derive(Clone, Copy, Debug, PartialEq, Eq, Structural)]
pub enum Stage {
    Local,
    Development,
    Production,
}

/// A stage name that names no stage; it keeps the name that was refused.
#[derive(Clone, Debug)]
pub struct InvalidStage {
    pub stage: String,
}

impl InvalidStage {
    /// `Invalid stage: ` followed by the refused name.
    pub fn message(&self) -> (r: String)
        ensures
            r@ == "Invalid stage: "@ + self.stage@,
    {
        let mut m = String::from_str("Invalid stage: ");
        m.append(self.stage.as_str());
        m
    }
}

impl Stage {
    pub open spec fn spec_text(self) -> Seq<char> {
        match self {
            Stage::Local => "Local"@,
            Stage::Development => "Development"@,
            Stage::Production => "Production"@,
        }
    }

    /// The stage's name.
    pub fn as_text(&self) -> (r: &'static str)
        ensures
            r@ == self.spec_text(),
    {
        match self {
            Stage::Local => "Local",
            Stage::Development => "Development",
            Stage::Production => "Production",
        }
    }

    /// The stage that `stage` names exactly.
    pub fn try_from(stage: &str) -> (r: Result<Stage, InvalidStage>)
        ensures
            r matches Ok(s) ==> stage@ == s.spec_text(),
            r is Err <==> (stage@ != "Local"@ && stage@ != "Development"@ && stage@ != "Production"@),
            r matches Err(e) ==> e.stage@ == stage@,
    {
        if same_text(stage, "Local") {
            Ok(Stage::Local)
        } else if same_text(stage, "Development") {
            Ok(Stage::Development)
        } else if same_text(stage, "Production") {
            Ok(Stage::Production)
        } else {
            Err(InvalidStage { stage: String::from_str(stage) })
        }
    }

    /// Whether cookies must carry the `Secure` flag.
    pub fn secure_cookies(&self) -> (r: bool)
        ensures
            r == (*self == Stage::Production),
    {
        match self {
            Stage::Production => true,
            _ => false,
        }
    }
}

impl Default for Stage {
    fn default() -> (r: Stage)
        ensures
            r == Stage::Development,
    {
        Stage::Development
    }
}

} // verus!
