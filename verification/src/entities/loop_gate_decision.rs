//! Gate decisions: which checks a gate aggregated, and the outcome it reached.

use crate::clock::Timestamp;
use crate::table::Row;
use vstd::prelude::*;

verus! {

/// The aggregated outcome of a gate over one target at one attempt.
#[derive(Debug, Clone, Copy, PartialEq, Eq, Structural)]
pub enum GateOutcome {
    Pass,
    Fail,
    Undecided,
}

/// One decision; it is never rewritten.
#[derive(Debug)]
pub struct Model {
    pub id: i32,
    pub space_id: i32,
    pub issue_id: i32,
    pub target_artifact_id: i32,
    /// The stage label: `review` for a task, `finalize` for the integration.
    pub stage: String,
    pub attempt: i32,
    pub policy_json: String,
    /// The ids of the aggregated checks, as JSON.
    pub input_check_ids: String,
    /// A fingerprint of the inputs.
    pub input_digest: String,
    pub outcome: GateOutcome,
    pub created_at: Timestamp,
}

/// What a row holds, with its texts as sequences of characters.
pub struct ModelView {
    pub id: i32,
    pub space_id: i32,
    pub issue_id: i32,
    pub target_artifact_id: i32,
    pub stage: Seq<char>,
    pub attempt: i32,
    pub policy_json: Seq<char>,
    pub input_check_ids: Seq<char>,
    pub input_digest: Seq<char>,
    pub outcome: GateOutcome,
    pub created_at: Timestamp,
}

impl View for Model {
    type V = ModelView;

    open spec fn view(&self) -> ModelView {
        ModelView {
            id: self.id,
            space_id: self.space_id,
            issue_id: self.issue_id,
            target_artifact_id: self.target_artifact_id,
            stage: self.stage@,
            attempt: self.attempt,
            policy_json: self.policy_json@,
            input_check_ids: self.input_check_ids@,
            input_digest: self.input_digest@,
            outcome: self.outcome,
            created_at: self.created_at,
        }
    }
}

impl Clone for Model {
    fn clone(&self) -> (r: Self)
        ensures
            r == *self,
    {
        Model {
            id: self.id,
            space_id: self.space_id,
            issue_id: self.issue_id,
            target_artifact_id: self.target_artifact_id,
            stage: self.stage.clone(),
            attempt: self.attempt,
            policy_json: self.policy_json.clone(),
            input_check_ids: self.input_check_ids.clone(),
            input_digest: self.input_digest.clone(),
            outcome: self.outcome,
            created_at: self.created_at,
        }
    }
}

impl Row for Model {
    open spec fn id_of(v: ModelView) -> i32 {
        v.id
    }

    fn row_id(&self) -> (r: i32) {
        self.id
    }
}

} // verus!
