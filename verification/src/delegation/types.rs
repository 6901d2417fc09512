use vstd::prelude::*;

verus! {

/// A task handed to another agent: what to do, what should come of it,
/// the tools it needs, and what must and must not be done.
#[derive(Debug, Clone)]
pub struct DelegationRequest {
    pub task: String,
    pub expected_outcome: ExpectedOutcome,
    pub required_tools: Vec<String>,
    pub must_do: Vec<String>,
    pub must_not_do: Vec<String>,
}

/// What a delegated task should deliver, and how success is judged.
#[derive(Debug, Clone)]
pub struct ExpectedOutcome {
    pub deliverables: Vec<String>,
    pub success_criteria: Vec<String>,
}

/// How a delegation went: whether it succeeded, the session it ran in, and
/// its output, if any.
#[derive(Debug, Clone)]
pub struct DelegationResult {
    pub success: bool,
    pub session_id: String,
    pub output: Option<serde_json::Value>,
}

} // verus!
