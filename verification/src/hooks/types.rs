use std::collections::HashMap;
use vstd::prelude::*;

verus! {

/// A point of an agent's life cycle at which hooks run.
#[derive(Debug, Clone, Copy, PartialEq, Eq, Hash, Structural)]
pub enum HookPoint {
    BeforeUserMessage,
    AfterUserMessage,
    BeforeAssistantMessage,
    AfterAssistantMessage,
    BeforeToolCall,
    AfterToolResult,
    OnSessionStart,
    OnSessionEnd,
    OnAgentSwitch,
    OnPhaseChange,
    OnChapterComplete,
    OnConsistencyViolation,
    OnError,
    OnIdle,
}

impl HookPoint {
    /// A number of its own for each point.
    pub open spec fn code(self) -> u8 {
        match self {
            HookPoint::BeforeUserMessage => 0,
            HookPoint::AfterUserMessage => 1,
            HookPoint::BeforeAssistantMessage => 2,
            HookPoint::AfterAssistantMessage => 3,
            HookPoint::BeforeToolCall => 4,
            HookPoint::AfterToolResult => 5,
            HookPoint::OnSessionStart => 6,
            HookPoint::OnSessionEnd => 7,
            HookPoint::OnAgentSwitch => 8,
            HookPoint::OnPhaseChange => 9,
            HookPoint::OnChapterComplete => 10,
            HookPoint::OnConsistencyViolation => 11,
            HookPoint::OnError => 12,
            HookPoint::OnIdle => 13,
        }
    }

    /// The point's number.
    pub fn code_of(self) -> (c: u8)
        ensures
            c == self.code(),
    {
        match self {
            HookPoint::BeforeUserMessage => 0,
            HookPoint::AfterUserMessage => 1,
            HookPoint::BeforeAssistantMessage => 2,
            HookPoint::AfterAssistantMessage => 3,
            HookPoint::BeforeToolCall => 4,
            HookPoint::AfterToolResult => 5,
            HookPoint::OnSessionStart => 6,
            HookPoint::OnSessionEnd => 7,
            HookPoint::OnAgentSwitch => 8,
            HookPoint::OnPhaseChange => 9,
            HookPoint::OnChapterComplete => 10,
            HookPoint::OnConsistencyViolation => 11,
            HookPoint::OnError => 12,
            HookPoint::OnIdle => 13,
        }
    }
}

/// Different points have different numbers.
pub proof fn lemma_code_injective(p: HookPoint, q: HookPoint)
    ensures
        p.code() == q.code() ==> p == q,
{
}

/// What a hook is told when it runs.
#[derive(Debug, Clone)]
pub struct HookContext {
    pub session_id: String,
    pub book_id: String,
    pub agent_name: String,
    pub message: Option<String>,
    pub data: HashMap<String, serde_json::Value>,
}

impl HookContext {
    /// The context of a session, book and agent, with no message and no data.
    pub fn new(session_id: String, book_id: String, agent_name: String) -> (c: Self)
        ensures
            c.session_id == session_id,
            c.book_id == book_id,
            c.agent_name == agent_name,
            c.message is None,
            c.data@ == Map::<String, serde_json::Value>::empty(),
    {
        HookContext { session_id, book_id, agent_name, message: None, data: HashMap::new() }
    }
}

/// What running the hooks decided: whether to go on, and a replacement for
/// the message, if any.
#[derive(Debug, Clone)]
pub struct HookResult {
    pub continue_execution: bool,
    pub modified_message: Option<String>,
}

impl HookResult {
    /// Go on, with the message unchanged.
    pub fn cont() -> (r: Self)
        ensures
            r.continue_execution,
            r.modified_message is None,
    {
        HookResult { continue_execution: true, modified_message: None }
    }

    /// Stop, with the message unchanged.
    pub fn stop() -> (r: Self)
        ensures
            !r.continue_execution,
            r.modified_message is None,
    {
        HookResult { continue_execution: false, modified_message: None }
    }
}

/// A hook: its name, the point it runs at, its priority (smaller runs
/// first) and whether it is enabled.
#[derive(Debug, Clone)]
pub struct HookDefinition {
    pub name: String,
    pub point: HookPoint,
    pub priority: u32,
    pub enabled: bool,
}

impl HookDefinition {
    /// An enabled hook named `name` at `point`, with the default priority 100.
    pub fn new(name: &str, point: HookPoint) -> (d: Self)
        ensures
            d.name@ == name@,
            d.point == point,
            d.priority == 100,
            d.enabled,
    {
        HookDefinition { name: String::from_str(name), point, priority: 100, enabled: true }
    }
}

} // verus!
