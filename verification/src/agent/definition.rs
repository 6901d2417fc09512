use vstd::prelude::*;

verus! {

/// The identifier of an agent.
#[derive(Debug, Clone, Hash)]
pub struct AgentId(String);

impl View for AgentId {
    type V = Seq<char>;

    closed spec fn view(&self) -> Seq<char> {
        self.0@
    }
}

impl PartialEq for AgentId {
    fn eq(&self, other: &Self) -> (r: bool) {
        self.0 == other.0
    }
}

impl vstd::std_specs::cmp::PartialEqSpecImpl for AgentId {
    open spec fn obeys_eq_spec() -> bool {
        true
    }

    open spec fn eq_spec(&self, other: &Self) -> bool {
        self@ == other@
    }
}

impl Eq for AgentId {
}

impl<'a> From<&'a str> for AgentId {
    /// The identifier whose text is `s`.
    fn from(s: &'a str) -> (a: Self)
        ensures
            a@ == s@,
    {
        AgentId(String::from_str(s))
    }
}

impl<'a> vstd::std_specs::convert::FromSpecImpl<&'a str> for AgentId {
    /// Two identifiers with the same text need not be the same value in a
    /// specification, so `from` is described by its own `ensures` (the text
    /// is `s`) and not by a single spec value.
    open spec fn obeys_from_spec() -> bool {
        false
    }

    open spec fn from_spec(s: &'a str) -> AgentId {
        choose|a: AgentId| a@ == s@
    }
}

impl AgentId {
    /// The identifier `id`.
    pub fn new(id: &str) -> (a: Self)
        ensures
            a@ == id@,
    {
        AgentId(String::from_str(id))
    }

    /// The identifier's text.
    pub fn as_str(&self) -> (s: &str)
        ensures
            s@ == self@,
    {
        self.0.as_str()
    }
}

/// The part an agent plays in the writing team.
#[derive(Debug, Clone, Copy, PartialEq, Eq, Hash, Structural)]
pub enum AgentRole {
    Planner,
    TianDao,
    WorldGuardian,
    LiuHeping,
    Writer,
    Reviewer,
    Observer,
    Researcher,
}

impl AgentRole {
    /// Only the agents of the roles TianDao and WorldGuardian may step into
    /// another agent's work.
    pub fn can_intervene(&self) -> (b: bool)
        ensures
            b == (*self == AgentRole::TianDao || *self == AgentRole::WorldGuardian),
    {
        match self {
            AgentRole::TianDao | AgentRole::WorldGuardian => true,
            _ => false,
        }
    }

    /// A number of its own for each role.
    pub open spec fn code(self) -> u8 {
        match self {
            AgentRole::Planner => 0,
            AgentRole::TianDao => 1,
            AgentRole::WorldGuardian => 2,
            AgentRole::LiuHeping => 3,
            AgentRole::Writer => 4,
            AgentRole::Reviewer => 5,
            AgentRole::Observer => 6,
            AgentRole::Researcher => 7,
        }
    }

    /// The role's number.
    pub fn code_of(self) -> (c: u8)
        ensures
            c == self.code(),
    {
        match self {
            AgentRole::Planner => 0,
            AgentRole::TianDao => 1,
            AgentRole::WorldGuardian => 2,
            AgentRole::LiuHeping => 3,
            AgentRole::Writer => 4,
            AgentRole::Reviewer => 5,
            AgentRole::Observer => 6,
            AgentRole::Researcher => 7,
        }
    }
}

/// Different roles have different numbers.
pub proof fn lemma_role_code_injective(p: AgentRole, q: AgentRole)
    ensures
        p.code() == q.code() ==> p == q,
{
}

/// Something an agent can do, and the words that call for it.
#[derive(Debug, Clone)]
pub struct AgentCapability {
    pub name: String,
    pub description: String,
    pub triggers: Vec<String>,
}

/// An agent's answer: its text, its thinking, and its annotations.
#[derive(Debug, Clone)]
pub struct AgentResponse {
    pub content: String,
    pub thinking: Option<String>,
    pub annotations: Vec<String>,
}

/// Why an agent could not answer.
#[derive(Debug)]
pub enum AgentError {
    ProviderError(String),
    PermissionDenied,
    ProcessingFailed(String),
}

/// The message that describes an error to the user.
pub open spec fn agent_error_message(e: AgentError) -> Seq<char> {
    match e {
        AgentError::ProviderError(s) => "Provider错误: "@ + s@,
        AgentError::PermissionDenied => "权限不足"@,
        AgentError::ProcessingFailed(s) => "处理失败: "@ + s@,
    }
}

impl AgentError {
    /// The message that describes the error to the user.
    pub fn message(&self) -> (m: String)
        ensures
            m@ == agent_error_message(*self),
    {
        match self {
            AgentError::ProviderError(s) => {
                let mut m = String::from_str("Provider错误: ");
                m.append(s.as_str());
                m
            },
            AgentError::PermissionDenied => String::from_str("权限不足"),
            AgentError::ProcessingFailed(s) => {
                let mut m = String::from_str("处理失败: ");
                m.append(s.as_str());
                m
            },
        }
    }
}

/// A stage of writing a novel.
#[derive(Debug, Clone, Copy, PartialEq, Eq, Hash, Structural)]
pub enum CreationStage {
    Outline,
    WorldBuilding,
    CharacterDevelopment,
    Writing,
    Revision,
    Publishing,
}

/// An agent with the stage list `stages` works at `stage`: an agent with no
/// list works at every stage, one with a list at the stages listed.
pub open spec fn available_at(stages: Option<Seq<CreationStage>>, stage: CreationStage) -> bool {
    match stages {
        None => true,
        Some(s) => s.contains(stage),
    }
}

/// The stage list of an agent, as a sequence.
pub open spec fn stages_view(stages: Option<Vec<CreationStage>>) -> Option<Seq<CreationStage>> {
    match stages {
        None => None,
        Some(v) => Some(v@),
    }
}

/// Whether an agent with the stage list `stages` works at `stage`.
pub fn agent_available_at(stages: &Option<Vec<CreationStage>>, stage: CreationStage) -> (b: bool)
    ensures
        b == available_at(stages_view(*stages), stage),
{
    match stages {
        None => true,
        Some(v) => {
            let mut i: usize = 0;
            while i < v.len()
                invariant
                    stages_view(*stages) == Some(v@),
                    i <= v@.len(),
                    forall|k: int| 0 <= k < i ==> v@[k] != stage,
                decreases v@.len() - i,
            {
                if v[i] == stage {
                    assert(v@[i as int] == stage);
                    assert(v@.contains(stage));
                    return true;
                }
                i = i + 1;
            }
            false
        },
    }
}

/// An agent with no stage list works at every stage; an agent with a list
/// works at a stage exactly when the stage appears somewhere in the list.
pub proof fn lemma_available_at_membership(stages: Seq<CreationStage>, stage: CreationStage)
    ensures
        available_at(None, stage),
        available_at(Some(stages), stage) <==> exists|i: int|
            0 <= i < stages.len() && stages[i] == stage,
{
}

} // verus!
