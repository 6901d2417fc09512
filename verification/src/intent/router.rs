use vstd::prelude::*;

verus! {

/// Where the router sends a message.
#[derive(Debug, Clone)]
pub enum RouteTarget {
    Agent(String),
    Tool(String),
    Clarification(String),
}

/// Routing of intents to their handlers.
pub struct IntentRouter;

impl IntentRouter {
    /// The handler of `intent`: every intent currently goes to the agent
    /// `tian-dao`.
    pub fn route(intent: &str) -> (t: RouteTarget)
        ensures
            t matches RouteTarget::Agent(a) && a@ == "tian-dao"@,
    {
        RouteTarget::Agent(String::from_str("tian-dao"))
    }
}

} // verus!
