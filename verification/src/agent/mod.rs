//! Agents: their identities and roles, the stages of novel creation at
//! which they work, their default configuration, and the registry of the
//! agents of a session.

pub mod config;
pub mod definition;
pub mod registry;

pub use config::{default_enabled, default_max_tokens};
pub use definition::{
    agent_available_at, AgentCapability, AgentError, AgentId, AgentResponse, AgentRole,
    CreationStage,
};
pub use registry::{AgentRegistry, RegisteredAgent};
