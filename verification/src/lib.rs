//! Core building blocks of the OpenNovel agent SDK: agents and their
//! registry, sessions, chat messages and the SSE event stream, intent
//! classification, permissions, hooks, tools and task delegation.

pub mod agent;
pub mod clock;
pub mod delegation;
pub mod deps;
pub mod hooks;
pub mod intent;
pub mod message;
pub mod permission;
pub mod provider;
pub mod session;
pub mod text;
pub mod tools;

pub use agent::{AgentCapability, AgentError, AgentId, AgentRegistry, AgentResponse, AgentRole};
pub use intent::{IntentGate, IntentType, RouteTarget};
pub use permission::{
    Permission, PermissionCheckResult, PermissionChecker, PermissionMatrix, PermissionScope,
    PermissionSet,
};
pub use session::SessionContext;
