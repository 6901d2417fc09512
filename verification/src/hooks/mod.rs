//! Hooks: named callbacks registered at points of an agent's life cycle.

pub mod registry;
pub mod types;

pub use registry::HookRegistry;
pub use types::{HookContext, HookDefinition, HookPoint, HookResult};
