//! Tools that agents can call, registered by name.

pub mod registry;
pub mod types;

pub use registry::ToolRegistry;
pub use types::{ToolDefinition, ToolResult};
