//! Handing a task over to another agent.

pub mod protocol;
pub mod types;

pub use protocol::DelegationProtocol;
pub use types::{DelegationRequest, DelegationResult, ExpectedOutcome};
