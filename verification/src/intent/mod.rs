//! Recognising what a user message asks for and where to send it.

pub mod gate;
pub mod parser;
pub mod patterns;
pub mod router;

pub use gate::{IntentGate, IntentType, RouteTarget};
pub use parser::IntentParser;
pub use patterns::{IntentPattern, IntentPatternLibrary};
pub use router::IntentRouter;
