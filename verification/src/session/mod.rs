//! The context of a writing session.

pub mod context;

pub use context::SessionContext;
