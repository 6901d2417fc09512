//! Who may do what: permissions, sets of them, and the role-to-permissions
//! matrix.

pub mod checker;
pub mod matrix;
pub mod types;

pub use checker::{PermissionCheckResult, PermissionChecker, PermissionScope};
pub use matrix::PermissionMatrix;
pub use types::{Permission, PermissionSet};
