use vstd::prelude::*;

verus! {

/// Where a permission is asked for: everywhere, in one book, or in one
/// chapter.
#[derive(Debug, Clone)]
pub enum PermissionScope {
    Global,
    Book(String),
    Chapter(String),
}

/// The scope-level permission check. Every scope currently allows every
/// permission.
pub struct PermissionChecker;

impl PermissionChecker {
    /// Whether `permission` is allowed in `scope`: always.
    pub fn check(scope: &PermissionScope, permission: &str) -> (allowed: bool)
        ensures
            allowed,
    {
        true
    }
}

/// The answer to a permission request, with the reason of a refusal.
#[derive(Debug, Clone)]
pub struct PermissionCheckResult {
    pub allowed: bool,
    pub reason: Option<String>,
}

} // verus!
